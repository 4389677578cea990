//! Board-level settings and checklist models.
use vstd::prelude::*;

verus! {

/// How cards are drawn.
#[derive(Debug, Clone, Copy, PartialEq, Eq, Structural)]
pub enum CardViewMode {
    Compact,
    Detailed,
    Cover,
}

/// Display settings of a board.
#[derive(Debug, Clone)]
pub struct ViewSettings {
    pub card_view_mode: CardViewMode,
    pub show_completed: bool,
    pub page_size: u32,
}

impl Default for ViewSettings {
    /// Detailed cards, completed ones shown, 50 per page.
    fn default() -> (r: ViewSettings)
        ensures
            r.card_view_mode == CardViewMode::Detailed,
            r.show_completed,
            r.page_size == 50,
    {
        ViewSettings { card_view_mode: CardViewMode::Detailed, show_completed: true, page_size: 50 }
    }
}

/// A card's due date.
#[derive(Debug, Clone)]
pub struct CardDueDate {
    pub date: String,
    pub is_completed: bool,
}

/// A card's cover image.
#[derive(Debug, Clone)]
pub struct CardCover {
    pub url: String,
    pub height: u32,
}

/// One entry of a checklist.
#[derive(Debug, Clone)]
pub struct ChecklistItem {
    pub id: String,
    pub name: String,
    pub is_checked: bool,
}

/// A named checklist of a card.
#[derive(Debug, Clone)]
pub struct CardChecklist {
    pub id: String,
    pub name: String,
    pub items: Vec<ChecklistItem>,
}

/// Number of checked items of `s`.
pub open spec fn checked_count(s: Seq<ChecklistItem>) -> nat
    decreases s.len(),
{
    if s.len() == 0 {
        0
    } else {
        checked_count(s.drop_last()) + if s.last().is_checked {
            1nat
        } else {
            0nat
        }
    }
}

proof fn lemma_checked_count_le(s: Seq<ChecklistItem>)
    ensures
        checked_count(s) <= s.len(),
    decreases s.len(),
{
    if s.len() > 0 {
        lemma_checked_count_le(s.drop_last());
    }
}

impl CardChecklist {
    /// Whether every item is checked (true for an empty checklist).
    pub fn is_completed(&self) -> (r: bool)
        ensures
            r == forall|i: int| 0 <= i < self.items.len() ==> (#[trigger] self.items[i]).is_checked,
    {
        let mut i: usize = 0;
        while i < self.items.len()
            invariant
                i <= self.items.len(),
                forall|j: int| 0 <= j < i ==> (#[trigger] self.items[j]).is_checked,
            decreases self.items.len() - i,
        {
            if !self.items[i].is_checked {
                return false;
            }
            i = i + 1;
        }
        true
    }

    /// Number of checked items.
    pub fn completed_count(&self) -> (r: usize)
        ensures
            r == checked_count(self.items@),
    {
        let mut n: usize = 0;
        let mut i: usize = 0;
        while i < self.items.len()
            invariant
                i <= self.items.len(),
                n == checked_count(self.items@.take(i as int)),
            decreases self.items.len() - i,
        {
            proof {
                assert(self.items@.take(i + 1).drop_last() =~= self.items@.take(i as int));
                lemma_checked_count_le(self.items@.take(i as int));
            }
            if self.items[i].is_checked {
                n = n + 1;
            }
            i = i + 1;
        }
        assert(self.items@.take(i as int) =~= self.items@);
        n
    }
}

/// Filter on due dates.
#[derive(Debug, Clone, Copy, PartialEq, Eq, Structural)]
pub enum DueDateFilter {
    Overdue,
    Today,
    Tomorrow,
    ThisWeek,
    NextWeek,
    NoDue,
    Completed,
}

/// Field cards are sorted by.
#[derive(Debug, Clone, Copy, PartialEq, Eq, Structural)]
pub enum SortField {
    Position,
    CreatedAt,
    UpdatedAt,
    Title,
    DueDate,
}

#[derive(Debug, Clone, Copy, PartialEq, Eq, Structural)]
pub enum SortDirection {
    Ascending,
    Descending,
}

/// How a board's cards are sorted.
#[derive(Debug, Clone, Copy, PartialEq, Eq, Structural)]
pub struct KanbanSortState {
    pub field: SortField,
    pub direction: SortDirection,
}

/// Changes to a board; `None` leaves a field as it is.
#[derive(Debug, Clone, Default)]
pub struct BoardUpdateRequest {
    pub name: Option<String>,
    pub description: Option<Option<String>>,
    pub background_color: Option<String>,
    pub background_image: Option<Option<String>>,
}

/// Changes to a list; `None` leaves a field as it is.
#[derive(Debug, Clone, Default)]
pub struct ListUpdateRequest {
    pub name: Option<String>,
    pub archived: Option<bool>,
}


/// Colour of a board label.
#[derive(Debug, Clone, Copy, PartialEq, Eq, Structural)]
pub enum LabelColor {
    Green,
    Yellow,
    Orange,
    Red,
    Purple,
    Blue,
    Sky,
    Lime,
    Pink,
    Black,
}

/// The `#RRGGBB` code of each label colour.
pub open spec fn label_hex(c: LabelColor) -> Seq<char> {
    match c {
        LabelColor::Green => seq!['#', '6', '1', 'B', 'D', '4', 'F'],
        LabelColor::Yellow => seq!['#', 'F', '2', 'D', '6', '0', '0'],
        LabelColor::Orange => seq!['#', 'F', 'F', '9', 'F', '1', 'A'],
        LabelColor::Red => seq!['#', 'E', 'B', '5', 'A', '4', '6'],
        LabelColor::Purple => seq!['#', '9', '7', '7', '5', 'F', 'A'],
        LabelColor::Blue => seq!['#', '0', '0', '7', '9', 'B', 'F'],
        LabelColor::Sky => seq!['#', '0', '0', 'C', '2', 'E', '0'],
        LabelColor::Lime => seq!['#', '5', '1', 'E', '8', '9', '8'],
        LabelColor::Pink => seq!['#', 'F', 'F', '7', '8', 'C', 'B'],
        LabelColor::Black => seq!['#', '3', '4', '3', '4', '3', '4'],
    }
}

impl LabelColor {
    /// The colour's `#RRGGBB` code.
    pub fn to_hex(&self) -> (r: &'static str)
        ensures
            r@ == label_hex(*self),
    {
        match self {
            LabelColor::Green => {
                proof {
                    reveal_strlit("#61BD4F");
                }
                "#61BD4F"
            },
            LabelColor::Yellow => {
                proof {
                    reveal_strlit("#F2D600");
                }
                "#F2D600"
            },
            LabelColor::Orange => {
                proof {
                    reveal_strlit("#FF9F1A");
                }
                "#FF9F1A"
            },
            LabelColor::Red => {
                proof {
                    reveal_strlit("#EB5A46");
                }
                "#EB5A46"
            },
            LabelColor::Purple => {
                proof {
                    reveal_strlit("#9775FA");
                }
                "#9775FA"
            },
            LabelColor::Blue => {
                proof {
                    reveal_strlit("#0079BF");
                }
                "#0079BF"
            },
            LabelColor::Sky => {
                proof {
                    reveal_strlit("#00C2E0");
                }
                "#00C2E0"
            },
            LabelColor::Lime => {
                proof {
                    reveal_strlit("#51E898");
                }
                "#51E898"
            },
            LabelColor::Pink => {
                proof {
                    reveal_strlit("#FF78CB");
                }
                "#FF78CB"
            },
            LabelColor::Black => {
                proof {
                    reveal_strlit("#343434");
                }
                "#343434"
            },
        }
    }
}

/// A label that cards of a board can carry.
#[derive(Debug, Clone)]
pub struct KanbanLabel {
    pub id: String,
    pub name: String,
    pub color: LabelColor,
}

} // verus!
