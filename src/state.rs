//! The canonical board state: lists and cards keyed by id, the activities of
//! each card, the selected card and the loading and error flags.
use vstd::prelude::*;
use crate::board::{CardView, KanbanCard, KanbanList, ListView};
use crate::keyed::{keyed, keys_unique, lemma_keyed_domain, lemma_keyed_push, lemma_keyed_remove, lemma_keyed_update, lemma_keyed_value};
use crate::text::opt_view;

verus! {

/// What a timeline activity of a card records.
#[derive(Debug, Clone, Copy, PartialEq, Eq, Structural)]
pub enum ActivityType {
    Comment,
    StatusChange,
    TagAdded,
    TagRemoved,
    TodoAdded,
    TodoCompleted,
    TodoUncompleted,
    EndTimeSet,
    EndTimeRemoved,
    DescriptionChanged,
    TitleChanged,
}

/// One entry of a card's activity timeline.
#[derive(Debug, Clone)]
pub struct CardActivity {
    pub id: String,
    pub activity_type: ActivityType,
    pub text: String,
    /// Structured extra data, as JSON text.
    pub metadata: Option<String>,
    pub created_at: u64,
    pub user_id: String,
}

pub struct ActivityView {
    pub id: Seq<char>,
    pub activity_type: ActivityType,
    pub text: Seq<char>,
    pub metadata: Option<Seq<char>>,
    pub created_at: u64,
    pub user_id: Seq<char>,
}

impl View for CardActivity {
    type V = ActivityView;

    open spec fn view(&self) -> ActivityView {
        ActivityView {
            id: self.id@,
            activity_type: self.activity_type,
            text: self.text@,
            metadata: opt_view(self.metadata),
            created_at: self.created_at,
            user_id: self.user_id@,
        }
    }
}

pub open spec fn activities_view(v: Seq<CardActivity>) -> Seq<ActivityView> {
    v.map_values(|a: CardActivity| a@)
}

/// The activities loaded for one card.
#[derive(Debug, Clone)]
pub struct CardActivities {
    pub card_id: String,
    pub activities: Vec<CardActivity>,
}

/// The board state as a reader sees it.
pub struct BoardView {
    pub lists: Map<Seq<char>, ListView>,
    pub cards: Map<Seq<char>, CardView>,
    pub activities: Map<Seq<char>, Seq<ActivityView>>,
    pub selected_card_id: Option<Seq<char>>,
    pub loading: bool,
    pub error: Option<Seq<char>>,
}

pub open spec fn list_entries(s: Seq<KanbanList>) -> Seq<(Seq<char>, ListView)> {
    s.map_values(|l: KanbanList| (l.id@, l@))
}

pub open spec fn card_entries(s: Seq<KanbanCard>) -> Seq<(Seq<char>, CardView)> {
    s.map_values(|c: KanbanCard| (c.id@, c@))
}

pub open spec fn activity_entries(s: Seq<CardActivities>) -> Seq<(Seq<char>, Seq<ActivityView>)> {
    s.map_values(|a: CardActivities| (a.card_id@, activities_view(a.activities@)))
}

/// The cards of `ids` that `cards` holds, in the order of `ids`.
pub open spec fn present_cards(ids: Seq<Seq<char>>, cards: Map<Seq<char>, CardView>) -> Seq<CardView>
    decreases ids.len(),
{
    if ids.len() == 0 {
        Seq::empty()
    } else {
        let r = present_cards(ids.drop_last(), cards);
        if cards.contains_key(ids.last()) {
            r.push(cards[ids.last()])
        } else {
            r
        }
    }
}

/// The cards shown in list `id`.
pub open spec fn list_cards_spec(b: BoardView, id: Seq<char>) -> Seq<CardView> {
    if b.lists.contains_key(id) {
        present_cards(b.lists[id].card_ids, b.cards)
    } else {
        Seq::empty()
    }
}

/// `b` with list `l` added or replaced.
pub open spec fn with_list(b: BoardView, l: ListView) -> BoardView {
    BoardView { lists: b.lists.insert(l.id, l), ..b }
}

/// `b` with card `c` added or replaced.
pub open spec fn with_card(b: BoardView, c: CardView) -> BoardView {
    BoardView { cards: b.cards.insert(c.id, c), ..b }
}

/// Upserting the same card twice leaves the board as the first upsert left
/// it.
pub proof fn lemma_upsert_card_idempotent(b: BoardView, c: CardView)
    ensures
        with_card(with_card(b, c), c) == with_card(b, c),
{
    assert(with_card(b, c).cards.insert(c.id, c) =~= with_card(b, c).cards);
}

/// Upserting the same list twice leaves the board as the first upsert left
/// it.
pub proof fn lemma_upsert_list_idempotent(b: BoardView, l: ListView)
    ensures
        with_list(with_list(b, l), l) == with_list(b, l),
{
    assert(with_list(b, l).lists.insert(l.id, l) =~= with_list(b, l).lists);
}

/// Index at which a list at `pos` is inserted into `s`: before the first
/// list with a greater position.
pub open spec fn insert_pos(s: Seq<ListView>, pos: u64) -> int
    decreases s.len(),
{
    if s.len() == 0 {
        0
    } else if s[0].position > pos {
        0
    } else {
        1 + insert_pos(s.drop_first(), pos)
    }
}

/// The lists of `s` ordered by position; lists at equal positions keep
/// their order in `s`.
pub open spec fn sorted_lists(s: Seq<ListView>) -> Seq<ListView>
    decreases s.len(),
{
    if s.len() == 0 {
        Seq::empty()
    } else {
        let r = sorted_lists(s.drop_last());
        r.insert(insert_pos(r, s.last().position), s.last())
    }
}

pub open spec fn positions_sorted(s: Seq<ListView>) -> bool {
    forall|i: int, j: int| 0 <= i < j < s.len() ==> s[i].position <= s[j].position
}

proof fn lemma_insert_pos(s: Seq<ListView>, pos: u64)
    ensures
        0 <= insert_pos(s, pos) <= s.len(),
        forall|k: int| 0 <= k < insert_pos(s, pos) ==> s[k].position <= pos,
        insert_pos(s, pos) < s.len() ==> s[insert_pos(s, pos)].position > pos,
    decreases s.len(),
{
    if s.len() > 0 && s[0].position <= pos {
        lemma_insert_pos(s.drop_first(), pos);
        assert forall|k: int| 0 <= k < insert_pos(s, pos) implies s[k].position <= pos by {
            if k > 0 {
                assert(s[k] == s.drop_first()[k - 1]);
            }
        }
    }
}

/// `sorted_lists` orders by position and keeps every list.
pub proof fn lemma_sorted_lists(s: Seq<ListView>)
    ensures
        positions_sorted(sorted_lists(s)),
        sorted_lists(s).len() == s.len(),
        sorted_lists(s).to_multiset() == s.to_multiset(),
    decreases s.len(),
{
    if s.len() > 0 {
        let r = sorted_lists(s.drop_last());
        lemma_sorted_lists(s.drop_last());
        let x = s.last();
        let p = insert_pos(r, x.position);
        lemma_insert_pos(r, x.position);
        let t = r.insert(p, x);
        assert forall|i: int, j: int| 0 <= i < j < t.len() implies t[i].position <= t[j].position by {
            if j < p {
            } else if j == p {
                assert(t[i] == r[i]);
            } else if i < p {
                assert(t[j] == r[j - 1]);
                assert(t[i] == r[i]);
                if p < r.len() {
                    assert(r[i].position <= x.position);
                }
            } else if i == p {
                assert(t[j] == r[j - 1]);
                assert(r[p].position > x.position);
                assert(r[p].position <= r[j - 1].position || p == j - 1);
            } else {
                assert(t[j] == r[j - 1]);
                assert(t[i] == r[i - 1]);
            }
        }
        vstd::seq_lib::to_multiset_insert(r, p, x);
        vstd::seq_lib::to_multiset_build(s.drop_last(), x);
        assert(s.drop_last().push(x) =~= s);
        assert(t.to_multiset() == s.to_multiset());
    } else {
        assert(s =~= Seq::<ListView>::empty());
    }
}

/// Process-local board state, owned by the single thread that renders it.
#[derive(Debug, Clone)]
pub struct KanbanAppState {
    pub lists: Vec<KanbanList>,
    pub cards: Vec<KanbanCard>,
    pub activities: Vec<CardActivities>,
    pub selected_card_id: Option<String>,
    pub loading: bool,
    pub error: Option<String>,
}

impl View for KanbanAppState {
    type V = BoardView;

    open spec fn view(&self) -> BoardView {
        BoardView {
            lists: keyed(list_entries(self.lists@)),
            cards: keyed(card_entries(self.cards@)),
            activities: keyed(activity_entries(self.activities@)),
            selected_card_id: opt_view(self.selected_card_id),
            loading: self.loading,
            error: opt_view(self.error),
        }
    }
}

impl KanbanAppState {
    /// Each list, card and activity record appears once.
    pub open spec fn wf(&self) -> bool {
        &&& keys_unique(list_entries(self.lists@))
        &&& keys_unique(card_entries(self.cards@))
        &&& keys_unique(activity_entries(self.activities@))
    }

    /// An empty board.
    pub fn new() -> (r: KanbanAppState)
        ensures
            r.wf(),
            r@.lists == Map::<Seq<char>, ListView>::empty(),
            r@.cards == Map::<Seq<char>, CardView>::empty(),
            r@.activities == Map::<Seq<char>, Seq<ActivityView>>::empty(),
            r@.selected_card_id is None,
            !r@.loading,
            r@.error is None,
    {
        let r = KanbanAppState {
            lists: Vec::new(),
            cards: Vec::new(),
            activities: Vec::new(),
            selected_card_id: None,
            loading: false,
            error: None,
        };
        assert(list_entries(r.lists@) =~= Seq::empty());
        assert(card_entries(r.cards@) =~= Seq::empty());
        assert(activity_entries(r.activities@) =~= Seq::empty());
        r
    }

    /// Index of list `id`.
    pub fn find_list(&self, id: &String) -> (r: Option<usize>)
        requires
            self.wf(),
        ensures
            r is None ==> !self@.lists.contains_key(id@),
            r is Some ==> r.unwrap() < self.lists.len() && self.lists[r.unwrap() as int].id@ == id@
                && self@.lists.contains_key(id@) && self@.lists[id@] == self.lists[r.unwrap() as int]@,
    {
        let mut i: usize = 0;
        while i < self.lists.len()
            invariant
                self.wf(),
                i <= self.lists.len(),
                forall|j: int| 0 <= j < i ==> self.lists@[j].id@ != id@,
            decreases self.lists.len() - i,
        {
            if self.lists[i].id == *id {
                proof {
                    lemma_keyed_value(list_entries(self.lists@), i as int);
                }
                return Some(i);
            }
            i = i + 1;
        }
        proof {
            lemma_keyed_domain(list_entries(self.lists@), id@);
            if self@.lists.contains_key(id@) {
                let j = choose|j: int| 0 <= j < self.lists.len() && list_entries(self.lists@)[j].0 == id@;
                assert(self.lists@[j].id@ == id@);
            }
        }
        None
    }

    /// Index of card `id`.
    pub fn find_card(&self, id: &String) -> (r: Option<usize>)
        requires
            self.wf(),
        ensures
            r is None ==> !self@.cards.contains_key(id@),
            r is Some ==> r.unwrap() < self.cards.len() && self.cards[r.unwrap() as int].id@ == id@
                && self@.cards.contains_key(id@) && self@.cards[id@] == self.cards[r.unwrap() as int]@,
    {
        let mut i: usize = 0;
        while i < self.cards.len()
            invariant
                self.wf(),
                i <= self.cards.len(),
                forall|j: int| 0 <= j < i ==> self.cards@[j].id@ != id@,
            decreases self.cards.len() - i,
        {
            if self.cards[i].id == *id {
                proof {
                    lemma_keyed_value(card_entries(self.cards@), i as int);
                }
                return Some(i);
            }
            i = i + 1;
        }
        proof {
            lemma_keyed_domain(card_entries(self.cards@), id@);
            if self@.cards.contains_key(id@) {
                let j = choose|j: int| 0 <= j < self.cards.len() && card_entries(self.cards@)[j].0 == id@;
                assert(self.cards@[j].id@ == id@);
            }
        }
        None
    }

    /// Adds `list`, or replaces the list with its id (last write wins).
    pub fn upsert_list(&mut self, list: KanbanList)
        requires
            old(self).wf(),
        ensures
            final(self).wf(),
            final(self)@ == with_list(old(self)@, list@),
    {
        let ghost l = list@;
        let ghost s = list_entries(self.lists@);
        match self.find_list(&list.id) {
            Some(i) => {
                self.lists.set(i, list);
                proof {
                    lemma_keyed_update(s, i as int, l);
                    assert(list_entries(self.lists@) =~= s.update(i as int, (s[i as int].0, l)));
                }
            },
            None => {
                self.lists.push(list);
                proof {
                    lemma_keyed_push(s, l.id, l);
                    assert(list_entries(self.lists@) =~= s.push((l.id, l)));
                }
            },
        }
    }

    /// Adds `card`, or replaces the card with its id (last write wins).
    pub fn upsert_card(&mut self, card: KanbanCard)
        requires
            old(self).wf(),
        ensures
            final(self).wf(),
            final(self)@ == with_card(old(self)@, card@),
    {
        let ghost c = card@;
        let ghost s = card_entries(self.cards@);
        match self.find_card(&card.id) {
            Some(i) => {
                self.cards.set(i, card);
                proof {
                    lemma_keyed_update(s, i as int, c);
                    assert(card_entries(self.cards@) =~= s.update(i as int, (s[i as int].0, c)));
                }
            },
            None => {
                self.cards.push(card);
                proof {
                    lemma_keyed_push(s, c.id, c);
                    assert(card_entries(self.cards@) =~= s.push((c.id, c)));
                }
            },
        }
    }

    /// Removes card `id` and returns it, if the board holds it.
    pub fn remove_card(&mut self, id: &String) -> (r: Option<KanbanCard>)
        requires
            old(self).wf(),
        ensures
            final(self).wf(),
            r is None <==> !old(self)@.cards.contains_key(id@),
            r is Some ==> r.unwrap()@ == old(self)@.cards[id@],
            final(self)@ == (BoardView { cards: old(self)@.cards.remove(id@), ..old(self)@ }),
    {
        let ghost s = card_entries(self.cards@);
        match self.find_card(id) {
            Some(i) => {
                let c = self.cards.remove(i);
                proof {
                    lemma_keyed_remove(s, i as int);
                    assert(card_entries(self.cards@) =~= s.remove(i as int));
                }
                Some(c)
            },
            None => {
                assert(old(self)@.cards.remove(id@) =~= old(self)@.cards);
                None
            },
        }
    }

    /// Stores the activities loaded for card `card_id`, replacing earlier ones.
    pub fn set_activities(&mut self, entry: CardActivities)
        requires
            old(self).wf(),
        ensures
            final(self).wf(),
            final(self)@ == (BoardView {
                activities: old(self)@.activities.insert(entry.card_id@, crate::state::activities_view(entry.activities@)),
                ..old(self)@
            }),
    {
        let ghost e = (entry.card_id@, activities_view(entry.activities@));
        let ghost s = activity_entries(self.activities@);
        let mut i: usize = 0;
        while i < self.activities.len()
            invariant
                i <= self.activities.len(),
                s == activity_entries(self.activities@),
                s == activity_entries(old(self).activities@),
                keys_unique(s),
                self.lists == old(self).lists,
                self.cards == old(self).cards,
                self.selected_card_id == old(self).selected_card_id,
                self.loading == old(self).loading,
                self.error == old(self).error,
                old(self).wf(),
                e == (entry.card_id@, activities_view(entry.activities@)),
                forall|j: int| 0 <= j < i ==> self.activities@[j].card_id@ != entry.card_id@,
            decreases self.activities.len() - i,
        {
            if self.activities[i].card_id == entry.card_id {
                assert(s[i as int].0 == e.0);
                self.activities.set(i, entry);
                proof {
                    lemma_keyed_update(s, i as int, e.1);
                    assert(activity_entries(self.activities@) =~= s.update(i as int, (s[i as int].0, e.1)));
                }
                return;
            }
            i = i + 1;
        }
        proof {
            lemma_keyed_domain(s, e.0);
            if keyed(s).contains_key(e.0) {
                let j = choose|j: int| 0 <= j < s.len() && s[j].0 == e.0;
                assert(self.activities@[j].card_id@ == e.0);
            }
        }
        self.activities.push(entry);
        proof {
            lemma_keyed_push(s, e.0, e.1);
            assert(activity_entries(self.activities@) =~= s.push(e));
        }
    }

    /// The cards of list `space_id` that the board holds, in the list's order.
    pub fn list_cards(&self, space_id: &String) -> (r: Vec<&KanbanCard>)
        requires
            self.wf(),
        ensures
            r@.map_values(|c: &KanbanCard| c@) == list_cards_spec(self@, space_id@),
    {
        let mut r: Vec<&KanbanCard> = Vec::new();
        match self.find_list(space_id) {
            None => {
                assert(r@.map_values(|c: &KanbanCard| c@) =~= Seq::<CardView>::empty());
                r
            },
            Some(li) => {
                let list = &self.lists[li];
                let ghost ids = list@.card_ids;
                let mut i: usize = 0;
                while i < list.card_ids.len()
                    invariant
                        self.wf(),
                        ids == list@.card_ids,
                        i <= list.card_ids.len(),
                        r@.map_values(|c: &KanbanCard| c@) == present_cards(ids.take(i as int), self@.cards),
                    decreases list.card_ids.len() - i,
                {
                    let ghost before = r@;
                    assert(ids.take(i + 1).drop_last() =~= ids.take(i as int));
                    assert(ids.take(i + 1).last() == list.card_ids[i as int]@);
                    match self.find_card(&list.card_ids[i]) {
                        Some(ci) => {
                            r.push(&self.cards[ci]);
                            assert(r@.map_values(|c: &KanbanCard| c@) =~= before.map_values(
                                |c: &KanbanCard| c@,
                            ).push(self.cards[ci as int]@));
                        },
                        None => {},
                    }
                    i = i + 1;
                }
                assert(ids.take(i as int) =~= ids);
                r
            },
        }
    }

    /// All lists, ordered by position.
    pub fn all_lists(&self) -> (r: Vec<&KanbanList>)
        ensures
            r@.map_values(|l: &KanbanList| l@) == sorted_lists(self.lists@.map_values(|l: KanbanList| l@)),
    {
        let ghost src = self.lists@.map_values(|l: KanbanList| l@);
        let mut r: Vec<&KanbanList> = Vec::new();
        let mut i: usize = 0;
        while i < self.lists.len()
            invariant
                i <= self.lists.len(),
                src == self.lists@.map_values(|l: KanbanList| l@),
                r@.map_values(|l: &KanbanList| l@) == sorted_lists(src.take(i as int)),
            decreases self.lists.len() - i,
        {
            let ghost rv = r@.map_values(|l: &KanbanList| l@);
            let pos = self.lists[i].position;
            let mut p: usize = 0;
            assert(rv.skip(0) =~= rv);
            while p < r.len() && r[p].position <= pos
                invariant
                    p <= r.len(),
                    rv == r@.map_values(|l: &KanbanList| l@),
                    insert_pos(rv, pos) == p + insert_pos(rv.skip(p as int), pos),
                decreases r.len() - p,
            {
                assert(rv.skip(p as int).drop_first() =~= rv.skip(p + 1));
                p = p + 1;
            }
            proof {
                if p < r.len() {
                    assert(rv.skip(p as int)[0] == rv[p as int]);
                }
            }
            assert(src.take(i + 1).drop_last() =~= src.take(i as int));
            r.insert(p, &self.lists[i]);
            assert(r@.map_values(|l: &KanbanList| l@) =~= rv.insert(p as int, self.lists[i as int]@));
            i = i + 1;
        }
        assert(src.take(i as int) =~= src);
        r
    }

    /// Renames list `list_id`, keeping its cards; an unknown list is ignored.
    pub fn update_list_name(&mut self, list_id: &String, name: String)
        requires
            old(self).wf(),
        ensures
            final(self).wf(),
            old(self)@.lists.contains_key(list_id@) ==> final(self)@ == (BoardView {
                lists: old(self)@.lists.insert(
                    list_id@,
                    ListView { name: name@, ..old(self)@.lists[list_id@] },
                ),
                ..old(self)@
            }),
            !old(self)@.lists.contains_key(list_id@) ==> final(self)@ == old(self)@,
    {
        match self.find_list(list_id) {
            Some(i) => {
                let mut l = self.lists[i].duplicate();
                l.name = name;
                self.upsert_list(l);
            },
            None => {},
        }
    }

    /// Sets the loading flag.
    pub fn set_loading(&mut self, loading: bool)
        ensures
            final(self).wf() == old(self).wf(),
            final(self)@ == (BoardView { loading, ..old(self)@ }),
    {
        self.loading = loading;
    }

    /// Sets or clears the error message.
    pub fn set_error(&mut self, error: Option<String>)
        ensures
            final(self).wf() == old(self).wf(),
            final(self)@ == (BoardView { error: opt_view(error), ..old(self)@ }),
    {
        self.error = error;
    }
}

} // verus!
