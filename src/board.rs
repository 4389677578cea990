//! The in-memory board: lists, cards, their todos and activities, and the
//! single canonical state that the dispatcher mutates.
use vstd::prelude::*;
use crate::text::{copy_opt, copy_strings, decimal, hex_digits, opt_view, push_char, push_decimal, push_hex, strs_view};
use crate::order::INITIAL_ORDER;

verus! {

/// One entry of a card's checklist of things to do.
#[derive(Debug, Clone)]
pub struct TodoItem {
    pub id: String,
    pub text: String,
    pub completed: bool,
    /// Seconds since the Unix epoch.
    pub created_at: u64,
    pub completed_at: Option<u64>,
}

pub struct TodoView {
    pub id: Seq<char>,
    pub text: Seq<char>,
    pub completed: bool,
    pub created_at: u64,
    pub completed_at: Option<u64>,
}

impl View for TodoItem {
    type V = TodoView;

    open spec fn view(&self) -> TodoView {
        TodoView {
            id: self.id@,
            text: self.text@,
            completed: self.completed,
            created_at: self.created_at,
            completed_at: self.completed_at,
        }
    }
}

pub open spec fn todos_view(v: Seq<TodoItem>) -> Seq<TodoView> {
    v.map_values(|t: TodoItem| t@)
}

/// Number of completed entries.
pub open spec fn completed_count(v: Seq<TodoView>) -> nat
    decreases v.len(),
{
    if v.len() == 0 {
        0
    } else {
        completed_count(v.drop_last()) + if v.last().completed {
            1nat
        } else {
            0nat
        }
    }
}

/// Identifier of a todo made at `now`: `todo_<now>_<suffix>`.
pub open spec fn todo_id(now: u64, suffix: Seq<char>) -> Seq<char> {
    seq!['t', 'o', 'd', 'o', '_'] + decimal(now as nat) + seq!['_'] + suffix
}

impl TodoItem {
    /// A new, open todo created at `now`; its identifier ends in eight random
    /// hexadecimal digits.
    pub fn new(text: String, now: u64) -> (r: TodoItem)
        ensures
            r@.text == text@,
            !r@.completed,
            r@.created_at == now,
            r@.completed_at is None,
            exists|suffix: Seq<char>| suffix.len() == 8 && r@.id == todo_id(now, suffix),
    {
        let random = crate::ids::random_u32();
        let mut id = String::new();
        push_char(&mut id, 't');
        push_char(&mut id, 'o');
        push_char(&mut id, 'd');
        push_char(&mut id, 'o');
        push_char(&mut id, '_');
        push_decimal(&mut id, now);
        push_char(&mut id, '_');
        push_hex(&mut id, random as u64, 8);
        proof {
            lemma_hex_digits_len(random as nat, 8);
            assert(id@ =~= todo_id(now, hex_digits(random as nat, 8)));
        }
        TodoItem { id, text, completed: false, created_at: now, completed_at: None }
    }

    /// Flips the completion flag; completing records `now`, reopening clears it.
    pub fn toggle(&mut self, now: u64)
        ensures
            final(self)@ == (TodoView {
                completed: !old(self)@.completed,
                completed_at: if old(self)@.completed {
                    None
                } else {
                    Some(now)
                },
                ..old(self)@
            }),
    {
        self.completed = !self.completed;
        if self.completed {
            self.completed_at = Some(now);
        } else {
            self.completed_at = None;
        }
    }

    /// A copy of this todo.
    pub fn duplicate(&self) -> (r: TodoItem)
        ensures
            r@ == self@,
    {
        TodoItem {
            id: self.id.clone(),
            text: self.text.clone(),
            completed: self.completed,
            created_at: self.created_at,
            completed_at: self.completed_at,
        }
    }
}

pub proof fn lemma_hex_digits_len(n: nat, k: nat)
    ensures
        hex_digits(n, k).len() == k,
    decreases k,
{
    if k > 0 {
        lemma_hex_digits_len(n / 16, (k - 1) as nat);
    }
}

/// A list: a container node of the hierarchy.
#[derive(Debug, Clone)]
pub struct KanbanList {
    pub id: String,
    pub name: String,
    /// Cards known to belong here, in display order; rebuilt from the
    /// resolver, never the source of truth.
    pub card_ids: Vec<String>,
    pub position: u64,
}

pub struct ListView {
    pub id: Seq<char>,
    pub name: Seq<char>,
    pub card_ids: Seq<Seq<char>>,
    pub position: u64,
}

impl View for KanbanList {
    type V = ListView;

    open spec fn view(&self) -> ListView {
        ListView {
            id: self.id@,
            name: self.name@,
            card_ids: strs_view(self.card_ids@),
            position: self.position,
        }
    }
}

/// A card: a leaf node of the hierarchy.
#[derive(Debug, Clone)]
pub struct KanbanCard {
    pub id: String,
    pub title: String,
    pub description: Option<String>,
    /// The list the card belongs to.
    pub space_id: String,
    pub position: u64,
    pub tags: Vec<String>,
    /// Deadline, seconds since the Unix epoch.
    pub end_time: Option<u64>,
    pub todos: Vec<TodoItem>,
    pub created_at: u64,
    pub updated_at: u64,
}

pub struct CardView {
    pub id: Seq<char>,
    pub title: Seq<char>,
    pub description: Option<Seq<char>>,
    pub space_id: Seq<char>,
    pub position: u64,
    pub tags: Seq<Seq<char>>,
    pub end_time: Option<u64>,
    pub todos: Seq<TodoView>,
    pub created_at: u64,
    pub updated_at: u64,
}

impl View for KanbanCard {
    type V = CardView;

    open spec fn view(&self) -> CardView {
        CardView {
            id: self.id@,
            title: self.title@,
            description: opt_view(self.description),
            space_id: self.space_id@,
            position: self.position,
            tags: strs_view(self.tags@),
            end_time: self.end_time,
            todos: todos_view(self.todos@),
            created_at: self.created_at,
            updated_at: self.updated_at,
        }
    }
}

/// A card just created at `now`, with nothing but its title.
pub open spec fn fresh_card(id: Seq<char>, title: Seq<char>, space_id: Seq<char>, now: u64) -> CardView {
    CardView {
        id,
        title,
        description: None,
        space_id,
        position: INITIAL_ORDER,
        tags: Seq::empty(),
        end_time: None,
        todos: Seq::empty(),
        created_at: now,
        updated_at: now,
    }
}

/// A copy of `v`, todo by todo.
pub fn copy_todos(v: &Vec<TodoItem>) -> (r: Vec<TodoItem>)
    ensures
        todos_view(r@) == todos_view(v@),
{
    let mut r: Vec<TodoItem> = Vec::new();
    let mut i: usize = 0;
    while i < v.len()
        invariant
            i <= v.len(),
            r.len() == i,
            forall|j: int| 0 <= j < i ==> r@[j]@ == v@[j]@,
        decreases v.len() - i,
    {
        r.push(v[i].duplicate());
        i = i + 1;
    }
    assert(todos_view(r@) =~= todos_view(v@));
    r
}

pub proof fn lemma_completed_count_le(v: Seq<TodoView>)
    ensures
        completed_count(v) <= v.len(),
    decreases v.len(),
{
    if v.len() > 0 {
        lemma_completed_count_le(v.drop_last());
    }
}

pub proof fn lemma_completed_count_push(s: Seq<TodoView>, t: TodoView)
    ensures
        completed_count(s.push(t)) == completed_count(s) + if t.completed {
            1nat
        } else {
            0nat
        },
{
    assert(s.push(t).drop_last() =~= s);
}

pub proof fn lemma_completed_count_update(s: Seq<TodoView>, k: int, t: TodoView)
    requires
        0 <= k < s.len(),
    ensures
        completed_count(s.update(k, t)) + (if s[k].completed {
            1nat
        } else {
            0nat
        }) == completed_count(s) + if t.completed {
            1nat
        } else {
            0nat
        },
    decreases s.len(),
{
    if k == s.len() - 1 {
        assert(s.update(k, t).drop_last() =~= s.drop_last());
    } else {
        assert(s.update(k, t).drop_last() =~= s.drop_last().update(k, t));
        lemma_completed_count_update(s.drop_last(), k, t);
    }
}

/// `s` without the todos whose id is `id`.
pub open spec fn todos_without(s: Seq<TodoView>, id: Seq<char>) -> Seq<TodoView>
    decreases s.len(),
{
    if s.len() == 0 {
        Seq::empty()
    } else {
        let r = todos_without(s.drop_last(), id);
        if s.last().id == id {
            r
        } else {
            r.push(s.last())
        }
    }
}

/// Index of the first todo of `s` whose id is `id`, or -1.
pub open spec fn first_todo(s: Seq<TodoView>, id: Seq<char>) -> int
    decreases s.len(),
{
    if s.len() == 0 {
        -1
    } else {
        let r = first_todo(s.drop_last(), id);
        if r >= 0 {
            r
        } else if s.last().id == id {
            s.len() - 1
        } else {
            -1
        }
    }
}

proof fn lemma_first_todo_prefix(s: Seq<TodoView>, id: Seq<char>, k: int)
    requires
        0 <= k <= s.len(),
        first_todo(s.take(k), id) >= 0,
    ensures
        first_todo(s, id) == first_todo(s.take(k), id),
    decreases s.len() - k,
{
    if k == s.len() {
        assert(s.take(k) =~= s);
    } else {
        assert(s.drop_last().take(k) =~= s.take(k));
        lemma_first_todo_prefix(s.drop_last(), id, k);
    }
}

pub proof fn lemma_first_todo_range(s: Seq<TodoView>, id: Seq<char>)
    ensures
        -1 <= first_todo(s, id) < s.len(),
        first_todo(s, id) >= 0 ==> s[first_todo(s, id)].id == id,
    decreases s.len(),
{
    if s.len() > 0 {
        lemma_first_todo_range(s.drop_last(), id);
    }
}

/// Index of the first todo of `v` whose id is `id`.
pub fn find_todo(v: &Vec<TodoItem>, id: &String) -> (r: Option<usize>)
    ensures
        r is None <==> first_todo(todos_view(v@), id@) == -1,
        r is Some ==> r.unwrap() as int == first_todo(todos_view(v@), id@) && r.unwrap() < v.len(),
{
    let ghost tv = todos_view(v@);
    let mut i: usize = 0;
    while i < v.len()
        invariant
            i <= v.len(),
            tv == todos_view(v@),
            first_todo(tv.take(i as int), id@) == -1,
        decreases v.len() - i,
    {
        assert(tv.take(i + 1).drop_last() =~= tv.take(i as int));
        if v[i].id == *id {
            proof {
                lemma_first_todo_prefix(tv, id@, i + 1);
            }
            return Some(i);
        }
        i = i + 1;
    }
    assert(tv.take(i as int) =~= tv);
    None
}

/// A copy of `v` without the todos whose id is `id`.
pub fn todos_without_id(v: &Vec<TodoItem>, id: &String) -> (r: Vec<TodoItem>)
    ensures
        todos_view(r@) == todos_without(todos_view(v@), id@),
{
    let ghost tv = todos_view(v@);
    let mut r: Vec<TodoItem> = Vec::new();
    let mut i: usize = 0;
    while i < v.len()
        invariant
            i <= v.len(),
            tv == todos_view(v@),
            todos_view(r@) == todos_without(tv.take(i as int), id@),
        decreases v.len() - i,
    {
        let ghost before = r@;
        assert(tv.take(i + 1).drop_last() =~= tv.take(i as int));
        if v[i].id != *id {
            r.push(v[i].duplicate());
            assert(todos_view(r@) =~= todos_view(before).push(v@[i as int]@));
        }
        i = i + 1;
    }
    assert(tv.take(i as int) =~= tv);
    r
}

impl KanbanCard {
    /// A card created at `now` in list `space_id`, at the initial position.
    pub fn new(id: String, title: String, space_id: String, now: u64) -> (r: KanbanCard)
        ensures
            r@ == fresh_card(id@, title@, space_id@, now),
    {
        let r = KanbanCard {
            id,
            title,
            description: None,
            space_id,
            position: INITIAL_ORDER,
            tags: Vec::new(),
            end_time: None,
            todos: Vec::new(),
            created_at: now,
            updated_at: now,
        };
        assert(r@.tags =~= Seq::empty());
        assert(r@.todos =~= Seq::empty());
        r
    }

    /// Records `now` as the time of the last change.
    pub fn touch(&mut self, now: u64)
        ensures
            final(self)@ == (CardView { updated_at: now, ..old(self)@ }),
    {
        self.updated_at = now;
    }

    /// Whether the card has a deadline that lies before `now`.
    pub fn is_overdue(&self, now: u64) -> (r: bool)
        ensures
            r == (self.end_time is Some && now > self.end_time.unwrap()),
    {
        match self.end_time {
            Some(end_time) => now > end_time,
            None => false,
        }
    }

    /// `(completed, total)` over the card's todos.
    pub fn todo_progress(&self) -> (r: (usize, usize))
        ensures
            r.0 == completed_count(self@.todos),
            r.1 == self@.todos.len(),
    {
        let mut completed: usize = 0;
        let mut i: usize = 0;
        while i < self.todos.len()
            invariant
                i <= self.todos.len(),
                completed == completed_count(todos_view(self.todos@).take(i as int)),
            decreases self.todos.len() - i,
        {
            proof {
                let v = todos_view(self.todos@);
                assert(v.take(i + 1).drop_last() =~= v.take(i as int));
                lemma_completed_count_le(v.take(i as int));
            }
            if self.todos[i].completed {
                completed = completed + 1;
            }
            i = i + 1;
        }
        assert(todos_view(self.todos@).take(i as int) =~= todos_view(self.todos@));
        (completed, self.todos.len())
    }

    /// A copy of this card.
    pub fn duplicate(&self) -> (r: KanbanCard)
        ensures
            r@ == self@,
    {
        KanbanCard {
            id: self.id.clone(),
            title: self.title.clone(),
            description: copy_opt(&self.description),
            space_id: self.space_id.clone(),
            position: self.position,
            tags: copy_strings(&self.tags),
            end_time: self.end_time,
            todos: copy_todos(&self.todos),
            created_at: self.created_at,
            updated_at: self.updated_at,
        }
    }
}

impl KanbanList {
    /// A copy of this list.
    pub fn duplicate(&self) -> (r: KanbanList)
        ensures
            r@ == self@,
    {
        KanbanList {
            id: self.id.clone(),
            name: self.name.clone(),
            card_ids: copy_strings(&self.card_ids),
            position: self.position,
        }
    }
}

} // verus!
