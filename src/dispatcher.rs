//! Handling of intents and reconciliation events.
//!
//! Each intent mutates the board at once (optimistically) and yields the
//! remote requests that carry it out; each event applies a remote result.
use vstd::prelude::*;
use crate::actions::{KanbanActions, MatrixRequest, RequestView, requests_view};
use crate::board::{
    CardView, KanbanCard, ListView, TodoItem, TodoView, completed_count, copy_todos, find_todo, first_todo,
    lemma_completed_count_push, lemma_completed_count_update, todo_id, todos_view, todos_without, todos_without_id,
};
use crate::state::{BoardView, CardActivities, KanbanAppState, activities_view, with_card, with_list};
use crate::text::{contains_str, opt_view, strings_without, strs_view, without};

verus! {

/// Number of activities asked for when a card is opened.
pub const ACTIVITY_PAGE: usize = 50;

/// `q` alone when a remote client is available, else nothing.
pub open spec fn when(connected: bool, q: RequestView) -> Seq<RequestView> {
    if connected {
        seq![q]
    } else {
        Seq::empty()
    }
}

/// `b` with card `c` stored under `id`.
pub open spec fn set_card(b: BoardView, id: Seq<char>, c: CardView) -> BoardView {
    BoardView { cards: b.cards.insert(id, c), ..b }
}

/// `b` with `card_id` taken out of the card ids of list `list_id`.
pub open spec fn detach(b: BoardView, list_id: Seq<char>, card_id: Seq<char>) -> BoardView {
    if b.lists.contains_key(list_id) {
        BoardView {
            lists: b.lists.insert(
                list_id,
                ListView { card_ids: without(b.lists[list_id].card_ids, card_id), ..b.lists[list_id] },
            ),
            ..b
        }
    } else {
        b
    }
}

/// `b` with `card_id` appended to the card ids of list `list_id`, unless the
/// list is unknown or already holds it.
pub open spec fn attach(b: BoardView, list_id: Seq<char>, card_id: Seq<char>) -> BoardView {
    if b.lists.contains_key(list_id) && !b.lists[list_id].card_ids.contains(card_id) {
        BoardView {
            lists: b.lists.insert(
                list_id,
                ListView { card_ids: b.lists[list_id].card_ids.push(card_id), ..b.lists[list_id] },
            ),
            ..b
        }
    } else {
        b
    }
}

/// The card after an edit at `now`, with `todos` as its checklist.
pub open spec fn with_todos(c: CardView, todos: Seq<TodoView>, now: u64) -> CardView {
    CardView { todos, updated_at: now, ..c }
}

/// Board and requests after a change of card `id` to `n`, saved through the
/// metadata channel.
pub open spec fn saved(b: BoardView, id: Seq<char>, n: CardView, connected: bool) -> (BoardView, Seq<RequestView>) {
    (set_card(b, id, n), when(connected, RequestView::SaveCardMetadata { card: n }))
}

/// Board and requests after a change of the todos of card `id` to those of
/// `n`, saved through the todo channel.
pub open spec fn saved_todos(b: BoardView, id: Seq<char>, n: CardView, connected: bool) -> (BoardView, Seq<RequestView>) {
    (set_card(b, id, n), when(connected, RequestView::SaveCardTodos { card_id: id, todos: n.todos }))
}

/// What handling `a` does to board `b` and which requests it schedules;
/// `connected` says whether a remote client is available, `now` is the time
/// and `tid` the identifier a new todo gets.
pub open spec fn dispatch_spec(
    b: BoardView,
    a: KanbanActions,
    connected: bool,
    now: u64,
    tid: Seq<char>,
) -> (BoardView, Seq<RequestView>) {
    let unchanged = (b, Seq::<RequestView>::empty());
    match a {
        KanbanActions::LoadLists => if connected {
            (BoardView { loading: true, ..b }, seq![RequestView::LoadKanbanLists])
        } else {
            unchanged
        },
        KanbanActions::ListLoaded(l) => (with_list(b, l@), Seq::empty()),
        KanbanActions::CardLoaded(c) => (attach(with_card(b, c@), c@.space_id, c@.id), Seq::empty()),
        KanbanActions::CreateList { name } => if connected {
            (BoardView { loading: true, ..b }, seq![RequestView::CreateKanbanList { name: name@ }])
        } else {
            unchanged
        },
        KanbanActions::UpdateListName { list_id, name } => (
            if b.lists.contains_key(list_id@) {
                BoardView {
                    lists: b.lists.insert(list_id@, ListView { name: name@, ..b.lists[list_id@] }),
                    ..b
                }
            } else {
                b
            },
            when(connected, RequestView::UpdateKanbanListName { list_id: list_id@, name: name@ }),
        ),
        KanbanActions::CreateCard { space_id, title } => if connected {
            (
                BoardView { loading: true, ..b },
                seq![RequestView::CreateKanbanCard { space_id: space_id@, title: title@ }],
            )
        } else {
            unchanged
        },
        KanbanActions::ShowCardDetail { card_id } => (
            BoardView { selected_card_id: Some(card_id@), ..b },
            if connected {
                (if b.cards.contains_key(card_id@) {
                    seq![RequestView::LoadCard { card_id: card_id@, space_id: b.cards[card_id@].space_id }]
                } else {
                    Seq::empty()
                }) + seq![RequestView::LoadCardActivities { card_id: card_id@, limit: ACTIVITY_PAGE }]
            } else {
                Seq::empty()
            },
        ),
        KanbanActions::MoveCard { card_id, target_space_id, position } => if b.cards.contains_key(card_id@) {
            let c = b.cards[card_id@];
            let n = CardView { space_id: target_space_id@, position, ..c };
            (
                attach(detach(set_card(b, card_id@, n), c.space_id, card_id@), target_space_id@, card_id@),
                when(
                    connected,
                    RequestView::MoveKanbanCard {
                        card_id: card_id@,
                        target_space_id: target_space_id@,
                        position,
                    },
                ),
            )
        } else {
            unchanged
        },
        KanbanActions::UpdateCardTitle { card_id, title } => if b.cards.contains_key(card_id@) {
            saved(b, card_id@, CardView { title: title@, ..b.cards[card_id@] }, connected)
        } else {
            unchanged
        },
        KanbanActions::UpdateCardDescription { card_id, description } => if b.cards.contains_key(card_id@) {
            saved(b, card_id@, CardView { description: opt_view(description), ..b.cards[card_id@] }, connected)
        } else {
            unchanged
        },
        KanbanActions::DeleteCard { card_id } => if b.cards.contains_key(card_id@) {
            (
                detach(BoardView { cards: b.cards.remove(card_id@), ..b }, b.cards[card_id@].space_id, card_id@),
                when(connected, RequestView::DeleteKanbanCard { card_id: card_id@ }),
            )
        } else {
            unchanged
        },
        KanbanActions::AddTodo { card_id, text } => if b.cards.contains_key(card_id@) {
            let c = b.cards[card_id@];
            let t = TodoView { id: tid, text: text@, completed: false, created_at: now, completed_at: None };
            saved_todos(b, card_id@, with_todos(c, c.todos.push(t), now), connected)
        } else {
            unchanged
        },
        KanbanActions::ToggleTodo { card_id, todo_id } => if b.cards.contains_key(card_id@) && first_todo(
            b.cards[card_id@].todos,
            todo_id@,
        ) >= 0 {
            let c = b.cards[card_id@];
            let k = first_todo(c.todos, todo_id@);
            let t = c.todos[k];
            let t2 = TodoView {
                completed: !t.completed,
                completed_at: if t.completed {
                    None
                } else {
                    Some(now)
                },
                ..t
            };
            saved_todos(b, card_id@, with_todos(c, c.todos.update(k, t2), now), connected)
        } else {
            unchanged
        },
        KanbanActions::UpdateTodoText { card_id, todo_id, text } => if b.cards.contains_key(card_id@) && first_todo(
            b.cards[card_id@].todos,
            todo_id@,
        ) >= 0 {
            let c = b.cards[card_id@];
            let k = first_todo(c.todos, todo_id@);
            let t2 = TodoView { text: text@, ..c.todos[k] };
            saved_todos(b, card_id@, with_todos(c, c.todos.update(k, t2), now), connected)
        } else {
            unchanged
        },
        KanbanActions::DeleteTodo { card_id, todo_id } => if b.cards.contains_key(card_id@) {
            let c = b.cards[card_id@];
            saved_todos(b, card_id@, with_todos(c, todos_without(c.todos, todo_id@), now), connected)
        } else {
            unchanged
        },
        KanbanActions::AddTag { card_id, tag } => if b.cards.contains_key(card_id@)
            && !b.cards[card_id@].tags.contains(tag@) {
            let c = b.cards[card_id@];
            saved(b, card_id@, CardView { tags: c.tags.push(tag@), updated_at: now, ..c }, connected)
        } else {
            unchanged
        },
        KanbanActions::RemoveTag { card_id, tag } => if b.cards.contains_key(card_id@) {
            let c = b.cards[card_id@];
            saved(b, card_id@, CardView { tags: without(c.tags, tag@), updated_at: now, ..c }, connected)
        } else {
            unchanged
        },
        KanbanActions::SetEndTime { card_id, end_time } => if b.cards.contains_key(card_id@) {
            let c = b.cards[card_id@];
            saved(b, card_id@, CardView { end_time: Some(end_time), updated_at: now, ..c }, connected)
        } else {
            unchanged
        },
        KanbanActions::ClearEndTime { card_id } => if b.cards.contains_key(card_id@) {
            let c = b.cards[card_id@];
            saved(b, card_id@, CardView { end_time: None, updated_at: now, ..c }, connected)
        } else {
            unchanged
        },
        KanbanActions::AddComment { card_id, text } => (
            b,
            when(connected, RequestView::AddCardComment { card_id: card_id@, text: text@ }),
        ),
        KanbanActions::ActivitiesLoaded { card_id, activities } => (
            BoardView { activities: b.activities.insert(card_id@, activities_view(activities@)), ..b },
            Seq::empty(),
        ),
        KanbanActions::Loading(loading) => (BoardView { loading, ..b }, Seq::empty()),
        KanbanActions::Error(message) => (
            BoardView { error: Some(message@), loading: false, ..b },
            Seq::empty(),
        ),
    }
}


/// Adding a todo to a card shows at once one more todo, none of them newly
/// completed; toggling an open todo of a card shows one more completed todo
/// out of as many.
pub proof fn lemma_todo_progress(
    b: BoardView,
    card_id: String,
    text: String,
    todo_id: String,
    connected: bool,
    now: u64,
    tid: Seq<char>,
)
    requires
        b.cards.contains_key(card_id@),
    ensures
        ({
            let c = b.cards[card_id@];
            let after = dispatch_spec(b, KanbanActions::AddTodo { card_id, text }, connected, now, tid).0.cards[card_id@];
            after.todos.len() == c.todos.len() + 1 && completed_count(after.todos) == completed_count(c.todos)
        }),
        ({
            let c = b.cards[card_id@];
            let k = first_todo(c.todos, todo_id@);
            let after = dispatch_spec(b, KanbanActions::ToggleTodo { card_id, todo_id }, connected, now, tid).0.cards[card_id@];
            k >= 0 && !c.todos[k].completed ==> after.todos.len() == c.todos.len() && completed_count(after.todos)
                == completed_count(c.todos) + 1
        }),
{
    let c = b.cards[card_id@];
    let t = TodoView { id: tid, text: text@, completed: false, created_at: now, completed_at: None };
    lemma_completed_count_push(c.todos, t);
    let k = first_todo(c.todos, todo_id@);
    crate::board::lemma_first_todo_range(c.todos, todo_id@);
    if k >= 0 && !c.todos[k].completed {
        let t2 = TodoView { completed: true, completed_at: Some(now), ..c.todos[k] };
        lemma_completed_count_update(c.todos, k, t2);
    }
}

/// `tid` is an identifier that a todo made at `now` can get.
pub open spec fn is_todo_id(tid: Seq<char>, now: u64) -> bool {
    exists|suffix: Seq<char>| suffix.len() == 8 && tid == todo_id(now, suffix)
}

fn request_if(connected: bool, q: MatrixRequest) -> (r: Vec<MatrixRequest>)
    ensures
        requests_view(r@) == when(connected, q@),
{
    if connected {
        let r = vec![q];
        assert(requests_view(r@) =~= seq![q@]);
        r
    } else {
        let r: Vec<MatrixRequest> = Vec::new();
        assert(requests_view(r@) =~= Seq::<RequestView>::empty());
        r
    }
}

/// Stores the edited card `n` and asks for its metadata to be saved.
fn save_card(state: &mut KanbanAppState, n: KanbanCard, connected: bool) -> (r: Vec<MatrixRequest>)
    requires
        old(state).wf(),
    ensures
        final(state).wf(),
        (final(state)@, requests_view(r@)) == saved(old(state)@, n@.id, n@, connected),
{
    let copy = n.duplicate();
    state.upsert_card(n);
    request_if(connected, MatrixRequest::SaveCardMetadata { card: copy })
}

/// Stores the edited card `n` and asks for its todos to be saved.
fn save_todos(state: &mut KanbanAppState, n: KanbanCard, connected: bool) -> (r: Vec<MatrixRequest>)
    requires
        old(state).wf(),
    ensures
        final(state).wf(),
        (final(state)@, requests_view(r@)) == saved_todos(old(state)@, n@.id, n@, connected),
{
    let id = n.id.clone();
    let todos = copy_todos(&n.todos);
    state.upsert_card(n);
    request_if(connected, MatrixRequest::SaveCardTodos { card_id: id, todos })
}

/// Takes `card_id` out of list `list_id`.
fn detach_card(state: &mut KanbanAppState, list_id: &String, card_id: &String)
    requires
        old(state).wf(),
    ensures
        final(state).wf(),
        final(state)@ == detach(old(state)@, list_id@, card_id@),
{
    match state.find_list(list_id) {
        Some(i) => {
            let mut l = state.lists[i].duplicate();
            l.card_ids = strings_without(&l.card_ids, card_id);
            assert(l@ == (ListView { card_ids: without(old(state)@.lists[list_id@].card_ids, card_id@), ..old(state)@.lists[list_id@] }));
            state.upsert_list(l);
        },
        None => {},
    }
}

/// Appends `card_id` to list `list_id` unless it is there already.
fn attach_card(state: &mut KanbanAppState, list_id: &String, card_id: &String)
    requires
        old(state).wf(),
    ensures
        final(state).wf(),
        final(state)@ == attach(old(state)@, list_id@, card_id@),
{
    match state.find_list(list_id) {
        Some(i) => {
            if !contains_str(&state.lists[i].card_ids, card_id) {
                let mut l = state.lists[i].duplicate();
                let ghost before = l.card_ids@;
                l.card_ids.push(card_id.clone());
                assert(strs_view(l.card_ids@) =~= strs_view(before).push(card_id@));
                state.upsert_list(l);
            }
        },
        None => {},
    }
}

/// Applies `action` to `state` and returns the remote requests to run.
/// `connected` says whether a remote client is available and `now` is the
/// current time in seconds; a new todo gets a fresh random identifier.
#[verifier::rlimit(50)]
pub fn handle_kanban_action(state: &mut KanbanAppState, action: KanbanActions, connected: bool, now: u64) -> (r: Vec<MatrixRequest>)
    requires
        old(state).wf(),
    ensures
        final(state).wf(),
        exists|tid: Seq<char>| is_todo_id(tid, now)
            && (final(state)@, requests_view(r@)) == #[trigger] dispatch_spec(old(state)@, action, connected, now, tid),
{
    let ghost b = state@;
    let ghost a = action;
    let ghost mut tid = todo_id(now, seq!['0', '0', '0', '0', '0', '0', '0', '0']);
    let r = match action {
        KanbanActions::LoadLists => {
            if connected {
                state.set_loading(true);
            }
            request_if(connected, MatrixRequest::LoadKanbanLists)
        },
        KanbanActions::ListLoaded(list) => {
            state.upsert_list(list);
            Vec::new()
        },
        KanbanActions::CardLoaded(card) => {
            let space_id = card.space_id.clone();
            let card_id = card.id.clone();
            state.upsert_card(card);
            attach_card(state, &space_id, &card_id);
            Vec::new()
        },
        KanbanActions::CreateList { name } => {
            if connected {
                state.set_loading(true);
            }
            request_if(connected, MatrixRequest::CreateKanbanList { name })
        },
        KanbanActions::UpdateListName { list_id, name } => {
            let copy = name.clone();
            state.update_list_name(&list_id, name);
            request_if(connected, MatrixRequest::UpdateKanbanListName { list_id, name: copy })
        },
        KanbanActions::CreateCard { space_id, title } => {
            if connected {
                state.set_loading(true);
            }
            request_if(connected, MatrixRequest::CreateKanbanCard { space_id, title })
        },
        KanbanActions::ShowCardDetail { card_id } => {
            let mut r: Vec<MatrixRequest> = Vec::new();
            if connected {
                match state.find_card(&card_id) {
                    Some(i) => {
                        r.push(MatrixRequest::LoadCard { card_id: card_id.clone(), space_id: state.cards[i].space_id.clone() });
                    },
                    None => {},
                }
                r.push(MatrixRequest::LoadCardActivities { card_id: card_id.clone(), limit: ACTIVITY_PAGE });
            }
            proof {
                let expected = if connected {
                    (if b.cards.contains_key(card_id@) {
                        seq![RequestView::LoadCard { card_id: card_id@, space_id: b.cards[card_id@].space_id }]
                    } else {
                        Seq::empty()
                    }) + seq![RequestView::LoadCardActivities { card_id: card_id@, limit: ACTIVITY_PAGE }]
                } else {
                    Seq::empty()
                };
                assert(requests_view(r@) =~= expected);
            }
            state.selected_card_id = Some(card_id);
            r
        },
        KanbanActions::MoveCard { card_id, target_space_id, position } => {
            match state.find_card(&card_id) {
                Some(i) => {
                    let mut c = state.cards[i].duplicate();
                    let old_space = c.space_id.clone();
                    c.space_id = target_space_id.clone();
                    c.position = position;
                    state.upsert_card(c);
                    detach_card(state, &old_space, &card_id);
                    attach_card(state, &target_space_id, &card_id);
                    request_if(connected, MatrixRequest::MoveKanbanCard { card_id, target_space_id, position })
                },
                None => Vec::new(),
            }
        },
        KanbanActions::UpdateCardTitle { card_id, title } => {
            match state.find_card(&card_id) {
                Some(i) => {
                    let mut c = state.cards[i].duplicate();
                    c.title = title;
                    save_card(state, c, connected)
                },
                None => Vec::new(),
            }
        },
        KanbanActions::UpdateCardDescription { card_id, description } => {
            match state.find_card(&card_id) {
                Some(i) => {
                    let mut c = state.cards[i].duplicate();
                    c.description = description;
                    save_card(state, c, connected)
                },
                None => Vec::new(),
            }
        },
        KanbanActions::DeleteCard { card_id } => {
            match state.remove_card(&card_id) {
                Some(c) => {
                    detach_card(state, &c.space_id, &card_id);
                    request_if(connected, MatrixRequest::DeleteKanbanCard { card_id })
                },
                None => {
                    assert(b.cards.remove(card_id@) =~= b.cards);
                    Vec::new()
                },
            }
        },
        KanbanActions::AddTodo { card_id, text } => {
            match state.find_card(&card_id) {
                Some(i) => {
                    let mut c = state.cards[i].duplicate();
                    let t = TodoItem::new(text, now);
                    proof {
                        tid = t@.id;
                    }
                    let ghost before = c.todos@;
                    c.todos.push(t);
                    c.updated_at = now;
                    assert(todos_view(c.todos@) =~= todos_view(before).push(t@));
                    save_todos(state, c, connected)
                },
                None => Vec::new(),
            }
        },
        KanbanActions::ToggleTodo { card_id, todo_id } => {
            match state.find_card(&card_id) {
                Some(i) => {
                    match find_todo(&state.cards[i].todos, &todo_id) {
                        Some(k) => {
                            let mut c = state.cards[i].duplicate();
                            let mut t = c.todos[k].duplicate();
                            t.toggle(now);
                            let ghost before = c.todos@;
                            c.todos.set(k, t);
                            c.updated_at = now;
                            assert(todos_view(c.todos@) =~= todos_view(before).update(k as int, t@));
                            save_todos(state, c, connected)
                        },
                        None => Vec::new(),
                    }
                },
                None => Vec::new(),
            }
        },
        KanbanActions::UpdateTodoText { card_id, todo_id, text } => {
            match state.find_card(&card_id) {
                Some(i) => {
                    match find_todo(&state.cards[i].todos, &todo_id) {
                        Some(k) => {
                            let mut c = state.cards[i].duplicate();
                            let mut t = c.todos[k].duplicate();
                            t.text = text;
                            let ghost before = c.todos@;
                            c.todos.set(k, t);
                            c.updated_at = now;
                            assert(todos_view(c.todos@) =~= todos_view(before).update(k as int, t@));
                            save_todos(state, c, connected)
                        },
                        None => Vec::new(),
                    }
                },
                None => Vec::new(),
            }
        },
        KanbanActions::DeleteTodo { card_id, todo_id } => {
            match state.find_card(&card_id) {
                Some(i) => {
                    let mut c = state.cards[i].duplicate();
                    c.todos = todos_without_id(&c.todos, &todo_id);
                    c.updated_at = now;
                    save_todos(state, c, connected)
                },
                None => Vec::new(),
            }
        },
        KanbanActions::AddTag { card_id, tag } => {
            match state.find_card(&card_id) {
                Some(i) => {
                    if contains_str(&state.cards[i].tags, &tag) {
                        Vec::new()
                    } else {
                        let mut c = state.cards[i].duplicate();
                        let ghost before = c.tags@;
                        c.tags.push(tag);
                        c.updated_at = now;
                        assert(strs_view(c.tags@) =~= strs_view(before).push(c.tags@.last()@));
                        save_card(state, c, connected)
                    }
                },
                None => Vec::new(),
            }
        },
        KanbanActions::RemoveTag { card_id, tag } => {
            match state.find_card(&card_id) {
                Some(i) => {
                    let mut c = state.cards[i].duplicate();
                    c.tags = strings_without(&c.tags, &tag);
                    c.updated_at = now;
                    save_card(state, c, connected)
                },
                None => Vec::new(),
            }
        },
        KanbanActions::SetEndTime { card_id, end_time } => {
            match state.find_card(&card_id) {
                Some(i) => {
                    let mut c = state.cards[i].duplicate();
                    c.end_time = Some(end_time);
                    c.updated_at = now;
                    save_card(state, c, connected)
                },
                None => Vec::new(),
            }
        },
        KanbanActions::ClearEndTime { card_id } => {
            match state.find_card(&card_id) {
                Some(i) => {
                    let mut c = state.cards[i].duplicate();
                    c.end_time = None;
                    c.updated_at = now;
                    save_card(state, c, connected)
                },
                None => Vec::new(),
            }
        },
        KanbanActions::AddComment { card_id, text } => {
            request_if(connected, MatrixRequest::AddCardComment { card_id, text })
        },
        KanbanActions::ActivitiesLoaded { card_id, activities } => {
            state.set_activities(CardActivities { card_id, activities });
            Vec::new()
        },
        KanbanActions::Loading(loading) => {
            state.set_loading(loading);
            Vec::new()
        },
        KanbanActions::Error(message) => {
            state.set_error(Some(message));
            state.set_loading(false);
            Vec::new()
        },
    };
    proof {
        if !(a is AddTodo) {
            assert(todo_id(now, seq!['0', '0', '0', '0', '0', '0', '0', '0']) == tid);
        }
        assert(is_todo_id(tid, now));
        assert(requests_view(r@) == dispatch_spec(b, a, connected, now, tid).1);
        assert(state@ == dispatch_spec(b, a, connected, now, tid).0);
    }
    r
}

} // verus!
