use kanban_sync::actions::{KanbanActions, MatrixRequest};
use kanban_sync::board::{KanbanCard, KanbanList, TodoItem};
use kanban_sync::dispatcher::handle_kanban_action;
use kanban_sync::state::{ActivityType, CardActivity, KanbanAppState};

const NOW: u64 = 1_700_000_000;

fn list(id: &str, name: &str) -> KanbanList {
    KanbanList { id: id.to_string(), name: name.to_string(), card_ids: Vec::new(), position: 1000 }
}

fn card(id: &str, title: &str, space: &str) -> KanbanCard {
    KanbanCard::new(id.to_string(), title.to_string(), space.to_string(), NOW)
}

fn board_with_card() -> KanbanAppState {
    let mut s = KanbanAppState::new();
    handle_kanban_action(&mut s, KanbanActions::ListLoaded(list("!l:x.org", "Todo")), true, NOW);
    handle_kanban_action(&mut s, KanbanActions::CardLoaded(card("!c:x.org", "Fix bug", "!l:x.org")), true, NOW);
    s
}

#[test]
fn upsert_card_twice_is_idempotent() {
    let mut s = KanbanAppState::new();
    s.upsert_card(card("!c:x.org", "A", "!l:x.org"));
    let once = format!("{:?}", s);
    s.upsert_card(card("!c:x.org", "A", "!l:x.org"));
    assert_eq!(format!("{:?}", s), once);
    assert_eq!(s.cards.len(), 1);
}

#[test]
fn upsert_replaces_by_id() {
    let mut s = KanbanAppState::new();
    s.upsert_list(list("!l:x.org", "Old"));
    s.upsert_list(list("!l:x.org", "New"));
    assert_eq!(s.lists.len(), 1);
    assert_eq!(s.lists[0].name, "New");
}

#[test]
fn create_list_then_card_end_to_end() {
    let mut s = KanbanAppState::new();
    let r = handle_kanban_action(&mut s, KanbanActions::CreateList { name: "Todo".to_string() }, true, NOW);
    assert!(s.loading);
    assert_eq!(r.len(), 1);
    assert!(matches!(&r[0], MatrixRequest::CreateKanbanList { name } if name == "Todo"));
    handle_kanban_action(&mut s, KanbanActions::ListLoaded(list("!l:x.org", "Todo")), true, NOW);
    assert_eq!(s.lists.len(), 1);
    assert_eq!(s.lists[0].name, "Todo");
    assert!(s.lists[0].card_ids.is_empty());
    let r = handle_kanban_action(
        &mut s,
        KanbanActions::CreateCard { space_id: "!l:x.org".to_string(), title: "Fix bug".to_string() },
        true,
        NOW,
    );
    assert!(matches!(&r[0], MatrixRequest::CreateKanbanCard { title, .. } if title == "Fix bug"));
    handle_kanban_action(&mut s, KanbanActions::CardLoaded(card("!c:x.org", "Fix bug", "!l:x.org")), true, NOW);
    assert_eq!(s.lists[0].card_ids, vec!["!c:x.org".to_string()]);
    let cards = s.list_cards(&"!l:x.org".to_string());
    assert_eq!(cards.len(), 1);
    assert_eq!(cards[0].title, "Fix bug");
}

#[test]
fn card_loaded_twice_lists_card_once() {
    let mut s = board_with_card();
    handle_kanban_action(&mut s, KanbanActions::CardLoaded(card("!c:x.org", "Fix bug", "!l:x.org")), true, NOW);
    assert_eq!(s.lists[0].card_ids.len(), 1);
}

#[test]
fn offline_intent_sends_nothing() {
    let mut s = KanbanAppState::new();
    let r = handle_kanban_action(&mut s, KanbanActions::CreateList { name: "Todo".to_string() }, false, NOW);
    assert!(r.is_empty());
    assert!(!s.loading);
}

#[test]
fn add_todo_then_toggle() {
    let mut s = board_with_card();
    let r = handle_kanban_action(
        &mut s,
        KanbanActions::AddTodo { card_id: "!c:x.org".to_string(), text: "write tests".to_string() },
        true,
        NOW + 5,
    );
    let c = &s.cards[0];
    assert_eq!(c.todos.len(), 1);
    assert_eq!(c.todo_progress(), (0, 1));
    assert_eq!(c.updated_at, NOW + 5);
    assert!(matches!(&r[0], MatrixRequest::SaveCardTodos { todos, .. } if todos.len() == 1));
    let todo_id = c.todos[0].id.clone();
    assert!(todo_id.starts_with("todo_1700000005_"));
    assert_eq!(todo_id.len(), "todo_1700000005_".len() + 8);
    handle_kanban_action(
        &mut s,
        KanbanActions::ToggleTodo { card_id: "!c:x.org".to_string(), todo_id: todo_id.clone() },
        true,
        NOW + 9,
    );
    assert_eq!(s.cards[0].todo_progress(), (1, 1));
    assert_eq!(s.cards[0].todos[0].completed_at, Some(NOW + 9));
}

#[test]
fn todo_ids_differ() {
    let a = TodoItem::new("a".to_string(), NOW);
    let b = TodoItem::new("b".to_string(), NOW);
    assert_ne!(a.id, b.id);
    assert!(!a.completed);
}

#[test]
fn update_and_delete_todo() {
    let mut s = board_with_card();
    handle_kanban_action(&mut s, KanbanActions::AddTodo { card_id: "!c:x.org".to_string(), text: "a".to_string() }, true, NOW);
    let id = s.cards[0].todos[0].id.clone();
    handle_kanban_action(
        &mut s,
        KanbanActions::UpdateTodoText { card_id: "!c:x.org".to_string(), todo_id: id.clone(), text: "b".to_string() },
        true,
        NOW,
    );
    assert_eq!(s.cards[0].todos[0].text, "b");
    handle_kanban_action(&mut s, KanbanActions::DeleteTodo { card_id: "!c:x.org".to_string(), todo_id: id }, true, NOW);
    assert!(s.cards[0].todos.is_empty());
}

#[test]
fn tags_added_once_and_removed() {
    let mut s = board_with_card();
    let add = || KanbanActions::AddTag { card_id: "!c:x.org".to_string(), tag: "bug".to_string() };
    let r = handle_kanban_action(&mut s, add(), true, NOW);
    assert!(matches!(&r[0], MatrixRequest::SaveCardMetadata { card } if card.tags == vec!["bug".to_string()]));
    let r = handle_kanban_action(&mut s, add(), true, NOW);
    assert!(r.is_empty());
    assert_eq!(s.cards[0].tags.len(), 1);
    handle_kanban_action(&mut s, KanbanActions::RemoveTag { card_id: "!c:x.org".to_string(), tag: "bug".to_string() }, true, NOW);
    assert!(s.cards[0].tags.is_empty());
}

#[test]
fn end_time_set_and_cleared() {
    let mut s = board_with_card();
    handle_kanban_action(&mut s, KanbanActions::SetEndTime { card_id: "!c:x.org".to_string(), end_time: NOW + 100 }, true, NOW);
    assert_eq!(s.cards[0].end_time, Some(NOW + 100));
    assert!(!s.cards[0].is_overdue(NOW));
    assert!(s.cards[0].is_overdue(NOW + 101));
    handle_kanban_action(&mut s, KanbanActions::ClearEndTime { card_id: "!c:x.org".to_string() }, true, NOW);
    assert_eq!(s.cards[0].end_time, None);
    assert!(!s.cards[0].is_overdue(NOW + 101));
}

#[test]
fn move_card_between_lists() {
    let mut s = board_with_card();
    handle_kanban_action(&mut s, KanbanActions::ListLoaded(list("!m:x.org", "Done")), true, NOW);
    let r = handle_kanban_action(
        &mut s,
        KanbanActions::MoveCard { card_id: "!c:x.org".to_string(), target_space_id: "!m:x.org".to_string(), position: 1500 },
        true,
        NOW,
    );
    assert_eq!(r.len(), 1);
    assert!(s.list_cards(&"!l:x.org".to_string()).is_empty());
    let moved = s.list_cards(&"!m:x.org".to_string());
    assert_eq!(moved.len(), 1);
    assert_eq!(moved[0].position, 1500);
    assert_eq!(moved[0].space_id, "!m:x.org");
}

#[test]
fn delete_card_removes_it_from_list() {
    let mut s = board_with_card();
    let r = handle_kanban_action(&mut s, KanbanActions::DeleteCard { card_id: "!c:x.org".to_string() }, true, NOW);
    assert!(matches!(&r[0], MatrixRequest::DeleteKanbanCard { card_id } if card_id == "!c:x.org"));
    assert!(s.cards.is_empty());
    assert!(s.lists[0].card_ids.is_empty());
    let r = handle_kanban_action(&mut s, KanbanActions::DeleteCard { card_id: "!c:x.org".to_string() }, true, NOW);
    assert!(r.is_empty());
}

#[test]
fn title_and_description_edits() {
    let mut s = board_with_card();
    handle_kanban_action(&mut s, KanbanActions::UpdateCardTitle { card_id: "!c:x.org".to_string(), title: "T".to_string() }, true, NOW);
    handle_kanban_action(
        &mut s,
        KanbanActions::UpdateCardDescription { card_id: "!c:x.org".to_string(), description: Some("d".to_string()) },
        true,
        NOW,
    );
    assert_eq!(s.cards[0].title, "T");
    assert_eq!(s.cards[0].description, Some("d".to_string()));
    let r = handle_kanban_action(&mut s, KanbanActions::UpdateCardTitle { card_id: "!zz:x.org".to_string(), title: "T".to_string() }, true, NOW);
    assert!(r.is_empty());
}

#[test]
fn rename_list_keeps_cards() {
    let mut s = board_with_card();
    let r = handle_kanban_action(
        &mut s,
        KanbanActions::UpdateListName { list_id: "!l:x.org".to_string(), name: "Doing".to_string() },
        true,
        NOW,
    );
    assert_eq!(r.len(), 1);
    assert_eq!(s.lists[0].name, "Doing");
    assert_eq!(s.lists[0].card_ids.len(), 1);
}

#[test]
fn show_card_detail_selects_and_loads() {
    let mut s = board_with_card();
    let r = handle_kanban_action(&mut s, KanbanActions::ShowCardDetail { card_id: "!c:x.org".to_string() }, true, NOW);
    assert_eq!(s.selected_card_id, Some("!c:x.org".to_string()));
    assert_eq!(r.len(), 2);
    assert!(matches!(&r[0], MatrixRequest::LoadCard { space_id, .. } if space_id == "!l:x.org"));
    assert!(matches!(&r[1], MatrixRequest::LoadCardActivities { limit: 50, .. }));
}

#[test]
fn events_set_flags_and_activities() {
    let mut s = KanbanAppState::new();
    handle_kanban_action(&mut s, KanbanActions::Loading(true), true, NOW);
    assert!(s.loading);
    handle_kanban_action(&mut s, KanbanActions::Error("boom".to_string()), true, NOW);
    assert!(!s.loading);
    assert_eq!(s.error, Some("boom".to_string()));
    let a = CardActivity {
        id: "$e".to_string(),
        activity_type: ActivityType::Comment,
        text: "hi".to_string(),
        metadata: None,
        created_at: NOW,
        user_id: "@u:x.org".to_string(),
    };
    handle_kanban_action(
        &mut s,
        KanbanActions::ActivitiesLoaded { card_id: "!c:x.org".to_string(), activities: vec![a] },
        true,
        NOW,
    );
    assert_eq!(s.activities.len(), 1);
    assert_eq!(s.activities[0].activities.len(), 1);
    let r = handle_kanban_action(&mut s, KanbanActions::AddComment { card_id: "!c:x.org".to_string(), text: "x".to_string() }, true, NOW);
    assert!(matches!(&r[0], MatrixRequest::AddCardComment { text, .. } if text == "x"));
}

#[test]
fn all_lists_by_position() {
    let mut s = KanbanAppState::new();
    let mut a = list("!a:x.org", "A");
    a.position = 3000;
    let mut b = list("!b:x.org", "B");
    b.position = 1000;
    let mut c = list("!c:x.org", "C");
    c.position = 2000;
    s.upsert_list(a);
    s.upsert_list(b);
    s.upsert_list(c);
    let names: Vec<String> = s.all_lists().iter().map(|l| l.name.clone()).collect();
    assert_eq!(names, vec!["B".to_string(), "C".to_string(), "A".to_string()]);
}
