use kanban_sync::board::KanbanCard;
use kanban_sync::cache::{add_card_to_space_cache, clear_cache, get_cards_from_cache, remove_card_from_cache, CacheData};
use kanban_sync::codec::{card_from_metadata, encode_card_metadata, list_name_from_topic, list_topic};
use kanban_sync::models::{CardChecklist, CardViewMode, ChecklistItem, LabelColor, ViewSettings};
use kanban_sync::resolver::{card_ids_from_record, merge_backup_list, resolve_children, RelationSource};
use kanban_sync::board::TodoItem;
use kanban_sync::flow::{advance_create_card, next_create_card_step, CreateCardStage, CreateCardStep};

fn s(x: &str) -> String {
    x.to_string()
}

fn strs(v: &[&str]) -> Vec<String> {
    v.iter().map(|x| x.to_string()).collect()
}

#[test]
fn cache_add_get_remove_clear() {
    let mut c = CacheData::new();
    add_card_to_space_cache(&mut c, &s("!l:x.org"), &s("!a:x.org"));
    add_card_to_space_cache(&mut c, &s("!l:x.org"), &s("!b:x.org"));
    add_card_to_space_cache(&mut c, &s("!l:x.org"), &s("!a:x.org"));
    assert_eq!(get_cards_from_cache(&c, &s("!l:x.org")), strs(&["!a:x.org", "!b:x.org"]));
    assert!(get_cards_from_cache(&c, &s("!other:x.org")).is_empty());
    remove_card_from_cache(&mut c, &s("!l:x.org"), &s("!a:x.org"));
    assert_eq!(get_cards_from_cache(&c, &s("!l:x.org")), strs(&["!b:x.org"]));
    clear_cache(&mut c);
    assert!(c.space_cards.is_empty());
}

#[test]
fn cache_skips_invalid_room_ids() {
    let mut c = CacheData::new();
    add_card_to_space_cache(&mut c, &s("!l:x.org"), &s("not-a-room"));
    add_card_to_space_cache(&mut c, &s("!l:x.org"), &s("!ok:x.org"));
    assert_eq!(get_cards_from_cache(&c, &s("!l:x.org")), strs(&["!ok:x.org"]));
}

#[test]
fn resolver_primary_tier_wins() {
    let rooms = strs(&["!a:x", "!b:x", "!c:x"]);
    let (r, src) = resolve_children(&rooms, &vec![false, true, false], &strs(&["!c:x"]), &strs(&["!a:x"]));
    assert_eq!(r, strs(&["!b:x"]));
    assert_eq!(src, RelationSource::Primary);
}

#[test]
fn resolver_backup_record_second() {
    let rooms = strs(&["!a:x", "!b:x", "!c:x"]);
    let (r, src) = resolve_children(&rooms, &vec![false, false, false], &strs(&["!c:x", "!gone:x"]), &strs(&["!a:x"]));
    assert_eq!(r, strs(&["!c:x"]));
    assert_eq!(src, RelationSource::BackupRecord);
}

#[test]
fn resolver_local_cache_last() {
    let rooms = strs(&["!a:x", "!b:x"]);
    let (r, src) = resolve_children(&rooms, &vec![false, false], &strs(&["!gone:x"]), &strs(&["!a:x"]));
    assert_eq!(r, strs(&["!a:x"]));
    assert_eq!(src, RelationSource::LocalCache);
    let (r, src) = resolve_children(&rooms, &vec![false, false], &Vec::new(), &Vec::new());
    assert!(r.is_empty());
    assert_eq!(src, RelationSource::Unknown);
}

#[test]
fn backup_list_merge() {
    assert_eq!(merge_backup_list(None, &s("!a:x")), Some(strs(&["!a:x"])));
    assert_eq!(merge_backup_list(Some(strs(&["!b:x"])), &s("!a:x")), Some(strs(&["!b:x", "!a:x"])));
    assert_eq!(merge_backup_list(Some(strs(&["!a:x"])), &s("!a:x")), None);
}

#[test]
fn backup_record_ids_filtered() {
    let items = vec![Some(s("!a:x.org")), None, Some(s("plain")), Some(s("!b:x.org"))];
    assert_eq!(card_ids_from_record(&items), strs(&["!a:x.org", "!b:x.org"]));
}

#[test]
fn metadata_round_trip() {
    let mut card = KanbanCard::new(s("!c:x"), s("Fix bug"), s("!l:x"), 100);
    card.description = Some(s("details"));
    card.position = 2500;
    card.tags = strs(&["bug", "ui"]);
    card.end_time = Some(999);
    card.updated_at = 200;
    card.todos = vec![TodoItem::new(s("t"), 100)];
    let meta = encode_card_metadata(&card);
    let back = card_from_metadata(s("!c:x"), s("!l:x"), Some(meta), card.todos.clone(), s("ignored"), 5);
    assert_eq!(format!("{:?}", back), format!("{:?}", card));
}

#[test]
fn metadata_missing_falls_back_to_display_name() {
    let c = card_from_metadata(s("!c:x"), s("!l:x"), None, Vec::new(), s("Room name"), 42);
    assert_eq!(c.title, "Room name");
    assert_eq!(c.position, 1000);
    assert_eq!(c.created_at, 42);
    assert!(c.tags.is_empty());
}

#[test]
fn metadata_defaults_for_absent_fields() {
    let meta = kanban_sync::codec::CardMetadataRaw {
        title: s("T"),
        description: None,
        position: None,
        end_time: None,
        tags: None,
        created_at: None,
        updated_at: Some(7),
    };
    let c = card_from_metadata(s("!c:x"), s("!l:x"), Some(meta), Vec::new(), s("N"), 42);
    assert_eq!(c.title, "T");
    assert_eq!(c.position, 1000);
    assert_eq!(c.created_at, 42);
    assert_eq!(c.updated_at, 7);
}

#[test]
fn topic_marker_round_trip() {
    let t = list_topic("Todo");
    assert_eq!(t, "[kanban-list] Todo");
    assert_eq!(list_name_from_topic(&t), Some(s("Todo")));
}

#[test]
fn topic_round_trip_trims_name() {
    assert_eq!(list_topic("  Todo \t"), "[kanban-list]   Todo \t");
    assert_eq!(list_name_from_topic(&list_topic("  Todo \t")), Some(s("Todo")));
    assert_eq!(list_name_from_topic(&list_topic("[kanban-list]x")), Some(s("[kanban-list]x")));
    assert_eq!(list_name_from_topic(&list_topic("a\u{3000}")), Some(s("a")));
}

#[test]
fn cache_room_id_rules() {
    let mut c = CacheData::new();
    add_card_to_space_cache(&mut c, &s("!l:x.org"), &s("!"));
    add_card_to_space_cache(&mut c, &s("!l:x.org"), &s("!a\u{0}b"));
    add_card_to_space_cache(&mut c, &s("!l:x.org"), &s(""));
    assert_eq!(get_cards_from_cache(&c, &s("!l:x.org")), strs(&["!"]));
}

#[test]
fn topic_parsing_cases() {
    assert_eq!(list_name_from_topic("just a room"), None);
    assert_eq!(list_name_from_topic(""), None);
    assert_eq!(list_name_from_topic("[kanban-list]"), Some(s("")));
    assert_eq!(list_name_from_topic("[kanban-list][kanban-list]  Done \t"), Some(s("Done")));
    assert_eq!(list_name_from_topic("  Notes [kanban-list]"), Some(s("Notes [kanban-list]")));
}

#[test]
fn checklist_progress() {
    let item = |c: bool| ChecklistItem { id: s("i"), name: s("n"), is_checked: c };
    let cl = CardChecklist { id: s("c"), name: s("n"), items: vec![item(true), item(false), item(true)] };
    assert!(!cl.is_completed());
    assert_eq!(cl.completed_count(), 2);
    let empty = CardChecklist { id: s("c"), name: s("n"), items: Vec::new() };
    assert!(empty.is_completed());
    assert_eq!(empty.completed_count(), 0);
}

#[test]
fn view_settings_default() {
    let v = ViewSettings::default();
    assert_eq!(v.card_view_mode, CardViewMode::Detailed);
    assert!(v.show_completed);
    assert_eq!(v.page_size, 50);
}

#[test]
fn label_colors_hex() {
    assert_eq!(LabelColor::Green.to_hex(), "#61BD4F");
    assert_eq!(LabelColor::Blue.to_hex(), "#0079BF");
    assert_eq!(LabelColor::Black.to_hex(), "#343434");
}

#[test]
fn create_card_flow_commits_after_room() {
    let mut stage = CreateCardStage::Requested;
    let mut steps = Vec::new();
    let mut first = true;
    while let Some(step) = next_create_card_step(stage) {
        steps.push(step);
        // the room is created, every later step fails
        stage = advance_create_card(stage, first);
        first = false;
    }
    assert_eq!(stage, CreateCardStage::Visible);
    assert_eq!(steps.len(), 6);
    assert_eq!(steps[0], CreateCardStep::CreateRoom);
    assert_eq!(steps[5], CreateCardStep::WriteLocalCache);
    assert_eq!(advance_create_card(CreateCardStage::Requested, false), CreateCardStage::Failed);
    assert_eq!(next_create_card_step(CreateCardStage::Failed), None);
}
