use automatic_spoon::engine::{App, Msg, needs_confirmation};
use automatic_spoon::item::{Field, Item};
use automatic_spoon::state::State;

fn fresh_app() -> App {
    App::create(State::new())
}

fn make_list(app: &mut App, name: &str) {
    app.update(Msg::UpdateListName(name.to_string()), false);
    app.update(Msg::CreateList, false);
}

fn add_named_item(app: &mut App, name: &str) {
    app.update(Msg::CreateItem, false);
    app.update(Msg::EditItemName(name.to_string()), false);
}

fn items_of<'a>(app: &'a App, name: &str) -> &'a Vec<Item> {
    app.state.lists.get(&name.to_string()).expect("list should exist")
}

#[test]
fn create_list_drains_the_buffer_and_moves_focus() {
    let mut app = fresh_app();
    make_list(&mut app, "movies");
    assert!(app.state.lists.contains_key(&"movies".to_string()));
    assert_eq!(app.view.current_list, "movies".to_string());
    assert_eq!(app.view.new_list_name, String::new());
}

#[test]
fn create_list_twice_keeps_one_list() {
    let mut app = fresh_app();
    make_list(&mut app, "movies");
    add_named_item(&mut app, "Dune");
    make_list(&mut app, "movies");
    assert_eq!(app.state.lists.len(), 1);
    // idempotent creation re-selects without wiping the items
    assert_eq!(items_of(&app, "movies").len(), 1);
    assert_eq!(app.view.current_list, "movies".to_string());
}

#[test]
fn create_item_moves_item_focus() {
    let mut app = fresh_app();
    make_list(&mut app, "movies");
    app.update(Msg::CreateItem, false);
    assert_eq!(app.view.current_item, Some(0));
    app.update(Msg::CreateItem, false);
    assert_eq!(app.view.current_item, Some(1));
}

#[test]
fn create_item_without_a_list_clears_focus() {
    let mut app = fresh_app();
    app.update(Msg::FocusItem(3), false);
    app.update(Msg::CreateItem, false);
    assert_eq!(app.view.current_item, None);
}

#[test]
fn edits_touch_the_focused_item_only() {
    let mut app = fresh_app();
    make_list(&mut app, "movies");
    add_named_item(&mut app, "Dune");
    add_named_item(&mut app, "Arrival");
    app.update(Msg::FocusItem(0), false);
    app.update(Msg::EditItemComment("classic".to_string()), false);
    let items = items_of(&app, "movies");
    assert_eq!(items[0].comment, Some("classic".to_string()));
    assert_eq!(items[1].comment, None);
}

#[test]
fn scenario_remove_first_item_leaves_second_at_index_zero() {
    let mut app = fresh_app();
    make_list(&mut app, "movies");
    add_named_item(&mut app, "Dune");
    add_named_item(&mut app, "Arrival");
    app.update(Msg::RemoveListItem(0), false);
    let items = items_of(&app, "movies");
    assert_eq!(items.len(), 1);
    assert_eq!(items[0].name, Some("Arrival".to_string()));
}

#[test]
fn removing_the_focused_item_clears_the_focus() {
    let mut app = fresh_app();
    make_list(&mut app, "movies");
    add_named_item(&mut app, "a");
    add_named_item(&mut app, "b");
    add_named_item(&mut app, "c");
    app.update(Msg::FocusItem(1), false);
    app.update(Msg::RemoveListItem(1), false);
    assert_eq!(app.view.current_item, None);
}

#[test]
fn focus_past_the_shortened_list_is_cleared_too() {
    let mut app = fresh_app();
    make_list(&mut app, "movies");
    add_named_item(&mut app, "a");
    add_named_item(&mut app, "b");
    add_named_item(&mut app, "c");
    app.update(Msg::FocusItem(2), false);
    app.update(Msg::RemoveListItem(0), false);
    assert_eq!(app.view.current_item, None);
}

#[test]
fn focus_inside_the_shortened_list_survives() {
    let mut app = fresh_app();
    make_list(&mut app, "movies");
    add_named_item(&mut app, "a");
    add_named_item(&mut app, "b");
    add_named_item(&mut app, "c");
    app.update(Msg::FocusItem(1), false);
    app.update(Msg::RemoveListItem(0), false);
    assert_eq!(app.view.current_item, Some(1));
}

#[test]
fn declined_confirmation_is_a_noop() {
    let mut app = fresh_app();
    make_list(&mut app, "movies");
    app.update(Msg::RemoveList("movies".to_string()), false);
    assert!(app.state.lists.contains_key(&"movies".to_string()));
    app.update(Msg::Purge, false);
    assert_eq!(app.state.lists.len(), 1);
}

#[test]
fn confirmed_remove_list_scrubs_groups() {
    let mut app = fresh_app();
    make_list(&mut app, "movies");
    app.update(Msg::UpdateGroupName("weekend".to_string()), false);
    app.update(Msg::CreateGroup, false);
    app.update(Msg::AddToGroup("movies".to_string()), false);
    app.update(Msg::AddToGroup("movies".to_string()), false);
    app.update(Msg::RemoveList("movies".to_string()), true);
    assert!(!app.state.lists.contains_key(&"movies".to_string()));
    let members = app.state.groups.get(&"weekend".to_string()).unwrap();
    assert!(members.is_empty());
}

#[test]
fn scenario_group_membership_duplicates_removed_together() {
    let mut app = fresh_app();
    app.update(Msg::UpdateGroupName("weekend".to_string()), false);
    app.update(Msg::CreateGroup, false);
    app.update(Msg::AddToGroup("movies".to_string()), false);
    app.update(Msg::AddToGroup("movies".to_string()), false);
    app.update(Msg::RemoveGroupItem("movies".to_string()), false);
    let members = app.state.groups.get(&"weekend".to_string()).unwrap();
    assert!(members.is_empty());
}

#[test]
fn freeze_pins_a_pick_and_thaw_releases_it() {
    let mut app = fresh_app();
    make_list(&mut app, "movies");
    add_named_item(&mut app, "Dune");
    app.update(Msg::FreezeList("movies".to_string()), false);
    let (pick, frozen) = app.display_choice(&"movies".to_string());
    assert!(frozen);
    assert_eq!(pick.name, Some("Dune".to_string()));
    // a frozen pick is stable across reads
    let (again, frozen2) = app.display_choice(&"movies".to_string());
    assert!(frozen2);
    assert_eq!(again, pick);
    app.update(Msg::ThawList("movies".to_string()), false);
    let (_, frozen3) = app.display_choice(&"movies".to_string());
    assert!(!frozen3);
}

#[test]
fn orphaned_cache_entry_is_treated_as_absent() {
    let mut app = fresh_app();
    make_list(&mut app, "movies");
    add_named_item(&mut app, "Dune");
    app.update(Msg::FreezeList("movies".to_string()), false);
    app.update(Msg::RemoveList("movies".to_string()), true);
    let (pick, frozen) = app.display_choice(&"movies".to_string());
    assert!(!frozen);
    assert_eq!(pick, Item::empty());
}

#[test]
fn freezing_an_absent_list_pins_the_sentinel() {
    let mut app = fresh_app();
    app.update(Msg::FreezeList("ghost".to_string()), false);
    let pinned = app.view.cache.peek(&"ghost".to_string());
    assert_eq!(pinned, Some(&Item::empty()));
}

#[test]
fn choose_from_absent_or_empty_list_returns_sentinel() {
    let mut app = fresh_app();
    let pick = app.choose_from_list(&"nothing".to_string());
    assert_eq!(pick, Item::empty());
    make_list(&mut app, "empty");
    let pick2 = app.choose_from_list(&"empty".to_string());
    assert_eq!(pick2, Item::empty());
}

#[test]
fn purge_clears_state_cache_and_focus() {
    let mut app = fresh_app();
    make_list(&mut app, "movies");
    add_named_item(&mut app, "Dune");
    app.update(Msg::UpdateGroupName("weekend".to_string()), false);
    app.update(Msg::CreateGroup, false);
    app.update(Msg::FreezeList("movies".to_string()), false);
    app.update(Msg::Purge, true);
    assert_eq!(app.state.lists.len(), 0);
    assert_eq!(app.state.groups.len(), 0);
    assert!(app.view.cache.is_empty());
    assert_eq!(app.view.current_list, String::new());
    assert_eq!(app.view.current_group, String::new());
    assert_eq!(app.view.new_list_name, String::new());
    assert_eq!(app.view.new_group_name, String::new());
    assert_eq!(app.view.current_item, None);
}

#[test]
fn tick_and_nothing_change_nothing() {
    let mut app = fresh_app();
    make_list(&mut app, "movies");
    app.update(Msg::Tick, false);
    app.update(Msg::Nothing, false);
    assert_eq!(app.state.lists.len(), 1);
    assert_eq!(app.view.current_list, "movies".to_string());
}

#[test]
fn only_destructive_messages_need_confirmation() {
    assert!(needs_confirmation(&Msg::RemoveList("x".to_string())));
    assert!(needs_confirmation(&Msg::RemoveGroup("x".to_string())));
    assert!(needs_confirmation(&Msg::Purge));
    assert!(!needs_confirmation(&Msg::CreateList));
    assert!(!needs_confirmation(&Msg::RemoveListItem(0)));
    assert!(!needs_confirmation(&Msg::RemoveGroupItem("x".to_string())));
    assert!(!needs_confirmation(&Msg::ThawAllLists));
}

#[test]
fn create_starts_focus_on_the_first_entries() {
    let mut s = State::new();
    s.create_list("movies".to_string());
    s.create_list("books".to_string());
    s.create_group("weekend".to_string());
    let app = App::create(s);
    assert_eq!(app.view.current_list, "movies".to_string());
    assert_eq!(app.view.current_group, "weekend".to_string());
    assert_eq!(app.view.current_item, None);
}

#[test]
fn blur_clears_focus() {
    let mut app = fresh_app();
    make_list(&mut app, "movies");
    app.update(Msg::CreateItem, false);
    app.update(Msg::BlurList, false);
    assert_eq!(app.view.current_list, String::new());
    assert_eq!(app.view.current_item, None);
    app.update(Msg::UpdateGroupName("weekend".to_string()), false);
    app.update(Msg::CreateGroup, false);
    app.update(Msg::BlurGroup, false);
    assert_eq!(app.view.current_group, String::new());
}

#[test]
fn get_current_index_and_item_revalidates_bounds() {
    let mut app = fresh_app();
    make_list(&mut app, "movies");
    add_named_item(&mut app, "Dune");
    app.update(Msg::FocusItem(0), false);
    let (idx, item) = app.get_current_index_and_item().expect("focus should be valid");
    assert_eq!(idx, 0);
    assert_eq!(item.name, Some("Dune".to_string()));
    app.update(Msg::FocusItem(9), false);
    assert!(app.get_current_index_and_item().is_none());
}
