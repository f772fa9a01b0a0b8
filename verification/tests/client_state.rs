use todo_graphql::client::app::{entry_class, App, Msg, NEW_ENTRY_ID};
use todo_graphql::client::state::{copy_entries, Entry, Filter, State};

fn entry(id: u32, description: &str, completed: bool) -> Entry {
    Entry { id, description: description.to_string(), completed, editing: false }
}

fn sample_state(filter: Filter) -> State {
    State {
        entries: vec![entry(1, "read", false), entry(2, "cook", true), entry(3, "code", false)],
        filter,
        edit_value: String::new(),
    }
}

fn descriptions(s: &State) -> Vec<String> {
    s.entries.iter().map(|e| e.description.clone()).collect()
}

#[test]
fn filter_fits_by_completion() {
    let done = entry(1, "a", true);
    let open = entry(2, "b", false);
    assert!(Filter::All.fits(&done) && Filter::All.fits(&open));
    assert!(!Filter::Active.fits(&done) && Filter::Active.fits(&open));
    assert!(Filter::Completed.fits(&done) && !Filter::Completed.fits(&open));
}

#[test]
fn filter_links_and_labels() {
    assert_eq!(Filter::All.as_href(), "#/");
    assert_eq!(Filter::Active.as_href(), "#/active");
    assert_eq!(Filter::Completed.as_href(), "#/completed");
    assert_eq!(Filter::All.label(), "All");
    assert_eq!(Filter::Active.label(), "Active");
    assert_eq!(Filter::Completed.label(), "Completed");
    assert_eq!(Filter::all_filters(), vec![Filter::All, Filter::Active, Filter::Completed]);
}

#[test]
fn visible_positions_follow_the_filter() {
    assert_eq!(sample_state(Filter::All).visible_positions(), vec![0, 1, 2]);
    assert_eq!(sample_state(Filter::Active).visible_positions(), vec![0, 2]);
    assert_eq!(sample_state(Filter::Completed).visible_positions(), vec![1]);
}

#[test]
fn totals() {
    let s = sample_state(Filter::Active);
    assert_eq!(s.total(), 3);
    assert_eq!(s.total_completed(), 1);
}

#[test]
fn all_completed_needs_a_shown_entry() {
    assert!(!sample_state(Filter::All).is_all_completed());
    assert!(sample_state(Filter::Completed).is_all_completed());
    let empty = State { entries: vec![], filter: Filter::All, edit_value: String::new() };
    assert!(!empty.is_all_completed());
}

#[test]
fn clear_completed_keeps_order_of_the_rest() {
    let mut s = sample_state(Filter::All);
    s.clear_completed();
    assert_eq!(descriptions(&s), vec!["read".to_string(), "code".to_string()]);
    assert_eq!(s.total_completed(), 0);
}

#[test]
fn toggle_counts_shown_entries() {
    let mut s = sample_state(Filter::Active);
    s.toggle(1);
    assert!(s.entries[2].completed);
    assert!(!s.entries[0].completed);
}

#[test]
fn toggle_twice_restores() {
    let mut s = sample_state(Filter::All);
    let before = copy_entries(&s.entries);
    s.toggle(1);
    assert!(!s.entries[1].completed);
    s.toggle(1);
    assert_eq!(s.entries, before);
}

#[test]
fn toggle_all_sets_shown_only() {
    let mut s = sample_state(Filter::Active);
    s.toggle_all(true);
    assert!(s.entries.iter().all(|e| e.completed));
    let mut s = sample_state(Filter::Completed);
    s.toggle_all(false);
    assert!(s.entries.iter().all(|e| !e.completed));
}

#[test]
fn edit_mode_toggles_and_clears() {
    let mut s = sample_state(Filter::Completed);
    s.toggle_edit(0);
    assert!(s.entries[1].editing);
    s.toggle_edit(0);
    assert!(!s.entries[1].editing);
    s.toggle_edit(0);
    s.clear_all_edit();
    assert!(s.entries.iter().all(|e| !e.editing));
}

#[test]
fn remove_counts_shown_entries() {
    let mut s = sample_state(Filter::Active);
    s.remove(1);
    assert_eq!(descriptions(&s), vec!["read".to_string(), "cook".to_string()]);
}

#[test]
fn complete_edit_sets_text_or_removes() {
    let mut s = sample_state(Filter::All);
    s.toggle_edit(0);
    s.complete_edit(0, "reread".to_string());
    assert_eq!(s.entries[0].description, "reread");
    assert!(!s.entries[0].editing);
    s.complete_edit(2, String::new());
    assert_eq!(descriptions(&s), vec!["reread".to_string(), "cook".to_string()]);
}

#[test]
fn create_starts_empty() {
    let app = App::create();
    assert!(app.state.entries.is_empty());
    assert_eq!(app.state.filter, Filter::All);
    assert_eq!(app.state.edit_value, "");
}

#[test]
fn add_trims_and_skips_empty_text() {
    let mut app = App::create();
    let fx = app.update(Msg::Add("  buy milk \n".to_string()));
    assert_eq!(app.state.entries.len(), 1);
    assert_eq!(app.state.entries[0].description, "buy milk");
    assert_eq!(app.state.entries[0].id, NEW_ENTRY_ID);
    assert_eq!(app.state.entries[0].id, 10);
    assert!(!app.state.entries[0].completed);
    assert_eq!(fx.stored, app.state.entries);
    assert!(fx.rerender);
    assert!(!fx.focus_input);
    app.update(Msg::Add(String::new()));
    assert_eq!(app.state.entries.len(), 1);
}

#[test]
fn add_of_blank_text_adds_an_empty_entry() {
    let mut app = App::create();
    app.update(Msg::Add("   ".to_string()));
    assert_eq!(app.state.entries.len(), 1);
    assert_eq!(app.state.entries[0].description, "");
}

#[test]
fn initial_entries_replace_the_list() {
    let mut app = App::create();
    let fx = app.update(Msg::InitialEntries(vec![entry(7, "x", true)]));
    assert_eq!(app.state.entries, vec![entry(7, "x", true)]);
    assert_eq!(fx.stored, vec![entry(7, "x", true)]);
}

#[test]
fn toggle_edit_copies_text_and_edits_one_entry() {
    let mut app = App { state: sample_state(Filter::All) };
    app.state.entries[0].editing = true;
    app.update(Msg::ToggleEdit(1));
    assert_eq!(app.state.edit_value, "cook");
    assert!(!app.state.entries[0].editing);
    assert!(app.state.entries[1].editing);
}

#[test]
fn edit_trims_and_resets_the_edit_text() {
    let mut app = App { state: sample_state(Filter::All) };
    app.update(Msg::ToggleEdit(0));
    app.update(Msg::Edit((0, "  reread  ".to_string())));
    assert_eq!(app.state.entries[0].description, "reread");
    assert_eq!(app.state.edit_value, "");
    app.update(Msg::Edit((0, "   ".to_string())));
    assert_eq!(app.state.entries.len(), 2);
}

#[test]
fn toggle_all_flips_the_whole_list() {
    let mut app = App { state: sample_state(Filter::All) };
    app.update(Msg::ToggleAll);
    assert!(app.state.entries.iter().all(|e| e.completed));
    app.update(Msg::ToggleAll);
    assert!(app.state.entries.iter().all(|e| !e.completed));
}

#[test]
fn other_messages() {
    let mut app = App { state: sample_state(Filter::All) };
    app.update(Msg::SetFilter(Filter::Completed));
    assert_eq!(app.state.filter, Filter::Completed);
    app.update(Msg::Toggle(0));
    assert!(app.state.entries.iter().all(|e| !e.completed));
    app.update(Msg::SetFilter(Filter::All));
    app.update(Msg::Toggle(0));
    app.update(Msg::ClearCompleted);
    assert_eq!(app.state.entries.len(), 2);
    app.update(Msg::Remove(0));
    assert_eq!(app.state.entries, vec![entry(3, "code", false)]);
    let fx = app.update(Msg::Focus);
    assert!(fx.focus_input);
    let fx = app.update(Msg::RestApiTest);
    assert!(!fx.focus_input);
    assert_eq!(fx.stored, vec![entry(3, "code", false)]);
}

#[test]
fn page_classes() {
    let app = App::create();
    assert_eq!(app.hidden_class(), "hidden");
    assert_eq!(app.filter_class(Filter::All), "selected");
    assert_eq!(app.filter_class(Filter::Active), "not-selected");
    let app = App { state: sample_state(Filter::Active) };
    assert_eq!(app.hidden_class(), "");
    assert_eq!(app.clear_completed_label(), "Clear completed (1)");
    let mut e = entry(1, "a", true);
    assert_eq!(entry_class(&e), "todo completed");
    e.editing = true;
    assert_eq!(entry_class(&e), "todo editing completed");
    e.completed = false;
    assert_eq!(entry_class(&e), "todo editing");
    e.editing = false;
    assert_eq!(entry_class(&e), "todo");
}

#[test]
fn clear_completed_label_counts_many() {
    let entries: Vec<Entry> = (0..12).map(|i| entry(i, "t", true)).collect();
    let app = App { state: State { entries, filter: Filter::All, edit_value: String::new() } };
    assert_eq!(app.clear_completed_label(), "Clear completed (12)");
}

#[test]
fn can_handle_checks_indices() {
    let app = App { state: sample_state(Filter::Active) };
    assert!(app.can_handle(&Msg::Toggle(1)));
    assert!(!app.can_handle(&Msg::Toggle(2)));
    assert!(!app.can_handle(&Msg::Remove(2)));
    assert!(app.can_handle(&Msg::Edit((0, "x".to_string()))));
    assert!(!app.can_handle(&Msg::Edit((2, "x".to_string()))));
    assert!(app.can_handle(&Msg::ToggleEdit(1)));
    assert!(!app.can_handle(&Msg::ToggleEdit(2)));
    assert!(app.can_handle(&Msg::ClearCompleted));
    let app = App::create();
    assert!(!app.can_handle(&Msg::ToggleEdit(0)));
    assert!(app.can_handle(&Msg::Add("a".to_string())));
}
