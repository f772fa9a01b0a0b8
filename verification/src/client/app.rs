//! The client's component logic: how each message changes the state, what the
//! page must do afterwards, and the small decisions the page's drawing makes.

use vstd::prelude::*;
use crate::client::state::{
    Entry, EntryView, Filter, State, StateView, all_shown_completed, copy_entries, entries_view, lemma_visible_same, lemma_visible, lemma_removed, lemma_toggled, lemma_edit_toggled,
    lemma_edit_completed, lemma_all_set, lemma_edits_cleared, lemma_completed_cleared,
};
use crate::text::{decimal, decimal_string, trim, trimmed};

verus! {

/// What the page asks the component to do.
pub enum Msg {
    Add(String),
    Edit((usize, String)),
    Remove(usize),
    SetFilter(Filter),
    ToggleAll,
    ToggleEdit(usize),
    Toggle(usize),
    ClearCompleted,
    Focus,
    InitialEntries(Vec<Entry>),
    RestApiTest,
}

/// What the page must do after a message was handled.
pub struct Effects {
    /// Whether the edit field must take the keyboard focus.
    pub focus_input: bool,
    /// The entries to keep in the browser's storage and send to the server.
    pub stored: Vec<Entry>,
    /// Whether the page must be drawn again.
    pub rerender: bool,
}

/// The id that a newly added entry gets.
pub const NEW_ENTRY_ID: u32 = 10;

/// The entry that adding the text `d` creates.
pub open spec fn new_entry(d: Seq<char>) -> EntryView {
    EntryView { id: NEW_ENTRY_ID, description: trimmed(d), completed: false, editing: false }
}

/// Whether the component can handle `msg` in state `s`: every index a
/// message carries must name a shown entry (and, for `ToggleEdit`, an entry
/// of the whole list too, since its text is read by that index).
pub open spec fn accepts(s: StateView, msg: Msg) -> bool {
    match msg {
        Msg::Edit((idx, _)) => idx < s.shown().len(),
        Msg::Remove(idx) => idx < s.shown().len(),
        Msg::ToggleEdit(idx) => idx < s.entries.len() && idx < s.shown().len(),
        Msg::Toggle(idx) => idx < s.shown().len(),
        _ => true,
    }
}

/// The state after handling `msg` in state `s`.
pub open spec fn next_state(s: StateView, msg: Msg) -> StateView {
    match msg {
        Msg::InitialEntries(entries) => StateView { entries: entries_view(entries@), ..s },
        Msg::RestApiTest => s,
        Msg::Add(d) => if d@.len() == 0 {
            s
        } else {
            StateView { entries: s.entries.push(new_entry(d@)), ..s }
        },
        Msg::Edit((idx, v)) => StateView {
            edit_value: Seq::empty(),
            ..s.edit_completed(idx as int, trimmed(v@))
        },
        Msg::Remove(idx) => s.removed(idx as int),
        Msg::SetFilter(f) => StateView { filter: f, ..s },
        Msg::ToggleEdit(idx) => StateView {
            edit_value: s.entries[idx as int].description,
            ..s
        }.edits_cleared().edit_toggled(idx as int),
        Msg::ToggleAll => s.all_set(!all_shown_completed(s.entries, s.filter)),
        Msg::Toggle(idx) => s.toggled(idx as int),
        Msg::ClearCompleted => s.completed_cleared(),
        Msg::Focus => s,
    }
}

/// When every entry is shown, `ToggleAll` marks every entry done, or, when
/// every entry already was, none.
pub proof fn lemma_toggle_all(s: StateView)
    requires
        s.filter == Filter::All,
        s.entries.len() > 0,
    ensures
        all_shown_completed(s.entries, s.filter) ==> forall|i: int|
            0 <= i < s.entries.len() ==> !(#[trigger] next_state(s, Msg::ToggleAll).entries[i]).completed,
        !all_shown_completed(s.entries, s.filter) ==> forall|i: int|
            0 <= i < s.entries.len() ==> (#[trigger] next_state(s, Msg::ToggleAll).entries[i]).completed,
{
    assert(s.filter.shows(s.entries[0]));
}

/// The component: the client state behind the page.
pub struct App {
    pub state: State,
}

impl App {
    /// The component as the page starts it: no entries, every entry shown,
    /// nothing being edited.
    pub fn create() -> (app: App)
        ensures
            app.state@ == (StateView {
                entries: Seq::empty(),
                filter: Filter::All,
                edit_value: Seq::empty(),
            }),
    {
        let entries: Vec<Entry> = Vec::new();
        let app = App { state: State { entries, filter: Filter::All, edit_value: String::new() } };
        assert(app.state@.entries =~= Seq::<EntryView>::empty());
        app
    }

    /// Whether the component can handle `msg` now: every index the message
    /// carries names a shown entry (and, for `ToggleEdit`, an entry of the
    /// whole list).
    pub fn can_handle(&self, msg: &Msg) -> (b: bool)
        ensures
            b == accepts(self.state@, *msg),
    {
        let shown = self.state.visible_positions().len();
        match msg {
            Msg::Edit((idx, _)) => *idx < shown,
            Msg::Remove(idx) => *idx < shown,
            Msg::ToggleEdit(idx) => *idx < self.state.entries.len() && *idx < shown,
            Msg::Toggle(idx) => *idx < shown,
            _ => true,
        }
    }

    /// Handles one message and says what the page must do next: focus the
    /// edit field after `Focus`, store and send the entries after every
    /// message, and draw the page again.
    pub fn update(&mut self, msg: Msg) -> (fx: Effects)
        requires
            accepts(old(self).state@, msg),
        ensures
            final(self).state@ == next_state(old(self).state@, msg),
            fx.focus_input == (msg is Focus),
            entries_view(fx.stored@) == final(self).state@.entries,
            fx.rerender,
    {
        let ghost s = self.state@;
        let mut focus_input = false;
        match msg {
            Msg::InitialEntries(entries) => {
                self.state.entries = entries;
            },
            Msg::RestApiTest => {},
            Msg::Add(description) => {
                if !description.as_str().is_empty() {
                    let entry = Entry {
                        id: NEW_ENTRY_ID,
                        description: trim(description.as_str()),
                        completed: false,
                        editing: false,
                    };
                    self.state.entries.push(entry);
                    assert(self.state@.entries =~= s.entries.push(new_entry(description@)));
                }
            },
            Msg::Edit((idx, edit_value)) => {
                self.state.complete_edit(idx, trim(edit_value.as_str()));
                self.state.edit_value = String::new();
            },
            Msg::Remove(idx) => {
                self.state.remove(idx);
            },
            Msg::SetFilter(filter) => {
                self.state.filter = filter;
            },
            Msg::ToggleEdit(idx) => {
                self.state.edit_value = self.state.entries[idx].description.clone();
                let ghost before = self.state@;
                self.state.clear_all_edit();
                proof {
                    lemma_visible_same(self.state@.entries, before.entries, self.state.filter);
                }
                self.state.toggle_edit(idx);
            },
            Msg::ToggleAll => {
                let status = !self.state.is_all_completed();
                self.state.toggle_all(status);
            },
            Msg::Toggle(idx) => {
                self.state.toggle(idx);
            },
            Msg::ClearCompleted => {
                self.state.clear_completed();
            },
            Msg::Focus => {
                focus_input = true;
            },
        }
        let stored = copy_entries(&self.state.entries);
        Effects { focus_input, stored, rerender: true }
    }

    /// The class that hides the list and the footer when there are no
    /// entries.
    pub fn hidden_class(&self) -> (c: &'static str)
        ensures
            c@ == (if self.state@.entries.len() == 0 {
                "hidden"@
            } else {
                ""@
            }),
    {
        if self.state.entries.len() == 0 {
            "hidden"
        } else {
            ""
        }
    }

    /// The class of a filter's link: whether it is the current filter.
    pub fn filter_class(&self, filter: Filter) -> (c: &'static str)
        ensures
            c@ == (if self.state.filter == filter {
                "selected"@
            } else {
                "not-selected"@
            }),
    {
        if self.state.filter == filter {
            "selected"
        } else {
            "not-selected"
        }
    }

    /// The label of the button that drops the completed entries.
    pub fn clear_completed_label(&self) -> (l: String)
        ensures
            l@ == "Clear completed ("@ + decimal(self.state@.completed_count()) + ")"@,
    {
        let n = self.state.total_completed();
        let mut l = String::from_str("Clear completed (");
        l.append(decimal_string_usize(n).as_str());
        l.append(")");
        l
    }
}

/// Renders a count in decimal.
fn decimal_string_usize(n: usize) -> (s: String)
    ensures
        s@ == decimal(n as nat),
    decreases n,
{
    if n < 10 {
        decimal_string(n as u32)
    } else {
        let mut s = decimal_string_usize(n / 10);
        let last = decimal_string((n % 10) as u32);
        s.append(last.as_str());
        s
    }
}

/// The classes of an entry's list item, separated by spaces: `todo`, then
/// `editing` and `completed` when they apply.
pub open spec fn entry_classes(e: EntryView) -> Seq<char> {
    "todo"@ + (if e.editing {
        " editing"@
    } else {
        ""@
    }) + (if e.completed {
        " completed"@
    } else {
        ""@
    })
}

/// The classes of an entry's list item.
pub fn entry_class(entry: &Entry) -> (c: String)
    ensures
        c@ == entry_classes(entry@),
{
    let mut c = String::from_str("todo");
    if entry.editing {
        c.append(" editing");
    } else {
        c.append("");
    }
    if entry.completed {
        c.append(" completed");
    } else {
        c.append("");
    }
    c
}

/// Adding a text that is not empty appends one entry, after every entry
/// there was, with id 10, the trimmed text, not completed and not being
/// edited; adding an empty text changes nothing.
pub proof fn lemma_update_add(s: StateView, d: String)
    ensures
        d@.len() == 0 ==> next_state(s, Msg::Add(d)) == s,
        d@.len() > 0 ==> {
            let t = next_state(s, Msg::Add(d));
            &&& t.filter == s.filter
            &&& t.edit_value == s.edit_value
            &&& t.entries.len() == s.entries.len() + 1
            &&& forall|k: int| 0 <= k < s.entries.len() ==> #[trigger] t.entries[k] == s.entries[k]
            &&& t.entries[s.entries.len() as int].id == 10
            &&& t.entries[s.entries.len() as int].description == trimmed(d@)
            &&& !t.entries[s.entries.len() as int].completed
            &&& !t.entries[s.entries.len() as int].editing
        },
{
}

/// Finishing an edit of the `idx`-th shown entry empties the edit text; with
/// a text that trims to nothing the entry is removed and the others kept in
/// order, and otherwise that entry alone gets the trimmed text and leaves edit
/// mode flipped.
pub proof fn lemma_update_edit(s: StateView, idx: usize, v: String)
    requires
        idx < s.shown().len(),
    ensures
        0 <= s.slot(idx as int) < s.entries.len(),
        s.filter.shows(s.entries[s.slot(idx as int)]),
        next_state(s, Msg::Edit((idx, v))).edit_value.len() == 0,
        next_state(s, Msg::Edit((idx, v))).filter == s.filter,
        trimmed(v@).len() == 0 ==> {
            let t = next_state(s, Msg::Edit((idx, v)));
            let j = s.slot(idx as int);
            &&& t.entries.len() + 1 == s.entries.len()
            &&& forall|k: int| 0 <= k < j ==> #[trigger] t.entries[k] == s.entries[k]
            &&& forall|k: int| j <= k < t.entries.len() ==> #[trigger] t.entries[k] == s.entries[k + 1]
        },
        trimmed(v@).len() > 0 ==> {
            let t = next_state(s, Msg::Edit((idx, v)));
            let j = s.slot(idx as int);
            &&& t.entries.len() == s.entries.len()
            &&& forall|k: int| 0 <= k < s.entries.len() && k != j ==> #[trigger] t.entries[k] == s.entries[k]
            &&& t.entries[j].description == trimmed(v@)
            &&& t.entries[j].editing == !s.entries[j].editing
            &&& t.entries[j].id == s.entries[j].id
            &&& t.entries[j].completed == s.entries[j].completed
        },
{
    lemma_edit_completed(s, idx as int, trimmed(v@));
    lemma_removed(s, idx as int);
}

/// Removing or toggling the `idx`-th shown entry touches that entry alone.
pub proof fn lemma_update_remove_toggle(s: StateView, idx: usize)
    requires
        idx < s.shown().len(),
    ensures
        ({
            let t = next_state(s, Msg::Remove(idx));
            let j = s.slot(idx as int);
            &&& 0 <= j < s.entries.len()
            &&& s.filter.shows(s.entries[j])
            &&& t.filter == s.filter && t.edit_value == s.edit_value
            &&& t.entries.len() + 1 == s.entries.len()
            &&& forall|k: int| 0 <= k < j ==> #[trigger] t.entries[k] == s.entries[k]
            &&& forall|k: int| j <= k < t.entries.len() ==> #[trigger] t.entries[k] == s.entries[k + 1]
        }),
        ({
            let t = next_state(s, Msg::Toggle(idx));
            let j = s.slot(idx as int);
            &&& t.filter == s.filter && t.edit_value == s.edit_value
            &&& t.entries.len() == s.entries.len()
            &&& forall|k: int| 0 <= k < s.entries.len() && k != j ==> #[trigger] t.entries[k] == s.entries[k]
            &&& t.entries[j].completed == !s.entries[j].completed
            &&& t.entries[j].id == s.entries[j].id
            &&& t.entries[j].description == s.entries[j].description
            &&& t.entries[j].editing == s.entries[j].editing
        }),
{
    lemma_removed(s, idx as int);
    lemma_toggled(s, idx as int);
}

/// Starting to edit the `idx`-th shown entry copies the text of the entry at
/// position `idx` of the whole list into the edit text, and leaves exactly
/// the `idx`-th shown entry in edit mode, every other field kept.
pub proof fn lemma_update_toggle_edit(s: StateView, idx: usize)
    requires
        idx < s.entries.len(),
        idx < s.shown().len(),
    ensures
        ({
            let t = next_state(s, Msg::ToggleEdit(idx));
            let j = s.slot(idx as int);
            &&& 0 <= j < s.entries.len()
            &&& s.filter.shows(s.entries[j])
            &&& t.filter == s.filter
            &&& t.edit_value == s.entries[idx as int].description
            &&& t.entries.len() == s.entries.len()
            &&& forall|k: int|
                0 <= k < s.entries.len() ==> {
                    &&& (#[trigger] t.entries[k]).editing == (k == j)
                    &&& t.entries[k].id == s.entries[k].id
                    &&& t.entries[k].description == s.entries[k].description
                    &&& t.entries[k].completed == s.entries[k].completed
                }
        }),
{
    let c = StateView { edit_value: s.entries[idx as int].description, ..s }.edits_cleared();
    lemma_edits_cleared(StateView { edit_value: s.entries[idx as int].description, ..s });
    lemma_visible_same(c.entries, s.entries, s.filter);
    lemma_edit_toggled(c, idx as int);
    lemma_visible(s.entries, s.filter);
}

/// `ToggleAll` sets every shown entry to completed unless the filter shows
/// some entry and all shown entries are completed, in which case it sets
/// them to not completed; hidden entries and every other field are kept.
pub proof fn lemma_update_toggle_all(s: StateView)
    ensures
        ({
            let t = next_state(s, Msg::ToggleAll);
            let all_done = (exists|i: int| 0 <= i < s.entries.len() && s.filter.shows(#[trigger] s.entries[i]))
                && (forall|i: int|
                0 <= i < s.entries.len() && s.filter.shows(#[trigger] s.entries[i]) ==> s.entries[i].completed);
            &&& t.filter == s.filter && t.edit_value == s.edit_value
            &&& t.entries.len() == s.entries.len()
            &&& forall|k: int|
                0 <= k < s.entries.len() && s.filter.shows(s.entries[k]) ==> {
                    &&& (#[trigger] t.entries[k]).completed == !all_done
                    &&& t.entries[k].id == s.entries[k].id
                    &&& t.entries[k].description == s.entries[k].description
                    &&& t.entries[k].editing == s.entries[k].editing
                }
            &&& forall|k: int|
                0 <= k < s.entries.len() && !s.filter.shows(s.entries[k]) ==> #[trigger] t.entries[k]
                    == s.entries[k]
        }),
{
    lemma_all_set(s, !all_shown_completed(s.entries, s.filter));
}

/// The messages that do not name an entry: clearing keeps exactly the entries
/// that are not completed, in order; setting the filter changes only the
/// filter; the loaded entries replace the list; focusing and the test
/// message change nothing.
pub proof fn lemma_update_others(s: StateView, f: Filter, es: Vec<Entry>)
    ensures
        next_state(s, Msg::ClearCompleted).entries == s.entries.filter(|e: EntryView| !e.completed),
        next_state(s, Msg::ClearCompleted).filter == s.filter,
        next_state(s, Msg::ClearCompleted).edit_value == s.edit_value,
        next_state(s, Msg::SetFilter(f)).entries == s.entries,
        next_state(s, Msg::SetFilter(f)).filter == f,
        next_state(s, Msg::SetFilter(f)).edit_value == s.edit_value,
        next_state(s, Msg::InitialEntries(es)).entries.len() == es@.len(),
        forall|k: int|
            0 <= k < es@.len() ==> #[trigger] next_state(s, Msg::InitialEntries(es)).entries[k] == es@[k]@,
        next_state(s, Msg::InitialEntries(es)).filter == s.filter,
        next_state(s, Msg::InitialEntries(es)).edit_value == s.edit_value,
        next_state(s, Msg::Focus) == s,
        next_state(s, Msg::RestApiTest) == s,
{
    lemma_completed_cleared(s);
}

/// An entry's item has the class `todo`, then `editing` while it is being
/// edited, then `completed` once done.
pub proof fn lemma_entry_classes(e: EntryView)
    ensures
        !e.editing && !e.completed ==> entry_classes(e) == "todo"@,
        e.editing && !e.completed ==> entry_classes(e) == "todo"@ + " editing"@,
        !e.editing && e.completed ==> entry_classes(e) == "todo"@ + " completed"@,
        e.editing && e.completed ==> entry_classes(e) == "todo"@ + " editing"@ + " completed"@,
{
    reveal_strlit("");
    assert("todo"@ + ""@ =~= "todo"@);
    assert("todo"@ + " editing"@ + ""@ =~= "todo"@ + " editing"@);
    assert("todo"@ + ""@ + " completed"@ =~= "todo"@ + " completed"@);
    assert("todo"@ + ""@ + ""@ =~= "todo"@);
}

} // verus!
