//! The client's todo list: its entries, the filter that chooses which of them
//! are shown, and the text of the entry being edited.
//!
//! Indices handed to the editing operations count the entries that the
//! current filter shows, in list order, as the rendered list numbers them.

use vstd::prelude::*;

verus! {

/// Which entries the list shows.
#[derive(Clone, Copy, Debug, PartialEq, Eq, Structural)]
pub enum Filter {
    All,
    Active,
    Completed,
}

/// A todo entry as the logic sees it.
#[verifier::ext_equal]
pub struct EntryView {
    pub id: u32,
    pub description: Seq<char>,
    pub completed: bool,
    pub editing: bool,
}

/// One todo entry.
#[derive(Clone, Debug, PartialEq)]
pub struct Entry {
    pub id: u32,
    pub description: String,
    pub completed: bool,
    pub editing: bool,
}

impl View for Entry {
    type V = EntryView;

    open spec fn view(&self) -> EntryView {
        EntryView {
            id: self.id,
            description: self.description@,
            completed: self.completed,
            editing: self.editing,
        }
    }
}

/// The views of a list of entries.
pub open spec fn entries_view(v: Seq<Entry>) -> Seq<EntryView> {
    v.map_values(|e: Entry| e@)
}

impl Entry {
    /// A copy of this entry.
    pub fn snapshot(&self) -> (r: Entry)
        ensures
            r@ == self@,
    {
        Entry {
            id: self.id,
            description: self.description.clone(),
            completed: self.completed,
            editing: self.editing,
        }
    }
}

/// A copy of a list of entries.
pub fn copy_entries(v: &Vec<Entry>) -> (r: Vec<Entry>)
    ensures
        entries_view(r@) == entries_view(v@),
{
    let mut r: Vec<Entry> = Vec::new();
    let n = v.len();
    for i in 0..n
        invariant
            n == v@.len(),
            r@.len() == i,
            forall|k: int| 0 <= k < i ==> #[trigger] r@[k]@ == v@[k]@,
    {
        r.push(v[i].snapshot());
    }
    assert(entries_view(r@) =~= entries_view(v@));
    r
}

impl Filter {
    /// Whether the filter shows an entry.
    pub open spec fn shows(self, e: EntryView) -> bool {
        match self {
            Filter::All => true,
            Filter::Active => !e.completed,
            Filter::Completed => e.completed,
        }
    }

    /// Whether the filter shows `entry`.
    pub fn fits(&self, entry: &Entry) -> (b: bool)
        ensures
            b == self.shows(entry@),
    {
        match self {
            Filter::All => true,
            Filter::Active => !entry.completed,
            Filter::Completed => entry.completed,
        }
    }

    /// The link fragment that selects the filter.
    pub open spec fn href(self) -> Seq<char> {
        match self {
            Filter::All => "#/"@,
            Filter::Active => "#/active"@,
            Filter::Completed => "#/completed"@,
        }
    }

    /// The link fragment that selects the filter.
    pub fn as_href(&self) -> (h: &'static str)
        ensures
            h@ == self.href(),
    {
        match self {
            Filter::All => "#/",
            Filter::Active => "#/active",
            Filter::Completed => "#/completed",
        }
    }

    /// The filter's name as the page shows it.
    pub open spec fn name(self) -> Seq<char> {
        match self {
            Filter::All => "All"@,
            Filter::Active => "Active"@,
            Filter::Completed => "Completed"@,
        }
    }

    /// The filter's name as the page shows it.
    pub fn label(&self) -> (s: &'static str)
        ensures
            s@ == self.name(),
    {
        match self {
            Filter::All => "All",
            Filter::Active => "Active",
            Filter::Completed => "Completed",
        }
    }

    /// Every filter, in the order the page lists them.
    pub fn all_filters() -> (v: Vec<Filter>)
        ensures
            v@ == seq![Filter::All, Filter::Active, Filter::Completed],
    {
        let mut v: Vec<Filter> = Vec::new();
        v.push(Filter::All);
        v.push(Filter::Active);
        v.push(Filter::Completed);
        v
    }
}

/// The positions in `s` of the entries that `f` shows, in increasing order.
pub open spec fn visible(s: Seq<EntryView>, f: Filter) -> Seq<int>
    decreases s.len(),
{
    if s.len() == 0 {
        Seq::empty()
    } else {
        let p = visible(s.drop_last(), f);
        if f.shows(s.last()) {
            p.push(s.len() - 1)
        } else {
            p
        }
    }
}

/// The positions of the shown entries are in range, shown, strictly
/// increasing, and every shown entry is among them.
pub proof fn lemma_visible(s: Seq<EntryView>, f: Filter)
    ensures
        visible(s, f).len() <= s.len(),
        forall|k: int|
            0 <= k < visible(s, f).len() ==> 0 <= #[trigger] visible(s, f)[k] < s.len()
                && f.shows(s[visible(s, f)[k]]),
        forall|k1: int, k2: int|
            0 <= k1 < k2 < visible(s, f).len() ==> visible(s, f)[k1] < visible(s, f)[k2],
        forall|i: int|
            0 <= i < s.len() && f.shows(#[trigger] s[i]) ==> exists|k: int|
                0 <= k < visible(s, f).len() && visible(s, f)[k] == i,
    decreases s.len(),
{
    if s.len() > 0 {
        let t = s.drop_last();
        lemma_visible(t, f);
        assert forall|i: int| 0 <= i < s.len() && f.shows(#[trigger] s[i]) implies exists|k: int|
            0 <= k < visible(s, f).len() && visible(s, f)[k] == i by {
            if i < s.len() - 1 {
                assert(t[i] == s[i]);
                let k = choose|k: int| 0 <= k < visible(t, f).len() && visible(t, f)[k] == i;
                assert(visible(s, f)[k] == i);
            } else {
                assert(visible(s, f)[visible(s, f).len() - 1] == i);
            }
        }
    }
}

/// Two lists of one length on whose entries a filter agrees show the same
/// positions.
pub proof fn lemma_visible_same(a: Seq<EntryView>, b: Seq<EntryView>, f: Filter)
    requires
        a.len() == b.len(),
        forall|i: int| 0 <= i < a.len() ==> f.shows(#[trigger] a[i]) == f.shows(b[i]),
    ensures
        visible(a, f) == visible(b, f),
    decreases a.len(),
{
    if a.len() > 0 {
        lemma_visible_same(a.drop_last(), b.drop_last(), f);
    }
}

/// Extending a prefix by one entry extends its shown positions by that
/// entry's position when the filter shows it.
pub proof fn lemma_visible_take(s: Seq<EntryView>, f: Filter, i: int)
    requires
        0 <= i < s.len(),
    ensures
        visible(s.take(i + 1), f) == (if f.shows(s[i]) {
            visible(s.take(i), f).push(i)
        } else {
            visible(s.take(i), f)
        }),
{
    assert(s.take(i + 1).drop_last() =~= s.take(i));
}

/// The shown entries of `s` that are completed: all of them, and at least
/// one.
pub open spec fn all_shown_completed(s: Seq<EntryView>, f: Filter) -> bool {
    &&& exists|i: int| 0 <= i < s.len() && f.shows(#[trigger] s[i])
    &&& forall|i: int| 0 <= i < s.len() && f.shows(#[trigger] s[i]) ==> s[i].completed
}

/// The entries of `s` that are not completed, in order.
pub open spec fn active_entries(s: Seq<EntryView>) -> Seq<EntryView>
    decreases s.len(),
{
    if s.len() == 0 {
        Seq::empty()
    } else if s.last().completed {
        active_entries(s.drop_last())
    } else {
        active_entries(s.drop_last()).push(s.last())
    }
}

/// The client state as the logic sees it.
#[verifier::ext_equal]
pub struct StateView {
    pub entries: Seq<EntryView>,
    pub filter: Filter,
    pub edit_value: Seq<char>,
}

/// `e` with `completed` set to `b`.
pub open spec fn with_completed(e: EntryView, b: bool) -> EntryView {
    EntryView { completed: b, ..e }
}

/// `e` with `editing` set to `b`.
pub open spec fn with_editing(e: EntryView, b: bool) -> EntryView {
    EntryView { editing: b, ..e }
}

impl StateView {
    /// The positions of the entries the filter shows.
    pub open spec fn shown(self) -> Seq<int> {
        visible(self.entries, self.filter)
    }

    /// The position in `entries` of the `idx`-th shown entry.
    pub open spec fn slot(self, idx: int) -> int {
        self.shown()[idx]
    }

    /// The number of completed entries.
    pub open spec fn completed_count(self) -> nat {
        visible(self.entries, Filter::Completed).len()
    }

    /// The state after flipping `completed` on the `idx`-th shown entry.
    pub open spec fn toggled(self, idx: int) -> StateView {
        let j = self.slot(idx);
        StateView {
            entries: self.entries.update(j, with_completed(self.entries[j], !self.entries[j].completed)),
            ..self
        }
    }

    /// The state after flipping `editing` on the `idx`-th shown entry.
    pub open spec fn edit_toggled(self, idx: int) -> StateView {
        let j = self.slot(idx);
        StateView {
            entries: self.entries.update(j, with_editing(self.entries[j], !self.entries[j].editing)),
            ..self
        }
    }

    /// The state after removing the `idx`-th shown entry.
    pub open spec fn removed(self, idx: int) -> StateView {
        StateView { entries: self.entries.remove(self.slot(idx)), ..self }
    }

    /// The state after setting `completed` to `value` on every shown entry.
    pub open spec fn all_set(self, value: bool) -> StateView {
        StateView {
            entries: Seq::new(
                self.entries.len(),
                |i: int|
                    if self.filter.shows(self.entries[i]) {
                        with_completed(self.entries[i], value)
                    } else {
                        self.entries[i]
                    },
            ),
            ..self
        }
    }

    /// The state after leaving edit mode on every entry.
    pub open spec fn edits_cleared(self) -> StateView {
        StateView {
            entries: Seq::new(self.entries.len(), |i: int| with_editing(self.entries[i], false)),
            ..self
        }
    }

    /// The state after dropping every completed entry.
    pub open spec fn completed_cleared(self) -> StateView {
        StateView { entries: active_entries(self.entries), ..self }
    }

    /// The state after finishing the edit of the `idx`-th shown entry with
    /// the text `val`: an empty text removes the entry, any other text
    /// becomes its description and flips its edit mode.
    pub open spec fn edit_completed(self, idx: int, val: Seq<char>) -> StateView {
        if val.len() == 0 {
            self.removed(idx)
        } else {
            let j = self.slot(idx);
            let e = self.entries[j];
            StateView {
                entries: self.entries.update(
                    j,
                    EntryView { description: val, editing: !e.editing, ..e },
                ),
                ..self
            }
        }
    }
}

/// The client state.
pub struct State {
    pub entries: Vec<Entry>,
    pub filter: Filter,
    pub edit_value: String,
}

impl View for State {
    type V = StateView;

    open spec fn view(&self) -> StateView {
        StateView {
            entries: entries_view(self.entries@),
            filter: self.filter,
            edit_value: self.edit_value@,
        }
    }
}

impl State {
    /// The positions in `entries` of the entries the filter shows, in order.
    pub fn visible_positions(&self) -> (r: Vec<usize>)
        ensures
            r@.len() == self@.shown().len(),
            forall|k: int| 0 <= k < r@.len() ==> r@[k] as int == #[trigger] self@.shown()[k],
    {
        let ghost s = self@.entries;
        let ghost mut v: Seq<int> = Seq::empty();
        let mut r: Vec<usize> = Vec::new();
        let n = self.entries.len();
        assert(s.take(0) =~= Seq::<EntryView>::empty());
        for i in 0..n
            invariant
                n == self.entries@.len(),
                s == self@.entries,
                v == visible(s.take(i as int), self.filter),
                r@.len() == v.len(),
                forall|k: int| 0 <= k < r@.len() ==> r@[k] as int == #[trigger] v[k],
        {
            proof {
                lemma_visible_take(s, self.filter, i as int);
                assert(s[i as int] == self.entries@[i as int]@);
            }
            if self.filter.fits(&self.entries[i]) {
                r.push(i);
                proof {
                    v = v.push(i as int);
                }
            }
        }
        assert(s.take(n as int) =~= s);
        r
    }

    /// The number of entries.
    pub fn total(&self) -> (n: usize)
        ensures
            n == self@.entries.len(),
    {
        self.entries.len()
    }

    /// The number of completed entries.
    pub fn total_completed(&self) -> (n: usize)
        ensures
            n == self@.completed_count(),
    {
        let ghost s = self@.entries;
        let mut count: usize = 0;
        let n = self.entries.len();
        for i in 0..n
            invariant
                n == self.entries@.len(),
                s == self@.entries,
                count == visible(s.take(i as int), Filter::Completed).len(),
                count <= i,
        {
            proof {
                lemma_visible_take(s, Filter::Completed, i as int);
            }
            if Filter::Completed.fits(&self.entries[i]) {
                count = count + 1;
            }
        }
        assert(s.take(n as int) =~= s);
        count
    }

    /// Whether the filter shows at least one entry and every shown entry is
    /// completed.
    pub fn is_all_completed(&self) -> (b: bool)
        ensures
            b == all_shown_completed(self@.entries, self.filter),
    {
        let ghost s = self@.entries;
        let n = self.entries.len();
        let mut any = false;
        for i in 0..n
            invariant
                n == self.entries@.len(),
                s == self@.entries,
                any == (exists|k: int| 0 <= k < i && self.filter.shows(#[trigger] s[k])),
                forall|k: int| 0 <= k < i && self.filter.shows(#[trigger] s[k]) ==> s[k].completed,
        {
            proof {
                assert(s[i as int] == self.entries@[i as int]@);
            }
            if self.filter.fits(&self.entries[i]) {
                if !self.entries[i].completed {
                    assert(self.filter.shows(s[i as int]) && !s[i as int].completed);
                    return false;
                }
                any = true;
                assert(self.filter.shows(s[i as int]));
            }
        }
        any
    }

    /// Drops every completed entry, keeping the order of the others.
    pub fn clear_completed(&mut self)
        ensures
            final(self)@ == old(self)@.completed_cleared(),
    {
        let ghost s = old(self)@.entries;
        let mut kept: Vec<Entry> = Vec::new();
        let n = self.entries.len();
        for i in 0..n
            invariant
                n == self.entries@.len(),
                s == self@.entries,
                self@ == old(self)@,
                entries_view(kept@) == active_entries(s.take(i as int)),
        {
            proof {
                assert(s[i as int] == self.entries@[i as int]@);
                assert(s.take(i + 1).drop_last() =~= s.take(i as int));
            }
            let ghost before = entries_view(kept@);
            if Filter::Active.fits(&self.entries[i]) {
                let e = self.entries[i].snapshot();
                kept.push(e);
                assert(entries_view(kept@) =~= before.push(s[i as int]));
            }

        }
        assert(s.take(n as int) =~= s);
        self.entries = kept;
    }

    /// Flips `completed` on the `idx`-th shown entry.
    pub fn toggle(&mut self, idx: usize)
        requires
            idx < old(self)@.shown().len(),
        ensures
            final(self)@ == old(self)@.toggled(idx as int),
    {
        proof {
            lemma_visible(self@.entries, self.filter);
        }
        let positions = self.visible_positions();
        let j = positions[idx];
        let e = &self.entries[j];
        let changed = Entry {
            id: e.id,
            description: e.description.clone(),
            completed: !e.completed,
            editing: e.editing,
        };
        self.entries.set(j, changed);
        assert(self@.entries =~= old(self)@.toggled(idx as int).entries);
    }

    /// Sets `completed` to `value` on every shown entry.
    pub fn toggle_all(&mut self, value: bool)
        ensures
            final(self)@ == old(self)@.all_set(value),
    {
        let n = self.entries.len();
        for i in 0..n
            invariant
                n == self.entries@.len(),
                n == old(self).entries@.len(),
                self.filter == old(self).filter,
                self.edit_value@ == old(self).edit_value@,
                forall|k: int|
                    0 <= k < n ==> #[trigger] self@.entries[k] == (if k < i {
                        old(self)@.all_set(value).entries[k]
                    } else {
                        old(self)@.entries[k]
                    }),
        {
            let ghost prev = self@.entries;
            proof {
                assert(prev[i as int] == old(self)@.entries[i as int]);
            }
            if self.filter.fits(&self.entries[i]) {
                let e = &self.entries[i];
                let changed = Entry {
                    id: e.id,
                    description: e.description.clone(),
                    completed: value,
                    editing: e.editing,
                };
                self.entries.set(i, changed);
            }
            proof {
                assert forall|k: int| 0 <= k < n implies #[trigger] self@.entries[k] == (if k < i + 1 {
                    old(self)@.all_set(value).entries[k]
                } else {
                    old(self)@.entries[k]
                }) by {
                    if k != i {
                        assert(self@.entries[k] == prev[k]);
                    }
                }
            }
        }
        assert(self@.entries =~= old(self)@.all_set(value).entries);
    }

    /// Flips `editing` on the `idx`-th shown entry.
    pub fn toggle_edit(&mut self, idx: usize)
        requires
            idx < old(self)@.shown().len(),
        ensures
            final(self)@ == old(self)@.edit_toggled(idx as int),
    {
        proof {
            lemma_visible(self@.entries, self.filter);
        }
        let positions = self.visible_positions();
        let j = positions[idx];
        let e = &self.entries[j];
        let changed = Entry {
            id: e.id,
            description: e.description.clone(),
            completed: e.completed,
            editing: !e.editing,
        };
        self.entries.set(j, changed);
        assert(self@.entries =~= old(self)@.edit_toggled(idx as int).entries);
    }

    /// Leaves edit mode on every entry.
    pub fn clear_all_edit(&mut self)
        ensures
            final(self)@ == old(self)@.edits_cleared(),
    {
        let n = self.entries.len();
        for i in 0..n
            invariant
                n == self.entries@.len(),
                n == old(self).entries@.len(),
                self.filter == old(self).filter,
                self.edit_value@ == old(self).edit_value@,
                forall|k: int|
                    0 <= k < n ==> #[trigger] self@.entries[k] == (if k < i {
                        old(self)@.edits_cleared().entries[k]
                    } else {
                        old(self)@.entries[k]
                    }),
        {
            let ghost prev = self@.entries;
            proof {
                assert(prev[i as int] == old(self)@.entries[i as int]);
            }
            let e = &self.entries[i];
            let changed = Entry {
                id: e.id,
                description: e.description.clone(),
                completed: e.completed,
                editing: false,
            };
            self.entries.set(i, changed);
            proof {
                assert forall|k: int| 0 <= k < n implies #[trigger] self@.entries[k] == (if k < i + 1 {
                    old(self)@.edits_cleared().entries[k]
                } else {
                    old(self)@.entries[k]
                }) by {
                    if k != i {
                        assert(self@.entries[k] == prev[k]);
                    }
                }
            }
        }
        assert(self@.entries =~= old(self)@.edits_cleared().entries);
    }

    /// Removes the `idx`-th shown entry.
    pub fn remove(&mut self, idx: usize)
        requires
            idx < old(self)@.shown().len(),
        ensures
            final(self)@ == old(self)@.removed(idx as int),
    {
        proof {
            lemma_visible(self@.entries, self.filter);
        }
        let positions = self.visible_positions();
        let j = positions[idx];
        let _gone = self.entries.remove(j);
        assert(self@.entries =~= old(self)@.removed(idx as int).entries);
    }

    /// Finishes editing the `idx`-th shown entry with the text `val`: an empty
    /// text removes the entry; any other becomes its description and flips
    /// its edit mode.
    pub fn complete_edit(&mut self, idx: usize, val: String)
        requires
            idx < old(self)@.shown().len(),
        ensures
            final(self)@ == old(self)@.edit_completed(idx as int, val@),
    {
        if val.as_str().is_empty() {
            self.remove(idx);
        } else {
            proof {
                lemma_visible(self@.entries, self.filter);
            }
            let positions = self.visible_positions();
            let j = positions[idx];
            let e = &self.entries[j];
            let changed = Entry {
                id: e.id,
                description: val,
                completed: e.completed,
                editing: !e.editing,
            };
            self.entries.set(j, changed);
            assert(self@.entries =~= old(self)@.edit_completed(idx as int, val@).entries);
        }
    }
}

/// Marking the same shown entry done twice gives back the state, when every
/// entry is shown.
pub proof fn lemma_toggle_twice(s: StateView, idx: int)
    requires
        s.filter == Filter::All,
        0 <= idx < s.shown().len(),
    ensures
        s.toggled(idx).toggled(idx) == s,
{
    lemma_visible(s.entries, s.filter);
    let t = s.toggled(idx);
    lemma_visible_same(t.entries, s.entries, s.filter);
    assert(t.toggled(idx).entries =~= s.entries);
}

/// Entering and leaving edit mode on the same shown entry gives back the
/// state, whatever the filter.
pub proof fn lemma_edit_toggle_twice(s: StateView, idx: int)
    requires
        0 <= idx < s.shown().len(),
    ensures
        s.edit_toggled(idx).edit_toggled(idx) == s,
{
    lemma_visible(s.entries, s.filter);
    let t = s.edit_toggled(idx);
    lemma_visible_same(t.entries, s.entries, s.filter);
    assert(t.edit_toggled(idx).entries =~= s.entries);
}

/// The entries of `active_entries(s)` are those of `s` that are not
/// completed.
pub proof fn lemma_active_entries(s: Seq<EntryView>)
    ensures
        forall|i: int| 0 <= i < active_entries(s).len() ==> !(#[trigger] active_entries(s)[i]).completed,
        forall|i: int| 0 <= i < s.len() && !(#[trigger] s[i]).completed ==> active_entries(s).contains(s[i]),
        visible(active_entries(s), Filter::Completed).len() == 0,
    decreases s.len(),
{
    if s.len() > 0 {
        lemma_active_entries(s.drop_last());
        let a = active_entries(s);
        let p = active_entries(s.drop_last());
        assert forall|i: int| 0 <= i < s.len() && !(#[trigger] s[i]).completed implies a.contains(s[i]) by {
            if i < s.len() - 1 {
                assert(s.drop_last()[i] == s[i]);
                assert(p.contains(s[i]));
                let k = choose|k: int| 0 <= k < p.len() && p[k] == s[i];
                assert(a[k] == s[i]);
            } else {
                assert(a[a.len() - 1] == s[i]);
            }
        }
        lemma_visible(a, Filter::Completed);
        if visible(a, Filter::Completed).len() > 0 {
            let j = visible(a, Filter::Completed)[0];
            assert(Filter::Completed.shows(a[j]));
        }
    }
}

/// After the completed entries are cleared, no entry is completed, every
/// entry that was not completed is still there, and the count of completed
/// entries is zero.
pub proof fn lemma_clear_completed(s: StateView)
    ensures
        forall|i: int|
            0 <= i < s.completed_cleared().entries.len() ==> !(
            #[trigger] s.completed_cleared().entries[i]).completed,
        forall|i: int|
            0 <= i < s.entries.len() && !(#[trigger] s.entries[i]).completed
                ==> s.completed_cleared().entries.contains(s.entries[i]),
        s.completed_cleared().completed_count() == 0,
{
    lemma_active_entries(s.entries);
}

/// The toggle-all checkbox is checked exactly when the filter shows some
/// entry and every entry it shows is completed.
pub proof fn lemma_all_shown_completed(s: Seq<EntryView>, f: Filter)
    ensures
        all_shown_completed(s, f) <==> (exists|i: int| 0 <= i < s.len() && f.shows(#[trigger] s[i]))
            && (forall|i: int| 0 <= i < s.len() && f.shows(#[trigger] s[i]) ==> s[i].completed),
        f == Filter::Active ==> (all_shown_completed(s, f) <==> false),
{
    if f == Filter::Active && all_shown_completed(s, f) {
        let i = choose|i: int| 0 <= i < s.len() && f.shows(#[trigger] s[i]);
        assert(s[i].completed);
    }
}

/// The count of completed entries is the number of entries whose
/// `completed` flag is set.
pub proof fn lemma_completed_count(s: Seq<EntryView>)
    ensures
        visible(s, Filter::Completed).len() == s.filter(|e: EntryView| e.completed).len(),
    decreases s.len(),
{
    reveal(Seq::filter);
    if s.len() > 0 {
        lemma_completed_count(s.drop_last());
    }
}

/// Flipping the `idx`-th shown entry flips `completed` on that one entry (a
/// shown one) and on no other, and keeps every other field.
pub proof fn lemma_toggled(s: StateView, idx: int)
    requires
        0 <= idx < s.shown().len(),
    ensures
        0 <= s.slot(idx) < s.entries.len(),
        s.filter.shows(s.entries[s.slot(idx)]),
        s.toggled(idx).filter == s.filter,
        s.toggled(idx).edit_value == s.edit_value,
        s.toggled(idx).entries.len() == s.entries.len(),
        forall|k: int|
            0 <= k < s.entries.len() && k != s.slot(idx) ==> #[trigger] s.toggled(idx).entries[k]
                == s.entries[k],
        s.toggled(idx).entries[s.slot(idx)].completed == !s.entries[s.slot(idx)].completed,
        s.toggled(idx).entries[s.slot(idx)].id == s.entries[s.slot(idx)].id,
        s.toggled(idx).entries[s.slot(idx)].description == s.entries[s.slot(idx)].description,
        s.toggled(idx).entries[s.slot(idx)].editing == s.entries[s.slot(idx)].editing,
{
    lemma_visible(s.entries, s.filter);
}

/// Flipping edit mode on the `idx`-th shown entry flips `editing` on that one
/// entry and on no other, and keeps every other field.
pub proof fn lemma_edit_toggled(s: StateView, idx: int)
    requires
        0 <= idx < s.shown().len(),
    ensures
        0 <= s.slot(idx) < s.entries.len(),
        s.filter.shows(s.entries[s.slot(idx)]),
        s.edit_toggled(idx).filter == s.filter,
        s.edit_toggled(idx).edit_value == s.edit_value,
        s.edit_toggled(idx).entries.len() == s.entries.len(),
        forall|k: int|
            0 <= k < s.entries.len() && k != s.slot(idx) ==> #[trigger] s.edit_toggled(idx).entries[k]
                == s.entries[k],
        s.edit_toggled(idx).entries[s.slot(idx)].editing == !s.entries[s.slot(idx)].editing,
        s.edit_toggled(idx).entries[s.slot(idx)].id == s.entries[s.slot(idx)].id,
        s.edit_toggled(idx).entries[s.slot(idx)].description == s.entries[s.slot(idx)].description,
        s.edit_toggled(idx).entries[s.slot(idx)].completed == s.entries[s.slot(idx)].completed,
{
    lemma_visible(s.entries, s.filter);
}

/// Removing the `idx`-th shown entry drops exactly that one entry (a shown
/// one) and keeps the others in order.
pub proof fn lemma_removed(s: StateView, idx: int)
    requires
        0 <= idx < s.shown().len(),
    ensures
        0 <= s.slot(idx) < s.entries.len(),
        s.filter.shows(s.entries[s.slot(idx)]),
        s.removed(idx).filter == s.filter,
        s.removed(idx).edit_value == s.edit_value,
        s.removed(idx).entries.len() + 1 == s.entries.len(),
        forall|k: int| 0 <= k < s.slot(idx) ==> #[trigger] s.removed(idx).entries[k] == s.entries[k],
        forall|k: int|
            s.slot(idx) <= k < s.removed(idx).entries.len() ==> #[trigger] s.removed(idx).entries[k]
                == s.entries[k + 1],
{
    lemma_visible(s.entries, s.filter);
}

/// Finishing an edit with a text that is not empty sets the description of
/// the `idx`-th shown entry to the text and flips its edit mode, and changes
/// no other entry; with an empty text the entry is removed.
pub proof fn lemma_edit_completed(s: StateView, idx: int, val: Seq<char>)
    requires
        0 <= idx < s.shown().len(),
    ensures
        0 <= s.slot(idx) < s.entries.len(),
        s.filter.shows(s.entries[s.slot(idx)]),
        s.edit_completed(idx, val).filter == s.filter,
        s.edit_completed(idx, val).edit_value == s.edit_value,
        val.len() == 0 ==> s.edit_completed(idx, val) == s.removed(idx),
        val.len() > 0 ==> {
            &&& s.edit_completed(idx, val).entries.len() == s.entries.len()
            &&& forall|k: int|
                0 <= k < s.entries.len() && k != s.slot(idx) ==> #[trigger] s.edit_completed(
                    idx,
                    val,
                ).entries[k] == s.entries[k]
            &&& s.edit_completed(idx, val).entries[s.slot(idx)].description == val
            &&& s.edit_completed(idx, val).entries[s.slot(idx)].editing == !s.entries[s.slot(idx)].editing
            &&& s.edit_completed(idx, val).entries[s.slot(idx)].id == s.entries[s.slot(idx)].id
            &&& s.edit_completed(idx, val).entries[s.slot(idx)].completed
                == s.entries[s.slot(idx)].completed
        },
{
    lemma_visible(s.entries, s.filter);
}

/// Setting every shown entry to `value` sets `completed` to `value` on each
/// shown entry, keeps their other fields, and keeps every hidden entry.
pub proof fn lemma_all_set(s: StateView, value: bool)
    ensures
        s.all_set(value).filter == s.filter,
        s.all_set(value).edit_value == s.edit_value,
        s.all_set(value).entries.len() == s.entries.len(),
        forall|k: int|
            0 <= k < s.entries.len() && s.filter.shows(s.entries[k]) ==> {
                &&& (#[trigger] s.all_set(value).entries[k]).completed == value
                &&& s.all_set(value).entries[k].id == s.entries[k].id
                &&& s.all_set(value).entries[k].description == s.entries[k].description
                &&& s.all_set(value).entries[k].editing == s.entries[k].editing
            },
        forall|k: int|
            0 <= k < s.entries.len() && !s.filter.shows(s.entries[k]) ==> #[trigger] s.all_set(
                value,
            ).entries[k] == s.entries[k],
{
}

/// Leaving edit mode everywhere clears `editing` on every entry and keeps
/// every other field.
pub proof fn lemma_edits_cleared(s: StateView)
    ensures
        s.edits_cleared().filter == s.filter,
        s.edits_cleared().edit_value == s.edit_value,
        s.edits_cleared().entries.len() == s.entries.len(),
        forall|k: int|
            0 <= k < s.entries.len() ==> {
                &&& !(#[trigger] s.edits_cleared().entries[k]).editing
                &&& s.edits_cleared().entries[k].id == s.entries[k].id
                &&& s.edits_cleared().entries[k].description == s.entries[k].description
                &&& s.edits_cleared().entries[k].completed == s.entries[k].completed
            },
{
}

/// Dropping the completed entries keeps exactly the entries that are not
/// completed, in their order.
pub proof fn lemma_completed_cleared(s: StateView)
    ensures
        s.completed_cleared().filter == s.filter,
        s.completed_cleared().edit_value == s.edit_value,
        s.completed_cleared().entries == s.entries.filter(|e: EntryView| !e.completed),
{
    lemma_active_filter(s.entries);
}

proof fn lemma_active_filter(s: Seq<EntryView>)
    ensures
        active_entries(s) == s.filter(|e: EntryView| !e.completed),
    decreases s.len(),
{
    reveal(Seq::filter);
    if s.len() > 0 {
        lemma_active_filter(s.drop_last());
    }
}

/// `All` shows every entry, `Active` exactly the entries not completed,
/// `Completed` exactly the completed ones; their links and names are
/// `#/`/`All`, `#/active`/`Active` and `#/completed`/`Completed`.
pub proof fn lemma_filters(e: EntryView)
    ensures
        Filter::All.shows(e),
        Filter::Active.shows(e) == !e.completed,
        Filter::Completed.shows(e) == e.completed,
        Filter::All.href() == "#/"@,
        Filter::Active.href() == "#/active"@,
        Filter::Completed.href() == "#/completed"@,
        Filter::All.name() == "All"@,
        Filter::Active.name() == "Active"@,
        Filter::Completed.name() == "Completed"@,
{
}

} // verus!
