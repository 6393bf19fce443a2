//! The application state: the entries in memory, the filter, the sorter and
//! the selected entry, with the navigation over the active view.

use crate::active::{active_view, arrange_entries, borrowed_views, ids_of};
use crate::entry::{entry_views, Entry, EntryDate, EntryView};
use crate::filter::{filter_view, Filter, FilterView};
use crate::settings::{Settings, SettingsView};
use crate::sorter::Sorter;
use crate::state::AppState;
use crate::tags::{all_tags, collect_tags, find_tag_slot, tag_at_slot, tag_slot};
use vstd::prelude::*;

verus! {

/// `i` is the first position in `v` of an entry with the id `id`.
pub open spec fn is_first_with_id(v: Seq<EntryView>, id: u32, i: int) -> bool {
    &&& 0 <= i < v.len()
    &&& v[i].id == id
    &&& forall|k: int| 0 <= k < i ==> (#[trigger] v[k]).id != id
}

/// The first position in `v` of an entry with the id `id`, if there is one.
pub open spec fn index_of_id(v: Seq<EntryView>, id: u32) -> Option<int> {
    if exists|i: int| is_first_with_id(v, id, i) {
        Some(choose|i: int| is_first_with_id(v, id, i))
    } else {
        None
    }
}

/// The position that a step of `step` entries forward from `i` reaches in a
/// view of `len` entries: it stops at the last entry.
pub open spec fn forward_from(i: int, step: int, len: int) -> int {
    if i + step < len {
        i + step
    } else {
        len - 1
    }
}

/// The position that a step of `step` entries back from `i` reaches: it
/// stops at the first entry.
pub open spec fn back_from(i: int, step: int) -> int {
    if i - step > 0 {
        i - step
    } else {
        0
    }
}

/// The tag that follows the selected tags in the cycle over `all`: the tag
/// after the selected one where exactly one known tag is selected, going
/// round at the end, and the first tag otherwise.
pub open spec fn next_tag(all: Seq<Seq<char>>, selected: Seq<Seq<char>>) -> Seq<char>
    recommends
        all.len() > 0,
{
    if selected.len() == 1 && tag_at_slot(all, selected[0]) && tag_slot(all, selected[0]) + 1
        < all.len() {
        all[tag_slot(all, selected[0]) + 1]
    } else {
        all[0]
    }
}

/// What the application state holds.
pub struct AppView {
    pub entries: Seq<EntryView>,
    pub current_entry_id: Option<u32>,
    pub filter: Option<FilterView>,
    pub state: AppState,
    pub settings: SettingsView,
    pub redraw_after_restore: bool,
    pub clock: EntryDate,
}

impl AppView {
    /// The active view: the entries that pass the filter, in sorted order.
    pub open spec fn active(self) -> Seq<EntryView> {
        active_view(self.entries, self.filter, self.state.sorter)
    }

    /// Whether an entry with this id is in the active view.
    pub open spec fn visible(self, id: u32) -> bool {
        index_of_id(self.active(), id) is Some
    }

    /// The state with a selection that points into the active view: a
    /// selected entry that the view no longer holds is deselected.
    pub open spec fn settled(self) -> AppView {
        AppView {
            current_entry_id: match self.current_entry_id {
                Some(id) => if self.visible(id) {
                    Some(id)
                } else {
                    None
                },
                None => None,
            },
            ..self
        }
    }

    /// The state after selecting `id`; an id that the active view does not
    /// hold selects nothing.
    pub open spec fn selected(self, id: Option<u32>) -> AppView {
        (AppView { current_entry_id: id, ..self }).settled()
    }

    /// The selected entry as the store holds it.
    pub open spec fn current_entry(self) -> Option<EntryView> {
        match self.current_entry_id {
            Some(id) => match index_of_id(self.entries, id) {
                Some(i) => Some(self.entries[i]),
                None => None,
            },
            None => None,
        }
    }

    /// The position of the selected entry in the active view.
    pub open spec fn current_index(self) -> Option<int> {
        match self.current_entry_id {
            Some(id) => index_of_id(self.active(), id),
            None => None,
        }
    }

    /// The state with the entry at position `i` of the active view selected.
    pub open spec fn moved_to(self, i: int) -> AppView {
        AppView { current_entry_id: Some(self.active()[i].id), ..self }
    }

    /// The state after a step forward. Without a selection nothing moves.
    pub open spec fn stepped_forward(self, step: int) -> AppView {
        match self.current_index() {
            Some(i) => self.moved_to(forward_from(i, step, self.active().len() as int)),
            None => self,
        }
    }

    /// The state after a step back. Without a selection nothing moves.
    pub open spec fn stepped_back(self, step: int) -> AppView {
        match self.current_index() {
            Some(i) => self.moved_to(back_from(i, step)),
            None => self,
        }
    }

    /// The state with the first entry of the active view selected; an empty
    /// view changes nothing.
    pub open spec fn at_top(self) -> AppView {
        if self.active().len() > 0 {
            self.moved_to(0)
        } else {
            self
        }
    }

    /// The state with the last entry of the active view selected; an empty
    /// view changes nothing.
    pub open spec fn at_bottom(self) -> AppView {
        if self.active().len() > 0 {
            self.moved_to(self.active().len() - 1)
        } else {
            self
        }
    }

    /// The state under another filter.
    pub open spec fn with_filter(self, filter: Option<FilterView>) -> AppView {
        (AppView { filter, ..self }).settled()
    }

    /// The state under another sorter.
    pub open spec fn with_sorter(self, sorter: Sorter) -> AppView {
        (AppView { state: AppState { sorter, ..self.state }, ..self }).settled()
    }

    /// The free text of the filter; empty without a filter.
    pub open spec fn filter_text(self) -> Seq<char> {
        match self.filter {
            Some(f) => f.text,
            None => Seq::empty(),
        }
    }

    /// The selected tags of the filter; none without a filter.
    pub open spec fn filter_tags(self) -> Seq<Seq<char>> {
        match self.filter {
            Some(f) => f.tags,
            None => Seq::empty(),
        }
    }

    /// The state after one step of the tag cycle: the filter selects the
    /// next known tag alone and keeps its text. A journal without tags
    /// stays as it is.
    pub open spec fn cycled(self) -> AppView {
        let all = all_tags(self.entries);
        if all.len() == 0 {
            self
        } else {
            self.with_filter(
                Some(
                    FilterView {
                        tags: seq![next_tag(all, self.filter_tags())],
                        text: self.filter_text(),
                    },
                ),
            )
        }
    }

    /// The entries with `e` in the place of the stored entry of the same
    /// id, or at the end where there is none.
    pub open spec fn entries_with(self, e: EntryView) -> Seq<EntryView> {
        match index_of_id(self.entries, e.id) {
            Some(i) => self.entries.update(i, e),
            None => self.entries.push(e),
        }
    }

    /// The state after storage has handed back `e`: the store holds it and
    /// it is selected if the active view shows it.
    pub open spec fn stored(self, e: EntryView) -> AppView {
        let kept = AppView { entries: self.entries_with(e), ..self };
        if kept.visible(e.id) {
            AppView { current_entry_id: Some(e.id), ..kept }
        } else {
            kept.settled()
        }
    }

    /// The state after storage has removed the entry `id`: the store no
    /// longer holds it, and it is deselected if it was selected.
    pub open spec fn without(self, id: u32) -> AppView {
        match index_of_id(self.entries, id) {
            Some(i) => (AppView { entries: self.entries.remove(i), ..self }).settled(),
            None => self,
        }
    }

    /// The invariant of the application state: no two stored entries share
    /// an id, and the selected entry is in the active view.
    pub open spec fn well_formed(self) -> bool {
        &&& ids_of(self.entries).no_duplicates()
        &&& self.current_entry_id is Some ==> self.visible(self.current_entry_id->Some_0)
    }
}

/// The application state of one session.
#[derive(Debug, Clone, PartialEq, Eq)]
pub struct App {
    /// The entries of the journal as storage last reported them.
    pub entries: Vec<Entry>,
    /// The selected entry.
    pub current_entry_id: Option<u32>,
    /// The filter in force; `None` shows every entry.
    pub filter: Option<Filter>,
    pub state: AppState,
    pub settings: Settings,
    /// Set when the screen must be drawn anew once the terminal is back.
    pub redraw_after_restore: bool,
    /// The time of the session; the host sets it before it hands a command on.
    pub clock: EntryDate,
}

impl View for App {
    type V = AppView;

    open spec fn view(&self) -> AppView {
        AppView {
            entries: entry_views(self.entries@),
            current_entry_id: self.current_entry_id,
            filter: filter_view(self.filter),
            state: self.state,
            settings: self.settings@,
            redraw_after_restore: self.redraw_after_restore,
            clock: self.clock,
        }
    }
}

/// An id has one first position only.
pub proof fn lemma_index_of_id(v: Seq<EntryView>, id: u32, i: int)
    requires
        is_first_with_id(v, id, i),
    ensures
        index_of_id(v, id) == Some(i),
{
    let c = choose|c: int| is_first_with_id(v, id, c);
    if c < i {
        assert(v[c].id != id);
    } else if i < c {
        assert(v[i].id != id);
    }
}

/// Where some entry of `v` has the id `id`, there is a first one.
pub proof fn lemma_some_index_of_id(v: Seq<EntryView>, id: u32, i: int)
    requires
        0 <= i < v.len(),
        v[i].id == id,
    ensures
        index_of_id(v, id) is Some,
        0 <= index_of_id(v, id)->Some_0 <= i,
        v[index_of_id(v, id)->Some_0].id == id,
    decreases i,
{
    if exists|k: int| 0 <= k < i && (#[trigger] v[k]).id == id {
        let k = choose|k: int| 0 <= k < i && (#[trigger] v[k]).id == id;
        lemma_some_index_of_id(v, id, k);
    } else {
        lemma_index_of_id(v, id, i);
    }
}

/// What `index_of_id` finds is a first position of the id.
pub proof fn lemma_index_of_id_found(v: Seq<EntryView>, id: u32)
    ensures
        match index_of_id(v, id) {
            Some(i) => is_first_with_id(v, id, i),
            None => forall|k: int| 0 <= k < v.len() ==> (#[trigger] v[k]).id != id,
        },
{
    if index_of_id(v, id) is None {
        assert forall|k: int| 0 <= k < v.len() implies (#[trigger] v[k]).id != id by {
            if v[k].id == id {
                lemma_some_index_of_id(v, id, k);
            }
        }
    }
}

impl AppView {
    /// Settling keeps the store and makes the selection point into the
    /// active view.
    pub proof fn lemma_settled(self)
        requires
            ids_of(self.entries).no_duplicates(),
        ensures
            self.settled().well_formed(),
            self.well_formed() ==> self.settled() == self,
    {
        assert(self.settled().active() == self.active());
    }

    /// Selecting the entry at a position of the active view keeps the
    /// invariant.
    pub proof fn lemma_moved_to(self, i: int)
        requires
            ids_of(self.entries).no_duplicates(),
            0 <= i < self.active().len(),
        ensures
            self.moved_to(i).well_formed(),
    {
        assert(self.moved_to(i).active() == self.active());
        lemma_some_index_of_id(self.active(), self.active()[i].id, i);
    }

    /// Navigation keeps the invariant: whatever the step, the selection
    /// lands on an entry of the active view, and on none where the view is
    /// empty.
    pub proof fn lemma_navigation(self, step: int)
        requires
            self.well_formed(),
            step >= 0,
        ensures
            self.stepped_forward(step).well_formed(),
            self.stepped_back(step).well_formed(),
            self.at_top().well_formed(),
            self.at_bottom().well_formed(),
            self.active().len() == 0 ==> self.current_entry_id is None,
    {
        if self.current_index() is Some {
            let i = self.current_index()->Some_0;
            lemma_index_of_id_found(self.active(), self.current_entry_id->Some_0);
            self.lemma_moved_to(forward_from(i, step, self.active().len() as int));
            self.lemma_moved_to(back_from(i, step));
        }
        if self.active().len() > 0 {
            self.lemma_moved_to(0);
            self.lemma_moved_to(self.active().len() - 1);
        }
        if self.current_entry_id is Some {
            lemma_index_of_id_found(self.active(), self.current_entry_id->Some_0);
        }
    }

    /// At the last entry a step forward stays there, and at the first entry
    /// a step back stays there.
    pub proof fn lemma_navigation_stops_at_the_ends(self, step: int)
        requires
            step >= 0,
            self.current_index() is Some,
        ensures
            self.current_index() == Some(self.active().len() - 1) ==> self.stepped_forward(step)
                == self,
            self.current_index() == Some(0int) ==> self.stepped_back(step) == self,
    {
        lemma_index_of_id_found(self.active(), self.current_entry_id->Some_0);
    }

    /// A change of filter or sorter, and a step of the tag cycle, keep the
    /// invariant.
    pub proof fn lemma_view_changes(self, filter: Option<FilterView>, sorter: Sorter, id: Option<u32>)
        requires
            self.well_formed(),
        ensures
            self.with_filter(filter).well_formed(),
            self.with_sorter(sorter).well_formed(),
            self.selected(id).well_formed(),
            self.cycled().well_formed(),
    {
        (AppView { filter, ..self }).lemma_settled();
        (AppView { state: AppState { sorter, ..self.state }, ..self }).lemma_settled();
        (AppView { current_entry_id: id, ..self }).lemma_settled();
        let all = all_tags(self.entries);
        if all.len() > 0 {
            let f = Some(
                FilterView { tags: seq![next_tag(all, self.filter_tags())], text: self.filter_text() },
            );
            (AppView { filter: f, ..self }).lemma_settled();
        }
    }

    /// Taking in an entry from storage keeps the ids of the store distinct
    /// and the invariant.
    pub proof fn lemma_stored(self, e: EntryView)
        requires
            ids_of(self.entries).no_duplicates(),
        ensures
            self.stored(e).well_formed(),
            index_of_id(self.stored(e).entries, e.id) is Some,
            self.stored(e).entries[index_of_id(self.stored(e).entries, e.id)->Some_0] == e,
    {
        let w = self.entries_with(e);
        lemma_index_of_id_found(self.entries, e.id);
        assert forall|a: int, b: int| 0 <= a < w.len() && 0 <= b < w.len() && a != b implies ids_of(
            w,
        )[a] != ids_of(w)[b] by {
            if a < self.entries.len() && b < self.entries.len() {
                assert(ids_of(self.entries)[a] != ids_of(self.entries)[b]);
            }
        }
        let kept = AppView { entries: w, ..self };
        kept.lemma_settled();
        let at = match index_of_id(self.entries, e.id) {
            Some(i) => i,
            None => self.entries.len() as int,
        };
        assert(w[at] == e);
        lemma_some_index_of_id(w, e.id, at);
        let found = index_of_id(w, e.id)->Some_0;
        assert(ids_of(w)[found] == ids_of(w)[at]);
    }

    /// Dropping an entry keeps the ids of the store distinct and the
    /// invariant, and no entry with that id is left.
    pub proof fn lemma_without(self, id: u32)
        requires
            self.well_formed(),
        ensures
            self.without(id).well_formed(),
            index_of_id(self.without(id).entries, id) is None,
    {
        lemma_index_of_id_found(self.entries, id);
        match index_of_id(self.entries, id) {
            Some(i) => {
                let w = self.entries.remove(i);
                assert forall|a: int, b: int|
                    0 <= a < w.len() && 0 <= b < w.len() && a != b implies ids_of(w)[a] != ids_of(
                    w,
                )[b] by {
                    let ra = if a < i { a } else { a + 1 };
                    let rb = if b < i { b } else { b + 1 };
                    assert(ids_of(self.entries)[ra] != ids_of(self.entries)[rb]);
                }
                (AppView { entries: w, ..self }).lemma_settled();
                assert forall|k: int| 0 <= k < w.len() implies (#[trigger] w[k]).id != id by {
                    let rk = if k < i { k } else { k + 1 };
                    assert(ids_of(self.entries)[rk] != ids_of(self.entries)[i]);
                }
                if index_of_id(w, id) is Some {
                    lemma_index_of_id_found(w, id);
                }
            },
            None => {},
        }
    }
}

/// Finds the first entry with the id `id` among borrowed entries.
pub fn position_of(v: &Vec<&Entry>, id: u32) -> (r: Option<usize>)
    ensures
        match r {
            Some(i) => index_of_id(borrowed_views(v@), id) == Some(i as int),
            None => index_of_id(borrowed_views(v@), id) is None,
        },
{
    let mut i: usize = 0;
    while i < v.len()
        invariant
            i <= v.len(),
            forall|k: int| 0 <= k < i ==> (#[trigger] borrowed_views(v@)[k]).id != id,
        decreases v.len() - i,
    {
        if v[i].id == id {
            proof {
                lemma_index_of_id(borrowed_views(v@), id, i as int);
            }
            return Some(i);
        }
        i += 1;
    }
    None
}

/// Finds the first entry with the id `id` in the store.
pub fn stored_position_of(v: &Vec<Entry>, id: u32) -> (r: Option<usize>)
    ensures
        match r {
            Some(i) => index_of_id(entry_views(v@), id) == Some(i as int),
            None => index_of_id(entry_views(v@), id) is None,
        },
{
    let mut i: usize = 0;
    while i < v.len()
        invariant
            i <= v.len(),
            forall|k: int| 0 <= k < i ==> (#[trigger] entry_views(v@)[k]).id != id,
        decreases v.len() - i,
    {
        if v[i].id == id {
            proof {
                lemma_index_of_id(entry_views(v@), id, i as int);
            }
            return Some(i);
        }
        i += 1;
    }
    None
}

/// Decides whether no two of the entries share an id.
pub fn have_distinct_ids(entries: &Vec<Entry>) -> (r: bool)
    ensures
        r == ids_of(entry_views(entries@)).no_duplicates(),
{
    let ghost ids = ids_of(entry_views(entries@));
    let mut i: usize = 0;
    while i < entries.len()
        invariant
            i <= entries.len(),
            ids == ids_of(entry_views(entries@)),
            forall|a: int, b: int| 0 <= a < b < i ==> ids[a] != ids[b],
        decreases entries.len() - i,
    {
        let mut k: usize = 0;
        while k < i
            invariant
                k <= i < entries.len(),
                ids == ids_of(entry_views(entries@)),
                forall|a: int| 0 <= a < k ==> ids[a] != ids[i as int],
            decreases i - k,
        {
            if entries[k].id == entries[i].id {
                assert(ids[k as int] == ids[i as int]);
                return false;
            }
            k += 1;
        }
        i += 1;
    }
    assert forall|a: int, b: int| 0 <= a < ids.len() && 0 <= b < ids.len() && a != b implies ids[a]
        != ids[b] by {
        if a < b {
            assert(ids[a] != ids[b]);
        } else {
            assert(ids[b] != ids[a]);
        }
    }
    true
}

impl App {
    /// A session without entries, filter or selection.
    pub fn new(settings: Settings, state: AppState, clock: EntryDate) -> (r: Self)
        ensures
            r@ == (AppView {
                entries: Seq::empty(),
                current_entry_id: None,
                filter: None,
                state,
                settings: settings@,
                redraw_after_restore: false,
                clock,
            }),
            r@.well_formed(),
    {
        let r = App {
            entries: Vec::new(),
            current_entry_id: None,
            filter: None,
            state,
            settings,
            redraw_after_restore: false,
            clock,
        };
        assert(entry_views(r.entries@) =~= Seq::empty());
        r
    }

    /// Takes in the entries that storage holds, in place of those held so
    /// far. Entries of which two share an id are refused and change nothing.
    pub fn load_entries(&mut self, entries: Vec<Entry>) -> (r: bool)
        ensures
            r == ids_of(entry_views(entries@)).no_duplicates(),
            r ==> final(self)@ == (AppView { entries: entry_views(entries@), ..old(self)@ }).settled(),
            !r ==> final(self)@ == old(self)@,
            r ==> final(self)@.well_formed(),
    {
        if !have_distinct_ids(&entries) {
            return false;
        }
        proof {
            (AppView { entries: entry_views(entries@), ..self@ }).lemma_settled();
        }
        self.entries = entries;
        self.settle();
        true
    }

    /// The active view, computed from the store, the filter and the sorter
    /// as they are now.
    pub fn get_active_entries(&self) -> (r: Vec<&Entry>)
        ensures
            borrowed_views(r@) == self@.active(),
    {
        arrange_entries(&self.entries, &self.filter, &self.state.sorter)
    }

    /// Whether the active view holds an entry with this id.
    pub fn is_visible(&self, id: u32) -> (r: bool)
        ensures
            r == self@.visible(id),
    {
        let view = self.get_active_entries();
        position_of(&view, id).is_some()
    }

    /// The selected entry as the store holds it.
    pub fn get_current_entry(&self) -> (r: Option<&Entry>)
        ensures
            match r {
                Some(e) => self@.current_entry() == Some(e@),
                None => self@.current_entry() is None,
            },
    {
        match self.current_entry_id {
            Some(id) => match stored_position_of(&self.entries, id) {
                Some(i) => Some(&self.entries[i]),
                None => None,
            },
            None => None,
        }
    }

    /// Every tag of every entry, once, in dictionary order.
    pub fn get_all_tags(&self) -> (r: Vec<String>)
        ensures
            r.deep_view() == all_tags(self@.entries),
    {
        collect_tags(&self.entries)
    }

    /// Deselects a selected entry that the active view no longer holds.
    pub fn settle(&mut self)
        ensures
            final(self)@ == old(self)@.settled(),
            ids_of(old(self)@.entries).no_duplicates() ==> final(self)@.well_formed(),
    {
        proof {
            if ids_of(self@.entries).no_duplicates() {
                self@.lemma_settled();
            }
        }
        let keep = match self.current_entry_id {
            Some(id) => self.is_visible(id),
            None => false,
        };
        if !keep {
            self.current_entry_id = None;
        }
    }

    /// Selects `id`; an id that the active view does not hold selects
    /// nothing.
    pub fn select(&mut self, id: Option<u32>)
        ensures
            final(self)@ == old(self)@.selected(id),
            old(self)@.well_formed() ==> final(self)@.well_formed(),
    {
        proof {
            if self@.well_formed() {
                self@.lemma_view_changes(None, self.state.sorter, id);
            }
        }
        self.current_entry_id = id;
        self.settle();
    }

    /// Moves the selection `step` entries forward and stops at the last
    /// entry. Without a selection nothing moves.
    pub fn step_forward(&mut self, step: usize)
        ensures
            final(self)@ == old(self)@.stepped_forward(step as int),
            old(self)@.well_formed() ==> final(self)@.well_formed(),
    {
        proof {
            if self@.well_formed() {
                self@.lemma_navigation(step as int);
            }
        }
        let target = match self.current_entry_id {
            Some(id) => {
                let view = self.get_active_entries();
                match position_of(&view, id) {
                    Some(i) => {
                        let last = view.len() - 1;
                        let to = if step < view.len() - i {
                            i + step
                        } else {
                            last
                        };
                        Some(view[to].id)
                    },
                    None => None,
                }
            },
            None => None,
        };
        if target.is_some() {
            self.current_entry_id = target;
        }
    }

    /// Moves the selection `step` entries back and stops at the first
    /// entry. Without a selection nothing moves.
    pub fn step_back(&mut self, step: usize)
        ensures
            final(self)@ == old(self)@.stepped_back(step as int),
            old(self)@.well_formed() ==> final(self)@.well_formed(),
    {
        proof {
            if self@.well_formed() {
                self@.lemma_navigation(step as int);
            }
        }
        let target = match self.current_entry_id {
            Some(id) => {
                let view = self.get_active_entries();
                match position_of(&view, id) {
                    Some(i) => {
                        let to = if step < i {
                            i - step
                        } else {
                            0
                        };
                        Some(view[to].id)
                    },
                    None => None,
                }
            },
            None => None,
        };
        if target.is_some() {
            self.current_entry_id = target;
        }
    }

    /// Selects the first entry of the active view, if there is one.
    pub fn go_to_top(&mut self)
        ensures
            final(self)@ == old(self)@.at_top(),
            old(self)@.well_formed() ==> final(self)@.well_formed(),
    {
        proof {
            if self@.well_formed() {
                self@.lemma_navigation(0);
            }
        }
        let target = {
            let view = self.get_active_entries();
            if view.len() > 0 {
                Some(view[0].id)
            } else {
                None
            }
        };
        if target.is_some() {
            self.current_entry_id = target;
        }
    }

    /// Selects the last entry of the active view, if there is one.
    pub fn go_to_bottom(&mut self)
        ensures
            final(self)@ == old(self)@.at_bottom(),
            old(self)@.well_formed() ==> final(self)@.well_formed(),
    {
        proof {
            if self@.well_formed() {
                self@.lemma_navigation(0);
            }
        }
        let target = {
            let view = self.get_active_entries();
            if view.len() > 0 {
                Some(view[view.len() - 1].id)
            } else {
                None
            }
        };
        if target.is_some() {
            self.current_entry_id = target;
        }
    }

    /// Puts another filter in force; `None` shows every entry again.
    pub fn apply_filter(&mut self, filter: Option<Filter>)
        ensures
            final(self)@ == old(self)@.with_filter(filter_view(filter)),
            old(self)@.well_formed() ==> final(self)@.well_formed(),
    {
        proof {
            if self@.well_formed() {
                self@.lemma_view_changes(filter_view(filter), self.state.sorter, None);
            }
        }
        self.filter = filter;
        self.settle();
    }

    /// Puts another sorter in force.
    pub fn apply_sorter(&mut self, sorter: Sorter)
        ensures
            final(self)@ == old(self)@.with_sorter(sorter),
            old(self)@.well_formed() ==> final(self)@.well_formed(),
    {
        proof {
            if self@.well_formed() {
                self@.lemma_view_changes(None, sorter, None);
            }
        }
        self.state.sorter = sorter;
        self.settle();
    }

    /// Advances the tag cycle by one: the filter selects the next known tag
    /// alone and keeps its text.
    pub fn cycle_tags_in_filter(&mut self)
        ensures
            final(self)@ == old(self)@.cycled(),
            old(self)@.well_formed() ==> final(self)@.well_formed(),
    {
        proof {
            if self@.well_formed() {
                self@.lemma_view_changes(None, self.state.sorter, None);
            }
        }
        let all = self.get_all_tags();
        if all.len() == 0 {
            return ;
        }
        let (next, text) = match &self.filter {
            Some(f) => {
                let mut at: usize = 0;
                if f.tags.len() == 1 {
                    let j = find_tag_slot(&all, &f.tags[0]);
                    assert(f.tags.deep_view()[0] == f.tags[0]@);
                    if j < all.len() && all[j] == f.tags[0] {
                        assert(all.deep_view()[j as int] == all[j as int]@);
                        at = if j + 1 < all.len() {
                            j + 1
                        } else {
                            0
                        };
                    } else if j < all.len() {
                        assert(all.deep_view()[j as int] == all[j as int]@);
                    }
                }
                assert(all.deep_view()[at as int] == all[at as int]@);
                (all[at].clone(), f.text.clone())
            },
            None => {
                assert(all.deep_view()[0] == all[0]@);
                (all[0].clone(), String::new())
            },
        };
        let mut tags: Vec<String> = Vec::new();
        tags.push(next);
        assert(tags.deep_view() =~= seq![next@]);
        self.apply_filter(Some(Filter { tags, text }));
    }

    /// Takes in an entry that storage has handed back: it replaces the
    /// stored entry of the same id, or joins the store, and is selected if
    /// the active view shows it.
    pub fn store_entry(&mut self, entry: Entry)
        ensures
            final(self)@ == old(self)@.stored(entry@),
            old(self)@.well_formed() ==> final(self)@.well_formed(),
    {
        proof {
            if self@.well_formed() {
                self@.lemma_stored(entry@);
            }
        }
        let id = entry.id;
        let ghost before = entry_views(self.entries@);
        match stored_position_of(&self.entries, id) {
            Some(i) => {
                self.entries.remove(i);
                self.entries.insert(i, entry);
                assert(entry_views(self.entries@) =~= before.update(i as int, entry@));
            },
            None => {
                self.entries.push(entry);
                assert(entry_views(self.entries@) =~= before.push(entry@));
            },
        }
        if self.is_visible(id) {
            self.current_entry_id = Some(id);
        } else {
            self.settle();
        }
    }

    /// Drops the entry that storage has removed, and deselects it if it was
    /// selected.
    pub fn drop_entry(&mut self, id: u32)
        ensures
            final(self)@ == old(self)@.without(id),
            old(self)@.well_formed() ==> final(self)@.well_formed(),
    {
        proof {
            if self@.well_formed() {
                self@.lemma_without(id);
            }
        }
        let ghost before = entry_views(self.entries@);
        match stored_position_of(&self.entries, id) {
            Some(i) => {
                self.entries.remove(i);
                assert(entry_views(self.entries@) =~= before.remove(i as int));
                self.settle();
            },
            None => {},
        }
    }
}

} // verus!
