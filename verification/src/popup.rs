//! The modal dialogs. Each kind carries only the state it needs.

use crate::entry::{DraftView, EntryDraft};
use crate::filter::{filter_view, Filter, FilterView};
use crate::sorter::Sorter;
use vstd::prelude::*;

verus! {

/// What a message box is about.
#[derive(Debug, Clone, Copy, PartialEq, Eq, Structural)]
pub enum MsgBoxType {
    Error,
    Warning,
    Info,
    Question,
}

/// The answers that a message box offers.
#[derive(Debug, Clone, Copy, PartialEq, Eq, Structural)]
pub enum MsgBoxActions {
    Okay,
    OkCancel,
    YesNo,
    YesNoCancel,
}

/// The answer with which a message box closes.
#[derive(Debug, Clone, Copy, PartialEq, Eq, Structural)]
pub enum MsgBoxResult {
    /// The box was acknowledged.
    Okay,
    Cancel,
    Yes,
    No,
}

/// What an edit in progress holds.
pub struct BufferView {
    pub target: Option<u32>,
    pub draft: DraftView,
}

/// An edit in progress: the draft, and the id of the entry it edits. A
/// draft without such an id becomes a new entry when it is saved.
#[derive(Debug, Clone, PartialEq, Eq)]
pub struct EditBuffer {
    pub target: Option<u32>,
    pub draft: EntryDraft,
}

impl View for EditBuffer {
    type V = BufferView;

    open spec fn view(&self) -> BufferView {
        BufferView { target: self.target, draft: self.draft@ }
    }
}

impl EditBuffer {
    /// A copy of this edit.
    pub fn duplicate(&self) -> (r: Self)
        ensures
            r@ == self@,
    {
        EditBuffer { target: self.target, draft: self.draft.duplicate() }
    }
}

/// The view of an optional edit.
pub open spec fn buffer_view(buffer: Option<EditBuffer>) -> Option<BufferView> {
    match buffer {
        Some(b) => Some(b@),
        None => None,
    }
}

/// What a popup holds.
pub enum PopupView {
    Entry(BufferView),
    Filter { tags: Seq<Seq<char>>, filter: Option<FilterView> },
    Sort { sorter: Sorter },
    FuzzFind { entries: Seq<(u32, Seq<char>)> },
    Export { entry_id: u32, path: Seq<char> },
    MsgBox { kind: MsgBoxType, text: Seq<char>, actions: MsgBoxActions },
}

/// The ids and titles of a fuzzy finder, in order.
pub open spec fn title_views(s: Seq<(u32, String)>) -> Seq<(u32, Seq<char>)> {
    s.map_values(|p: (u32, String)| (p.0, p.1@))
}

/// A modal dialog.
#[derive(Debug, Clone, PartialEq, Eq)]
pub enum Popup {
    /// The editor of an entry's fields, for a new entry or an existing one.
    Entry(EditBuffer),
    /// The editor of the filter, with every known tag to choose from.
    Filter { tags: Vec<String>, filter: Option<Filter> },
    /// The editor of the sort order.
    Sort { sorter: Sorter },
    /// The fuzzy finder over the ids and titles of the active view.
    FuzzFind { entries: Vec<(u32, String)> },
    /// The export dialog for one entry, with the path it proposes.
    Export { entry_id: u32, path: String },
    /// A confirmation or an error message.
    MsgBox { kind: MsgBoxType, text: String, actions: MsgBoxActions },
}

impl View for Popup {
    type V = PopupView;

    open spec fn view(&self) -> PopupView {
        match self {
            Popup::Entry(b) => PopupView::Entry(b@),
            Popup::Filter { tags, filter } => PopupView::Filter {
                tags: tags.deep_view(),
                filter: filter_view(*filter),
            },
            Popup::Sort { sorter } => PopupView::Sort { sorter: *sorter },
            Popup::FuzzFind { entries } => PopupView::FuzzFind { entries: title_views(entries@) },
            Popup::Export { entry_id, path } => PopupView::Export {
                entry_id: *entry_id,
                path: path@,
            },
            Popup::MsgBox { kind, text, actions } => PopupView::MsgBox {
                kind: *kind,
                text: text@,
                actions: *actions,
            },
        }
    }
}

/// The views of a stack of popups, bottom first.
pub open spec fn popup_views(s: Seq<Popup>) -> Seq<PopupView> {
    s.map_values(|p: Popup| p@)
}

} // verus!
