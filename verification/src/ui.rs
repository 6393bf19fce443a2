//! The state of the interface that commands act on: the stack of popups,
//! the edit in progress, and the command that waits for an answer.

use crate::popup::{
    buffer_view, popup_views, BufferView, EditBuffer, MsgBoxActions, MsgBoxType, Popup, PopupView,
};
use vstd::prelude::*;
use vstd::string::StringExecFns;

verus! {

/// The question that guards an edit in progress.
pub const UNSAVED_QUESTION: &'static str = "Do you want to save the changes?";

/// The commands of the entries list.
#[derive(Debug, Clone, Copy, PartialEq, Eq, Structural)]
pub enum UICommand {
    SelectedPrevEntry,
    SelectedNextEntry,
    CreateEntry,
    EditCurrentEntry,
    DeleteCurrentEntry,
    ExportEntryContent,
    EditInExternalEditor,
    ShowFilter,
    ResetFilter,
    CycleTagFilter,
    ShowFuzzyFind,
    ToggleFullScreenMode,
    ShowSortOptions,
}

/// The part of the screen that has the focus.
#[derive(Debug, Clone, Copy, PartialEq, Eq, Structural)]
pub enum ControlType {
    EntriesList,
    EntryContentTxt,
}

/// What the interface state holds.
pub struct UiView {
    pub popups: Seq<PopupView>,
    pub buffer: Option<BufferView>,
    pub active_control: ControlType,
    pub pending_command: Option<UICommand>,
}

impl UiView {
    /// The state with `popup` on top of the stack.
    pub open spec fn pushed(self, popup: PopupView) -> UiView {
        UiView { popups: self.popups.push(popup), ..self }
    }

    /// The state with the top popup closed.
    pub open spec fn popped(self) -> UiView {
        UiView { popups: self.popups.drop_last(), ..self }
    }

    /// The state with a message box on top and `pending` parked behind it.
    pub open spec fn asking(
        self,
        kind: MsgBoxType,
        text: Seq<char>,
        actions: MsgBoxActions,
        pending: Option<UICommand>,
    ) -> UiView {
        UiView {
            popups: self.popups.push(PopupView::MsgBox { kind, text, actions }),
            pending_command: pending,
            ..self
        }
    }

    /// The state that asks whether the edit in progress is to be saved.
    pub open spec fn asking_to_save(self, pending: Option<UICommand>) -> UiView {
        self.asking(MsgBoxType::Question, UNSAVED_QUESTION@, MsgBoxActions::YesNoCancel, pending)
    }

    /// The state that shows an error. No command waits behind an error.
    pub open spec fn with_error(self, text: Seq<char>) -> UiView {
        self.asking(MsgBoxType::Error, text, MsgBoxActions::Okay, None)
    }

    /// The invariant of the interface state: a command waits only behind a
    /// message box that is the top popup.
    pub open spec fn well_formed(self) -> bool {
        self.pending_command is Some ==> self.popups.len() > 0 && self.popups.last() is MsgBox
    }

    /// The state in which no command waits for an answer.
    pub open spec fn idle(self) -> UiView {
        UiView { pending_command: None, ..self }
    }

    /// The state without an edit in progress.
    pub open spec fn discarded(self) -> UiView {
        UiView { buffer: None, ..self }
    }

    /// The state after the entry popup on top has been accepted: the popup
    /// is closed and its draft is the edit in progress. Another popup on
    /// top, or none, leaves the state as it is.
    pub open spec fn accepted(self) -> UiView {
        if self.popups.len() > 0 && self.popups.last() is Entry {
            UiView { popups: self.popups.drop_last(), buffer: Some(self.popups.last()->Entry_0), ..self }
        } else {
            self
        }
    }
}

/// The interface state of one session.
#[derive(Debug, Clone, PartialEq, Eq)]
pub struct UIComponents {
    /// The open popups, bottom first; only the last one takes input.
    pub popup_stack: Vec<Popup>,
    /// The edit in progress; its presence is what "unsaved changes" means.
    pub edit_buffer: Option<EditBuffer>,
    pub active_control: ControlType,
    /// The command that waits for the answer of the message box on top.
    pub pending_command: Option<UICommand>,
}

impl View for UIComponents {
    type V = UiView;

    open spec fn view(&self) -> UiView {
        UiView {
            popups: popup_views(self.popup_stack@),
            buffer: buffer_view(self.edit_buffer),
            active_control: self.active_control,
            pending_command: self.pending_command,
        }
    }
}

impl UIComponents {
    /// An interface without popups, edit or waiting command.
    pub fn new() -> (r: Self)
        ensures
            r@ == (UiView {
                popups: Seq::empty(),
                buffer: None,
                active_control: ControlType::EntriesList,
                pending_command: None,
            }),
            r@.well_formed(),
    {
        let r = UIComponents {
            popup_stack: Vec::new(),
            edit_buffer: None,
            active_control: ControlType::EntriesList,
            pending_command: None,
        };
        assert(popup_views(r.popup_stack@) =~= Seq::empty());
        r
    }

    /// Whether an edit is in progress.
    pub fn has_unsaved(&self) -> (r: bool)
        ensures
            r == (self@.buffer is Some),
    {
        self.edit_buffer.is_some()
    }

    /// Opens `popup` on top of the stack.
    pub fn push_popup(&mut self, popup: Popup)
        ensures
            final(self)@ == old(self)@.pushed(popup@),
    {
        let ghost before = popup_views(self.popup_stack@);
        self.popup_stack.push(popup);
        assert(popup_views(self.popup_stack@) =~= before.push(popup@));
    }

    /// Closes the top popup and hands it out.
    pub fn pop_popup(&mut self) -> (r: Option<Popup>)
        ensures
            match r {
                Some(p) => old(self)@.popups.len() > 0 && p@ == old(self)@.popups.last()
                    && final(self)@ == old(self)@.popped(),
                None => old(self)@.popups.len() == 0 && final(self)@ == old(self)@,
            },
    {
        let ghost before = popup_views(self.popup_stack@);
        let r = self.popup_stack.pop();
        assert(r is Some ==> popup_views(self.popup_stack@) =~= before.drop_last());
        r
    }

    /// Opens a message box and parks `pending_cmd` behind it.
    pub fn show_msg_box(
        &mut self,
        kind: MsgBoxType,
        text: String,
        actions: MsgBoxActions,
        pending_cmd: Option<UICommand>,
    )
        ensures
            final(self)@ == old(self)@.asking(kind, text@, actions, pending_cmd),
    {
        self.pending_command = pending_cmd;
        self.push_popup(Popup::MsgBox { kind, text, actions });
    }

    /// Asks whether the edit in progress is to be saved, with `pending_cmd`
    /// parked behind the question.
    pub fn show_unsaved_msg_box(&mut self, pending_cmd: Option<UICommand>)
        ensures
            final(self)@ == old(self)@.asking_to_save(pending_cmd),
    {
        self.show_msg_box(
            MsgBoxType::Question,
            String::from_str(UNSAVED_QUESTION),
            MsgBoxActions::YesNoCancel,
            pending_cmd,
        );
    }

    /// Shows an error message.
    pub fn show_err_msg(&mut self, text: String)
        ensures
            final(self)@ == old(self)@.with_error(text@),
    {
        self.show_msg_box(MsgBoxType::Error, text, MsgBoxActions::Okay, None);
    }

    /// Gives the focus to `control`.
    pub fn change_active_control(&mut self, control: ControlType)
        ensures
            final(self)@ == (UiView { active_control: control, ..old(self)@ }),
    {
        self.active_control = control;
    }

    /// Accepts the entry popup on top: the popup closes and its draft
    /// becomes the edit in progress.
    pub fn accept_entry_popup(&mut self)
        ensures
            final(self)@ == old(self)@.accepted(),
    {
        let n = self.popup_stack.len();
        if n == 0 {
            return ;
        }
        let ghost before = popup_views(self.popup_stack@);
        match &self.popup_stack[n - 1] {
            Popup::Entry(_) => {},
            _ => {
                return ;
            },
        }
        match self.popup_stack.pop() {
            Some(Popup::Entry(buffer)) => {
                assert(popup_views(self.popup_stack@) =~= before.drop_last());
                self.edit_buffer = Some(buffer);
            },
            _ => {},
        }
    }
}

} // verus!
