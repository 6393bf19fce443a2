//! The engine that guards the commands: what issuing a command does, what
//! the answer to a question does, and what the results that the host hands
//! back do, each as a function from the state before to the state after.
//!
//! A command that could lose an edit in progress is carried out at once only
//! where no edit is in progress; otherwise it waits behind a question and
//! is taken up again, or dropped, when the answer comes. The same three-way
//! decision serves every guarded command: a command brings nothing but its
//! effect.
//!
//! The engine performs no storage or file work of its own. Where a command
//! needs such work it hands a [`HostRequest`] to the host, and the host
//! hands the result back.

use crate::app::{App, AppView};
use crate::entry::{
    DraftView, Entry, EntryDate, EntryDraft, EntryView, ErrorView, ModifyEntryError,
};
use crate::popup::{BufferView, MsgBoxActions, MsgBoxResult, MsgBoxType, PopupView};
use crate::settings::temp_name;
use crate::state::AppState;
use crate::tags::all_tags;
use crate::ui::{ControlType, UICommand, UIComponents, UiView};
use vstd::prelude::*;

verus! {

/// The question before an entry is removed.
pub const DELETE_QUESTION: &'static str = "Do you want to remove the current journal?";

/// The start of the message shown when the export dialog cannot be opened.
pub const EXPORT_ERROR: &'static str = "Error while creating export dialog.\n Err: ";

/// What became of an input.
#[derive(Debug, Clone, Copy, PartialEq, Eq, Structural)]
pub enum HandleInputReturnType {
    Handled,
    NotFound,
    ExitApp,
    Ignore,
}

/// What a request to the host holds.
pub enum RequestView {
    AddEntry { draft: DraftView, next: Option<UICommand> },
    UpdateEntry { entry: EntryView, next: Option<UICommand> },
    RemoveEntry { id: u32 },
    EditExternally { file_name: Seq<char>, content: Seq<char> },
    PrepareExport { entry_id: u32 },
}

/// Work that only the host can do. The host carries it out and reports the
/// result.
#[derive(Debug, Clone, PartialEq, Eq)]
pub enum HostRequest {
    /// Add the draft to storage; then report the outcome with `next`.
    AddEntry { draft: EntryDraft, next: Option<UICommand> },
    /// Replace the stored entry of the same id; then report the outcome
    /// with `next`.
    UpdateEntry { entry: Entry, next: Option<UICommand> },
    /// Remove the entry from storage; then report the outcome.
    RemoveEntry { id: u32 },
    /// Write `content` to a temporary file of this name, let the user edit
    /// it, and remove the file again whatever happens; then report what the
    /// file held at the end.
    EditExternally { file_name: String, content: String },
    /// Find the path that the export dialog proposes; then report it.
    PrepareExport { entry_id: u32 },
}

impl View for HostRequest {
    type V = RequestView;

    open spec fn view(&self) -> RequestView {
        match self {
            HostRequest::AddEntry { draft, next } => RequestView::AddEntry {
                draft: draft@,
                next: *next,
            },
            HostRequest::UpdateEntry { entry, next } => RequestView::UpdateEntry {
                entry: entry@,
                next: *next,
            },
            HostRequest::RemoveEntry { id } => RequestView::RemoveEntry { id: *id },
            HostRequest::EditExternally { file_name, content } => RequestView::EditExternally {
                file_name: file_name@,
                content: content@,
            },
            HostRequest::PrepareExport { entry_id } => RequestView::PrepareExport {
                entry_id: *entry_id,
            },
        }
    }
}

/// The view of an optional request.
pub open spec fn request_view(request: Option<HostRequest>) -> Option<RequestView> {
    match request {
        Some(r) => Some(r@),
        None => None,
    }
}

/// What a command hands back: what became of the input, and the work that
/// the host has to do next, if any.
#[derive(Debug, Clone, PartialEq, Eq)]
pub struct CmdResult {
    pub handled: HandleInputReturnType,
    pub request: Option<HostRequest>,
}

/// The state after a step of the engine, and the request that came with it.
pub struct Outcome {
    pub ui: UiView,
    pub app: AppView,
    pub request: Option<RequestView>,
}

/// An outcome without a request.
pub open spec fn quiet(ui: UiView, app: AppView) -> Outcome {
    Outcome { ui, app, request: None }
}

/// The outcome that the states and the result of an executed step stand for.
pub open spec fn outcome_of(ui: UIComponents, app: App, request: Option<HostRequest>) -> Outcome {
    Outcome { ui: ui@, app: app@, request: request_view(request) }
}

/// What the host reports of a save.
pub open spec fn save_outcome(result: Result<Entry, ModifyEntryError>) -> Result<
    EntryView,
    ErrorView,
> {
    match result {
        Ok(e) => Ok(e@),
        Err(err) => Err(err@),
    }
}

/// What the host reports of a removal.
pub open spec fn removal_outcome(result: Result<(), String>) -> Result<(), Seq<char>> {
    match result {
        Ok(_) => Ok(()),
        Err(text) => Err(text@),
    }
}

/// What the host reports of the external editor: the text that the file
/// held, `None` where the file was gone, or the failure.
pub open spec fn edit_outcome(result: Result<Option<String>, String>) -> Result<
    Option<Seq<char>>,
    Seq<char>,
> {
    match result {
        Ok(Some(content)) => Ok(Some(content@)),
        Ok(None) => Ok(None),
        Err(text) => Err(text@),
    }
}

/// What the host reports of the path for an export.
pub open spec fn export_outcome(result: Result<String, String>) -> Result<Seq<char>, Seq<char>> {
    match result {
        Ok(path) => Ok(path@),
        Err(text) => Err(text@),
    }
}

/// The draft of a new entry made at `clock`: nothing but the date.
pub open spec fn blank_draft(clock: EntryDate) -> DraftView {
    DraftView { date: clock, title: Seq::empty(), content: Seq::empty(), tags: Seq::empty() }
}

/// The ids and titles of `v`, in order.
pub open spec fn titles_of(v: Seq<EntryView>) -> Seq<(u32, Seq<char>)> {
    v.map_values(|e: EntryView| (e.id, e.title))
}

/// The request that saves the edit `b`: an update where it edits a stored
/// entry, an addition where it is a new draft.
pub open spec fn save_request(b: BufferView, next: Option<UICommand>) -> RequestView {
    match b.target {
        Some(id) => RequestView::UpdateEntry { entry: b.draft.with_id(id), next },
        None => RequestView::AddEntry { draft: b.draft, next },
    }
}

/// The text that goes to the external editor: the content of the edit in
/// progress, or of the selected entry where nothing is being edited.
pub open spec fn editor_subject(ui: UiView, app: AppView) -> Option<Seq<char>> {
    match ui.buffer {
        Some(b) => Some(b.draft.content),
        None => match app.current_entry() {
            Some(e) => Some(e.content),
            None => None,
        },
    }
}

/// The edit in progress once the external editor has written `content`:
/// the edit that was in progress, or else an edit of the selected entry,
/// with the new content.
pub open spec fn edited_buffer(ui: UiView, app: AppView, content: Seq<char>) -> Option<BufferView> {
    match ui.buffer {
        Some(b) => Some(BufferView { target: b.target, draft: b.draft.with_content(content) }),
        None => match app.current_entry() {
            Some(e) => Some(
                BufferView { target: Some(e.id), draft: e.draft().with_content(content) },
            ),
            None => None,
        },
    }
}

impl UICommand {
    /// Whether the command could lose an edit in progress and is therefore
    /// guarded by the question whether to save.
    pub open spec fn guarded(self) -> bool {
        match self {
            UICommand::SelectedPrevEntry => true,
            UICommand::SelectedNextEntry => true,
            UICommand::CreateEntry => true,
            UICommand::EditCurrentEntry => true,
            UICommand::ExportEntryContent => true,
            UICommand::EditInExternalEditor => true,
            UICommand::ShowFilter => true,
            UICommand::CycleTagFilter => true,
            UICommand::ShowFuzzyFind => true,
            UICommand::ShowSortOptions => true,
            UICommand::DeleteCurrentEntry => false,
            UICommand::ResetFilter => false,
            UICommand::ToggleFullScreenMode => false,
        }
    }

    /// Decides whether the command is guarded.
    pub fn is_guarded(&self) -> (r: bool)
        ensures
            r == self.guarded(),
    {
        match self {
            UICommand::DeleteCurrentEntry => false,
            UICommand::ResetFilter => false,
            UICommand::ToggleFullScreenMode => false,
            _ => true,
        }
    }
}

/// The effect of a command: what it does once nothing stands in its way.
pub open spec fn effect(cmd: UICommand, ui: UiView, app: AppView) -> Outcome {
    match cmd {
        UICommand::SelectedPrevEntry => quiet(ui, app.stepped_back(1)),
        UICommand::SelectedNextEntry => quiet(ui, app.stepped_forward(1)),
        UICommand::CreateEntry => quiet(
            ui.pushed(PopupView::Entry(BufferView { target: None, draft: blank_draft(app.clock) })),
            app,
        ),
        UICommand::EditCurrentEntry => match app.current_entry() {
            Some(e) => quiet(
                ui.pushed(PopupView::Entry(BufferView { target: Some(e.id), draft: e.draft() })),
                app,
            ),
            None => quiet(ui, app),
        },
        UICommand::DeleteCurrentEntry => match app.current_entry_id {
            Some(id) => Outcome { ui, app, request: Some(RequestView::RemoveEntry { id }) },
            None => quiet(ui, app),
        },
        UICommand::ExportEntryContent => match app.current_entry() {
            Some(e) => Outcome {
                ui,
                app,
                request: Some(RequestView::PrepareExport { entry_id: e.id }),
            },
            None => quiet(ui, app),
        },
        UICommand::EditInExternalEditor => match editor_subject(ui, app) {
            Some(content) => Outcome {
                ui,
                app: AppView { redraw_after_restore: true, ..app },
                request: Some(
                    RequestView::EditExternally {
                        file_name: temp_name(app.settings.temp_file_extension),
                        content,
                    },
                ),
            },
            None => quiet(ui, app),
        },
        UICommand::ShowFilter => quiet(
            ui.pushed(PopupView::Filter { tags: all_tags(app.entries), filter: app.filter }),
            app,
        ),
        UICommand::ResetFilter => quiet(ui, app.with_filter(None)),
        UICommand::CycleTagFilter => quiet(ui, app.cycled()),
        UICommand::ShowFuzzyFind => quiet(
            ui.pushed(PopupView::FuzzFind { entries: titles_of(app.active()) }),
            app,
        ),
        UICommand::ToggleFullScreenMode => quiet(
            ui,
            AppView {
                state: AppState { full_screen: !app.state.full_screen, ..app.state },
                ..app
            },
        ),
        UICommand::ShowSortOptions => quiet(
            ui.pushed(PopupView::Sort { sorter: app.state.sorter }),
            app,
        ),
    }
}

/// What issuing a command does. A guarded command takes effect at once
/// where no edit is in progress; otherwise the question whether to save is
/// asked and the command waits behind it. Removing an entry is always
/// confirmed first, whatever is being edited. The other commands take
/// effect at once.
pub open spec fn started(cmd: UICommand, ui: UiView, app: AppView) -> Outcome {
    if cmd.guarded() {
        if ui.buffer is Some {
            quiet(ui.asking_to_save(Some(cmd)), app)
        } else {
            effect(cmd, ui, app)
        }
    } else if cmd == UICommand::DeleteCurrentEntry {
        if app.current_entry_id is Some {
            quiet(
                ui.asking(
                    MsgBoxType::Question,
                    DELETE_QUESTION@,
                    MsgBoxActions::YesNo,
                    Some(cmd),
                ),
                app,
            )
        } else {
            quiet(ui, app)
        }
    } else {
        effect(cmd, ui, app)
    }
}

/// What a command does that the user gives on the entries list. An open
/// popup owns the input: as long as there is one the command is not
/// accepted and nothing changes. Otherwise the command is issued.
pub open spec fn received(cmd: UICommand, ui: UiView, app: AppView) -> Outcome {
    if ui.popups.len() > 0 {
        quiet(ui, app)
    } else {
        started(cmd, ui, app)
    }
}

/// What the answer to the question behind which `cmd` waited does. In
/// every case no command waits any longer.
///
/// For a guarded command: `Okay` and `Cancel` drop the command and leave
/// the edit untouched; `No` discards the edit and carries the command out;
/// `Yes` asks the host to save the edit, with the command to follow the
/// save (and carries it out at once where there is nothing to save).
///
/// For the removal of an entry: `Yes` asks the host to remove it, and every
/// other answer drops the command.
pub open spec fn continued(cmd: UICommand, ui: UiView, app: AppView, answer: MsgBoxResult) -> Outcome {
    if cmd.guarded() {
        match answer {
            MsgBoxResult::Okay => quiet(ui.idle(), app),
            MsgBoxResult::Cancel => quiet(ui.idle(), app),
            MsgBoxResult::Yes => match ui.buffer {
                Some(b) => Outcome {
                    ui: ui.idle(),
                    app,
                    request: Some(save_request(b, Some(cmd))),
                },
                None => effect(cmd, ui.idle(), app),
            },
            MsgBoxResult::No => effect(cmd, ui.idle().discarded(), app),
        }
    } else if cmd == UICommand::DeleteCurrentEntry && answer == MsgBoxResult::Yes {
        effect(cmd, ui.idle(), app)
    } else {
        quiet(ui.idle(), app)
    }
}

/// What the answer of the message box on top does: the box closes, and the
/// command that waited behind it is continued with the answer. Where the
/// top popup is no message box the answer is ignored.
pub open spec fn resolved(ui: UiView, app: AppView, answer: MsgBoxResult) -> Outcome {
    if ui.popups.len() > 0 && ui.popups.last() is MsgBox {
        match ui.pending_command {
            Some(cmd) => continued(cmd, ui.popped(), app, answer),
            None => quiet(ui.popped(), app),
        }
    } else {
        quiet(ui, app)
    }
}

/// What the outcome of a save does. A saved entry joins the store, the
/// edit in progress ends, and the command that waited for the save takes
/// effect. A refused save is shown as an error: the edit stays as it is, so
/// that the user can correct it and try again, and the waiting command is
/// dropped.
pub open spec fn saved(
    ui: UiView,
    app: AppView,
    result: Result<EntryView, ErrorView>,
    next: Option<UICommand>,
) -> Outcome {
    match result {
        Ok(e) => match next {
            Some(cmd) => effect(cmd, ui.discarded(), app.stored(e)),
            None => quiet(ui.discarded(), app.stored(e)),
        },
        Err(err) => quiet(ui.with_error(err.message()), app),
    }
}

/// What the outcome of a removal does: a removed entry leaves the store,
/// and a failure is shown as an error.
pub open spec fn removed(ui: UiView, app: AppView, id: u32, result: Result<(), Seq<char>>) -> Outcome {
    match result {
        Ok(_) => quiet(ui, app.without(id)),
        Err(text) => quiet(ui.with_error(text), app),
    }
}

/// What the return of the external editor does. The text that the file
/// held becomes the content of the edit in progress and the entries list
/// takes the focus; with auto-save the host is asked to save at once. A
/// file that is gone changes nothing, and a failure is shown as an error.
pub open spec fn edited(
    ui: UiView,
    app: AppView,
    result: Result<Option<Seq<char>>, Seq<char>>,
) -> Outcome {
    match result {
        Ok(Some(content)) => match edited_buffer(ui, app, content) {
            Some(b) => Outcome {
                ui: UiView { buffer: Some(b), active_control: ControlType::EntriesList, ..ui },
                app,
                request: if app.settings.auto_save {
                    Some(save_request(b, None))
                } else {
                    None
                },
            },
            None => quiet(ui, app),
        },
        Ok(None) => quiet(ui, app),
        Err(text) => quiet(ui.with_error(text), app),
    }
}

/// What the answer about the export path does: the export dialog opens
/// with the path, or the failure is shown as an error.
pub open spec fn export_prepared(
    ui: UiView,
    app: AppView,
    entry_id: u32,
    result: Result<Seq<char>, Seq<char>>,
) -> Outcome {
    match result {
        Ok(path) => quiet(ui.pushed(PopupView::Export { entry_id, path }), app),
        Err(text) => quiet(ui.with_error(EXPORT_ERROR@ + text), app),
    }
}

/// What the save command does: it asks the host to save the edit in
/// progress, and does nothing where there is none.
pub open spec fn save_started(ui: UiView, app: AppView) -> Outcome {
    match ui.buffer {
        Some(b) => Outcome { ui, app, request: Some(save_request(b, None)) },
        None => quiet(ui, app),
    }
}

/// The effect of a command never parks a command and never asks a
/// question: the stack gains at most one popup, which is no message box.
pub proof fn lemma_effect_asks_nothing(cmd: UICommand, ui: UiView, app: AppView)
    ensures
        effect(cmd, ui, app).ui.pending_command == ui.pending_command,
        effect(cmd, ui, app).ui.buffer == ui.buffer,
        effect(cmd, ui, app).ui.popups == ui.popups || (exists|p: PopupView|
            !(p is MsgBox) && effect(cmd, ui, app).ui.popups == #[trigger] ui.popups.push(p)),
{
    let after = effect(cmd, ui, app).ui;
    let opened: Option<PopupView> = match cmd {
        UICommand::CreateEntry => Some(
            PopupView::Entry(BufferView { target: None, draft: blank_draft(app.clock) }),
        ),
        UICommand::EditCurrentEntry => match app.current_entry() {
            Some(e) => Some(PopupView::Entry(BufferView { target: Some(e.id), draft: e.draft() })),
            None => None,
        },
        UICommand::ShowFilter => Some(
            PopupView::Filter { tags: all_tags(app.entries), filter: app.filter },
        ),
        UICommand::ShowFuzzyFind => Some(PopupView::FuzzFind { entries: titles_of(app.active()) }),
        UICommand::ShowSortOptions => Some(PopupView::Sort { sorter: app.state.sorter }),
        _ => None,
    };
    match opened {
        Some(p) => {
            assert(after.popups == ui.popups.push(p));
        },
        None => {
            assert(after == ui);
        },
    }
}

/// A guarded command that is issued while no edit is in progress takes
/// effect at once: the outcome is exactly its effect, no command is parked
/// and no question is asked.
pub proof fn lemma_unguarded_path(cmd: UICommand, ui: UiView, app: AppView)
    requires
        cmd.guarded(),
        ui.buffer is None,
    ensures
        started(cmd, ui, app) == effect(cmd, ui, app),
        started(cmd, ui, app).ui.pending_command == ui.pending_command,
        started(cmd, ui, app).ui.popups == ui.popups || (exists|p: PopupView|
            !(p is MsgBox) && started(cmd, ui, app).ui.popups == #[trigger] ui.popups.push(p)),
{
    lemma_effect_asks_nothing(cmd, ui, app);
}

/// A guarded command that is issued while an edit is in progress changes
/// nothing but the interface: the question is asked, the command waits
/// behind it, and the edit and the application state stay as they are.
pub proof fn lemma_guarded_path(cmd: UICommand, ui: UiView, app: AppView)
    requires
        cmd.guarded(),
        ui.buffer is Some,
    ensures
        started(cmd, ui, app).app == app,
        started(cmd, ui, app).request is None,
        started(cmd, ui, app).ui.buffer == ui.buffer,
        started(cmd, ui, app).ui.pending_command == Some(cmd),
        started(cmd, ui, app).ui.popups.last() is MsgBox,
        started(cmd, ui, app).ui.popups.drop_last() == ui.popups,
{
    assert(ui.asking_to_save(Some(cmd)).popups.drop_last() =~= ui.popups);
}

/// One question at a time. While a command waits behind its question, or
/// any other popup is open, a further command from the entries list is not
/// accepted and changes nothing. A command that is accepted and has to wait
/// fills the one slot there is, behind a message box on top; the answer
/// empties the slot again, and what the host reports never fills it.
pub proof fn lemma_single_slot(
    cmd: UICommand,
    ui: UiView,
    app: AppView,
    answer: MsgBoxResult,
    save: Result<EntryView, ErrorView>,
    next: Option<UICommand>,
    id: u32,
    removal: Result<(), Seq<char>>,
    edit: Result<Option<Seq<char>>, Seq<char>>,
    export: Result<Seq<char>, Seq<char>>,
)
    requires
        ui.well_formed(),
    ensures
        ui.popups.len() > 0 ==> received(cmd, ui, app) == quiet(ui, app),
        received(cmd, ui, app).ui.well_formed(),
        received(cmd, ui, app).ui.pending_command is Some ==> received(
            cmd,
            ui,
            app,
        ).ui.pending_command == Some(cmd) || received(cmd, ui, app).ui == ui,
        resolved(ui, app, answer).ui.well_formed(),
        ui.popups.len() > 0 && ui.popups.last() is MsgBox ==> resolved(
            ui,
            app,
            answer,
        ).ui.pending_command is None,
        ui.pending_command is None ==> {
            &&& saved(ui, app, save, next).ui.pending_command is None
            &&& removed(ui, app, id, removal).ui.pending_command is None
            &&& edited(ui, app, edit).ui.pending_command is None
            &&& export_prepared(ui, app, id, export).ui.pending_command is None
            &&& save_started(ui, app).ui.pending_command is None
        },
{
    lemma_effect_asks_nothing(cmd, ui, app);
    if ui.pending_command is Some {
        let waiting = ui.pending_command->Some_0;
        lemma_effect_asks_nothing(waiting, ui.popped().idle(), app);
        lemma_effect_asks_nothing(waiting, ui.popped().idle().discarded(), app);
    }
    if save is Ok && next is Some {
        lemma_effect_asks_nothing(next->Some_0, ui.discarded(), app.stored(save->Ok_0));
    }
}

/// The three ways in which the answer to the question decides over a
/// guarded command. `Okay` and `Cancel` neither save nor carry the command
/// out, and leave the edit untouched. `No` discards the edit and carries
/// the command out. `Yes` has the edit saved first, and the command is
/// carried out, on the state that holds the saved entry, once the save has
/// succeeded. In each case no command waits afterwards.
pub proof fn lemma_answer_decides(cmd: UICommand, ui: UiView, app: AppView, saved_as: EntryView)
    requires
        cmd.guarded(),
    ensures
        continued(cmd, ui, app, MsgBoxResult::Okay) == quiet(ui.idle(), app),
        continued(cmd, ui, app, MsgBoxResult::Cancel) == quiet(ui.idle(), app),
        continued(cmd, ui, app, MsgBoxResult::No) == effect(cmd, ui.idle().discarded(), app),
        ui.buffer is Some ==> continued(cmd, ui, app, MsgBoxResult::Yes) == (Outcome {
            ui: ui.idle(),
            app,
            request: Some(save_request(ui.buffer->Some_0, Some(cmd))),
        }),
        ui.buffer is None ==> continued(cmd, ui, app, MsgBoxResult::Yes) == effect(
            cmd,
            ui.idle(),
            app,
        ),
        saved(ui.idle(), app, Ok(saved_as), Some(cmd)) == effect(
            cmd,
            ui.idle().discarded(),
            app.stored(saved_as),
        ),
        forall|answer: MsgBoxResult|
            (#[trigger] continued(cmd, ui, app, answer)).ui.pending_command is None,
        saved(ui.idle(), app, Ok(saved_as), Some(cmd)).ui.pending_command is None,
{
    lemma_effect_asks_nothing(cmd, ui.idle(), app);
    lemma_effect_asks_nothing(cmd, ui.idle().discarded(), app);
    lemma_effect_asks_nothing(cmd, ui.idle().discarded(), app.stored(saved_as));
}

/// A save that storage refuses loses nothing: the edit in progress and the
/// application state stay as they are, the error is shown, and the command
/// that waited for the save is dropped.
pub proof fn lemma_refused_save_keeps_edit(
    ui: UiView,
    app: AppView,
    err: ErrorView,
    next: Option<UICommand>,
)
    ensures
        saved(ui, app, Err(err), next).app == app,
        saved(ui, app, Err(err), next).ui.buffer == ui.buffer,
        saved(ui, app, Err(err), next).request is None,
        saved(ui, app, Err(err), next).ui.pending_command is None,
        saved(ui, app, Err(err), next).ui.popups == ui.popups.push(
            PopupView::MsgBox {
                kind: MsgBoxType::Error,
                text: err.message(),
                actions: MsgBoxActions::Okay,
            },
        ),
{
}

/// Removing an entry is asked for whatever is being edited, touches no
/// edit, and is dropped by every answer but `Yes`.
pub proof fn lemma_removal_is_confirmed(ui: UiView, app: AppView, answer: MsgBoxResult)
    ensures
        started(UICommand::DeleteCurrentEntry, ui, app).app == app,
        started(UICommand::DeleteCurrentEntry, ui, app).request is None,
        started(UICommand::DeleteCurrentEntry, ui, app).ui.buffer == ui.buffer,
        continued(UICommand::DeleteCurrentEntry, ui, app, answer).ui == ui.idle(),
        continued(UICommand::DeleteCurrentEntry, ui, app, answer).app == app,
        answer != MsgBoxResult::Yes ==> continued(
            UICommand::DeleteCurrentEntry,
            ui,
            app,
            answer,
        ).request is None,
{
}

/// Only what storage reports changes the entries in memory. No command, no
/// answer to a question, no return of the editor and no change of filter,
/// sorter or selection touches them: an entry changes only by being
/// replaced as a whole once storage has accepted the replacement.
pub proof fn lemma_store_changes_only_through_storage(
    cmd: UICommand,
    ui: UiView,
    app: AppView,
    answer: MsgBoxResult,
    err: ErrorView,
    next: Option<UICommand>,
    id: u32,
    text: Seq<char>,
    edit: Result<Option<Seq<char>>, Seq<char>>,
    export: Result<Seq<char>, Seq<char>>,
)
    ensures
        effect(cmd, ui, app).app.entries == app.entries,
        started(cmd, ui, app).app.entries == app.entries,
        received(cmd, ui, app).app.entries == app.entries,
        continued(cmd, ui, app, answer).app.entries == app.entries,
        resolved(ui, app, answer).app.entries == app.entries,
        saved(ui, app, Err(err), next).app.entries == app.entries,
        removed(ui, app, id, Err(text)).app.entries == app.entries,
        edited(ui, app, edit).app.entries == app.entries,
        export_prepared(ui, app, id, export).app.entries == app.entries,
        save_started(ui, app).app.entries == app.entries,
{
    lemma_effect_keeps_entries(cmd, ui, app);
    lemma_effect_keeps_entries(cmd, ui.idle(), app);
    lemma_effect_keeps_entries(cmd, ui.idle().discarded(), app);
    if ui.pending_command is Some {
        let waiting = ui.pending_command->Some_0;
        lemma_effect_keeps_entries(waiting, ui.popped().idle(), app);
        lemma_effect_keeps_entries(waiting, ui.popped().idle().discarded(), app);
    }
}

/// The effect of a command leaves the entries in memory as they are.
pub proof fn lemma_effect_keeps_entries(cmd: UICommand, ui: UiView, app: AppView)
    ensures
        effect(cmd, ui, app).app.entries == app.entries,
{
}

/// Every step of the engine keeps the invariant of the application state:
/// the ids of the store stay distinct and the selection stays in the
/// active view.
pub proof fn lemma_engine_keeps_invariant(
    cmd: UICommand,
    ui: UiView,
    app: AppView,
    answer: MsgBoxResult,
    save: Result<EntryView, ErrorView>,
    next: Option<UICommand>,
    id: u32,
    removal: Result<(), Seq<char>>,
    edit: Result<Option<Seq<char>>, Seq<char>>,
    export: Result<Seq<char>, Seq<char>>,
)
    requires
        app.well_formed(),
    ensures
        effect(cmd, ui, app).app.well_formed(),
        started(cmd, ui, app).app.well_formed(),
        continued(cmd, ui, app, answer).app.well_formed(),
        resolved(ui, app, answer).app.well_formed(),
        saved(ui, app, save, next).app.well_formed(),
        removed(ui, app, id, removal).app.well_formed(),
        edited(ui, app, edit).app == app,
        export_prepared(ui, app, id, export).app == app,
        save_started(ui, app).app == app,
{
    lemma_effect_keeps_invariant(cmd, ui, app);
    lemma_effect_keeps_invariant(cmd, ui.idle(), app);
    lemma_effect_keeps_invariant(cmd, ui.idle().discarded(), app);
    if ui.pending_command is Some {
        let waiting = ui.pending_command->Some_0;
        lemma_effect_keeps_invariant(waiting, ui.popped().idle(), app);
        lemma_effect_keeps_invariant(waiting, ui.popped().idle().discarded(), app);
    }
    if save is Ok {
        app.lemma_stored(save->Ok_0);
        if next is Some {
            lemma_effect_keeps_invariant(next->Some_0, ui.discarded(), app.stored(save->Ok_0));
        }
    }
    app.lemma_without(id);
}

/// The effect of a command keeps the invariant of the application state.
pub proof fn lemma_effect_keeps_invariant(cmd: UICommand, ui: UiView, app: AppView)
    requires
        app.well_formed(),
    ensures
        effect(cmd, ui, app).app.well_formed(),
{
    let after = effect(cmd, ui, app).app;
    match cmd {
        UICommand::SelectedPrevEntry => {
            app.lemma_navigation(1);
        },
        UICommand::SelectedNextEntry => {
            app.lemma_navigation(1);
        },
        UICommand::ResetFilter => {
            app.lemma_view_changes(None, app.state.sorter, None);
        },
        UICommand::CycleTagFilter => {
            app.lemma_view_changes(None, app.state.sorter, None);
        },
        UICommand::EditInExternalEditor => {
            assert(after.active() == app.active());
        },
        UICommand::ToggleFullScreenMode => {
            assert(after.active() == app.active());
        },
        _ => {
            assert(after == app);
        },
    }
}

} // verus!
