//! The commands of the entries list. Each command has a function that
//! issues it and, where it may have to wait behind a question, one that
//! takes it up again with the answer; all of them go through the one
//! engine. What the host was asked for it reports through the `complete_`
//! functions.

use crate::active::borrowed_views;
use crate::app::{App, AppView};
use crate::engine::{
    continued, edit_outcome, effect, export_outcome, lemma_effect_keeps_invariant, outcome_of,
    quiet, received, removal_outcome, request_view, resolved, save_outcome, save_request,
    save_started, saved, edited, export_prepared, removed, started, titles_of, CmdResult,
    HandleInputReturnType, HostRequest, Outcome, DELETE_QUESTION, EXPORT_ERROR,
};
use crate::entry::{copy_strings, Entry, EntryDraft, ModifyEntryError};
use crate::popup::{title_views, EditBuffer, MsgBoxActions, MsgBoxResult, MsgBoxType, Popup};
use crate::settings::temp_file_name;
use crate::state::AppState;
use crate::ui::{ControlType, UICommand, UIComponents, UiView};
use vstd::prelude::*;
use vstd::string::StringExecFns;

verus! {

/// A result that reports the input as handled, with `request` for the host.
fn handled(request: Option<HostRequest>) -> (r: CmdResult)
    ensures
        r.handled == HandleInputReturnType::Handled,
        r.request == request,
{
    CmdResult { handled: HandleInputReturnType::Handled, request }
}

/// Builds the request that saves the edit `b`.
pub fn save_request_for(b: &EditBuffer, next: Option<UICommand>) -> (r: HostRequest)
    ensures
        r@ == save_request(b@, next),
{
    match b.target {
        Some(id) => HostRequest::UpdateEntry { entry: Entry::from_draft(id, b.draft.duplicate()), next },
        None => HostRequest::AddEntry { draft: b.draft.duplicate(), next },
    }
}

/// Collects the ids and titles of the entries of a view.
fn collect_titles(view: &Vec<&Entry>) -> (r: Vec<(u32, String)>)
    ensures
        title_views(r@) == titles_of(borrowed_views(view@)),
{
    let mut out: Vec<(u32, String)> = Vec::new();
    let mut i: usize = 0;
    while i < view.len()
        invariant
            i <= view.len(),
            out.len() == i,
            forall|k: int|
                0 <= k < i ==> (#[trigger] out@[k]).0 == view@[k].id && out@[k].1@ == view@[k].title@,
        decreases view.len() - i,
    {
        out.push((view[i].id, view[i].title.clone()));
        i += 1;
    }
    assert(title_views(out@) =~= titles_of(borrowed_views(view@)));
    out
}

/// Moves the selection `step` entries back in the active view and stops at
/// the first entry.
pub fn select_prev_entry(step: usize, ui_components: &mut UIComponents, app: &mut App)
    ensures
        final(ui_components)@ == old(ui_components)@,
        final(app)@ == old(app)@.stepped_back(step as int),
        old(app)@.well_formed() ==> final(app)@.well_formed(),
{
    app.step_back(step);
}

/// Moves the selection `step` entries forward in the active view and stops
/// at the last entry.
pub fn select_next_entry(step: usize, ui_components: &mut UIComponents, app: &mut App)
    ensures
        final(ui_components)@ == old(ui_components)@,
        final(app)@ == old(app)@.stepped_forward(step as int),
        old(app)@.well_formed() ==> final(app)@.well_formed(),
{
    app.step_forward(step);
}

/// Selects the first entry of the active view.
pub fn go_to_top_entry(ui_components: &mut UIComponents, app: &mut App)
    ensures
        final(ui_components)@ == old(ui_components)@,
        final(app)@ == old(app)@.at_top(),
        old(app)@.well_formed() ==> final(app)@.well_formed(),
{
    app.go_to_top();
}

/// Selects the last entry of the active view.
pub fn go_to_bottom_entry(ui_components: &mut UIComponents, app: &mut App)
    ensures
        final(ui_components)@ == old(ui_components)@,
        final(app)@ == old(app)@.at_bottom(),
        old(app)@.well_formed() ==> final(app)@.well_formed(),
{
    app.go_to_bottom();
}

/// Moves the selection one page back.
pub fn page_up_entries(ui_components: &mut UIComponents, app: &mut App)
    ensures
        final(ui_components)@ == old(ui_components)@,
        final(app)@ == old(app)@.stepped_back(old(app)@.settings.scroll_per_page as int),
        old(app)@.well_formed() ==> final(app)@.well_formed(),
{
    let step = app.settings.get_scroll_per_page();
    select_prev_entry(step, ui_components, app);
}

/// Moves the selection one page forward.
pub fn page_down_entries(ui_components: &mut UIComponents, app: &mut App)
    ensures
        final(ui_components)@ == old(ui_components)@,
        final(app)@ == old(app)@.stepped_forward(old(app)@.settings.scroll_per_page as int),
        old(app)@.well_formed() ==> final(app)@.well_formed(),
{
    let step = app.settings.get_scroll_per_page();
    select_next_entry(step, ui_components, app);
}

/// Opens the entry popup for a new entry, dated with the session's clock.
pub fn create_entry(ui_components: &mut UIComponents, app: &App)
    ensures
        outcome_of(*final(ui_components), *app, None) == effect(
            UICommand::CreateEntry,
            old(ui_components)@,
            app@,
        ),
{
    let draft = EntryDraft::new(app.clock, String::new(), Vec::new());
    assert(draft@.tags =~= Seq::<Seq<char>>::empty());
    ui_components.push_popup(Popup::Entry(EditBuffer { target: None, draft }));
}

/// Opens the entry popup for the selected entry, if there is one.
pub fn edit_current_entry(ui_components: &mut UIComponents, app: &App)
    ensures
        outcome_of(*final(ui_components), *app, None) == effect(
            UICommand::EditCurrentEntry,
            old(ui_components)@,
            app@,
        ),
{
    if let Some(entry) = app.get_current_entry() {
        ui_components.push_popup(
            Popup::Entry(EditBuffer { target: Some(entry.id), draft: entry.to_draft() }),
        );
    }
}

/// Asks the host for the path of the export dialog for the selected entry,
/// if there is one.
pub fn export_entry_content(ui_components: &mut UIComponents, app: &App) -> (r: Option<HostRequest>)
    ensures
        outcome_of(*final(ui_components), *app, r) == effect(
            UICommand::ExportEntryContent,
            old(ui_components)@,
            app@,
        ),
{
    match app.get_current_entry() {
        Some(entry) => Some(HostRequest::PrepareExport { entry_id: entry.id }),
        None => None,
    }
}

/// Asks the host to open the external editor on the edit in progress, or
/// on the selected entry where nothing is being edited.
pub fn edit_in_external_editor(ui_components: &mut UIComponents, app: &mut App) -> (r: Option<
    HostRequest,
>)
    ensures
        outcome_of(*final(ui_components), *final(app), r) == effect(
            UICommand::EditInExternalEditor,
            old(ui_components)@,
            old(app)@,
        ),
        old(app)@.well_formed() ==> final(app)@.well_formed(),
{
    let subject = match &ui_components.edit_buffer {
        Some(b) => Some(b.draft.content.clone()),
        None => match app.get_current_entry() {
            Some(entry) => Some(entry.content.clone()),
            None => None,
        },
    };
    match subject {
        Some(content) => {
            let file_name = temp_file_name(app.settings.external_editor.temp_file_extension.as_str());
            app.redraw_after_restore = true;
            Some(HostRequest::EditExternally { file_name, content })
        },
        None => None,
    }
}

/// Opens the filter popup with every known tag and the filter in force.
pub fn show_filter(ui_components: &mut UIComponents, app: &App)
    ensures
        outcome_of(*final(ui_components), *app, None) == effect(
            UICommand::ShowFilter,
            old(ui_components)@,
            app@,
        ),
{
    let tags = app.get_all_tags();
    let filter = match &app.filter {
        Some(f) => Some(f.duplicate()),
        None => None,
    };
    ui_components.push_popup(Popup::Filter { tags, filter });
}

/// Opens the fuzzy finder over the active view.
pub fn show_fuzzy_find(ui_components: &mut UIComponents, app: &App)
    ensures
        outcome_of(*final(ui_components), *app, None) == effect(
            UICommand::ShowFuzzyFind,
            old(ui_components)@,
            app@,
        ),
{
    let entries = {
        let view = app.get_active_entries();
        collect_titles(&view)
    };
    ui_components.push_popup(Popup::FuzzFind { entries });
}

/// Opens the sort popup with the sorter in force.
pub fn show_sort_options(ui_components: &mut UIComponents, app: &App)
    ensures
        outcome_of(*final(ui_components), *app, None) == effect(
            UICommand::ShowSortOptions,
            old(ui_components)@,
            app@,
        ),
{
    ui_components.push_popup(Popup::Sort { sorter: app.state.sorter });
}

/// Discards the edit in progress.
pub fn discard_current_content(ui_components: &mut UIComponents, app: &App)
    ensures
        final(ui_components)@ == old(ui_components)@.discarded(),
{
    ui_components.edit_buffer = None;
}

/// Carries out the effect of `cmd`.
pub fn apply_effect(cmd: UICommand, ui_components: &mut UIComponents, app: &mut App) -> (r: Option<
    HostRequest,
>)
    ensures
        outcome_of(*final(ui_components), *final(app), r) == effect(
            cmd,
            old(ui_components)@,
            old(app)@,
        ),
        old(app)@.well_formed() ==> final(app)@.well_formed(),
{
    proof {
        if app@.well_formed() {
            lemma_effect_keeps_invariant(cmd, ui_components@, app@);
        }
    }
    match cmd {
        UICommand::SelectedPrevEntry => {
            select_prev_entry(1, ui_components, app);
            None
        },
        UICommand::SelectedNextEntry => {
            select_next_entry(1, ui_components, app);
            None
        },
        UICommand::CreateEntry => {
            create_entry(ui_components, app);
            None
        },
        UICommand::EditCurrentEntry => {
            edit_current_entry(ui_components, app);
            None
        },
        UICommand::DeleteCurrentEntry => match app.current_entry_id {
            Some(id) => Some(HostRequest::RemoveEntry { id }),
            None => None,
        },
        UICommand::ExportEntryContent => export_entry_content(ui_components, app),
        UICommand::EditInExternalEditor => edit_in_external_editor(ui_components, app),
        UICommand::ShowFilter => {
            show_filter(ui_components, app);
            None
        },
        UICommand::ResetFilter => {
            app.apply_filter(None);
            None
        },
        UICommand::CycleTagFilter => {
            app.cycle_tags_in_filter();
            None
        },
        UICommand::ShowFuzzyFind => {
            show_fuzzy_find(ui_components, app);
            None
        },
        UICommand::ToggleFullScreenMode => {
            app.state.full_screen = !app.state.full_screen;
            None
        },
        UICommand::ShowSortOptions => {
            show_sort_options(ui_components, app);
            None
        },
    }
}

/// Issues `cmd`: a guarded command takes effect at once where no edit is
/// in progress and waits behind the question whether to save otherwise.
pub fn execute(cmd: UICommand, ui_components: &mut UIComponents, app: &mut App) -> (r: CmdResult)
    ensures
        r.handled == HandleInputReturnType::Handled,
        outcome_of(*final(ui_components), *final(app), r.request) == started(
            cmd,
            old(ui_components)@,
            old(app)@,
        ),
        old(app)@.well_formed() ==> final(app)@.well_formed(),
{
    if cmd.is_guarded() {
        if ui_components.has_unsaved() {
            ui_components.show_unsaved_msg_box(Some(cmd));
            handled(None)
        } else {
            handled(apply_effect(cmd, ui_components, app))
        }
    } else if cmd == UICommand::DeleteCurrentEntry {
        if app.current_entry_id.is_some() {
            ui_components.show_msg_box(
                MsgBoxType::Question,
                String::from_str(DELETE_QUESTION),
                MsgBoxActions::YesNo,
                Some(cmd),
            );
        }
        handled(None)
    } else {
        handled(apply_effect(cmd, ui_components, app))
    }
}

/// Takes a command from the entries list. While a popup is open the
/// command is ignored; otherwise it is issued.
pub fn handle_input(cmd: UICommand, ui_components: &mut UIComponents, app: &mut App) -> (r: CmdResult)
    ensures
        r.handled == if old(ui_components)@.popups.len() > 0 {
            HandleInputReturnType::Ignore
        } else {
            HandleInputReturnType::Handled
        },
        outcome_of(*final(ui_components), *final(app), r.request) == received(
            cmd,
            old(ui_components)@,
            old(app)@,
        ),
        old(app)@.well_formed() ==> final(app)@.well_formed(),
        old(ui_components)@.well_formed() ==> final(ui_components)@.well_formed(),
{
    if ui_components.popup_stack.len() > 0 {
        CmdResult { handled: HandleInputReturnType::Ignore, request: None }
    } else {
        execute(cmd, ui_components, app)
    }
}

/// Takes `cmd` up again with the answer to the question behind which it
/// waited.
pub fn continue_executing(
    cmd: UICommand,
    ui_components: &mut UIComponents,
    app: &mut App,
    msg_box_result: MsgBoxResult,
) -> (r: CmdResult)
    ensures
        r.handled == HandleInputReturnType::Handled,
        outcome_of(*final(ui_components), *final(app), r.request) == continued(
            cmd,
            old(ui_components)@,
            old(app)@,
            msg_box_result,
        ),
        old(app)@.well_formed() ==> final(app)@.well_formed(),
{
    ui_components.pending_command = None;
    if cmd.is_guarded() {
        match msg_box_result {
            MsgBoxResult::Okay => handled(None),
            MsgBoxResult::Cancel => handled(None),
            MsgBoxResult::Yes => {
                let request = match &ui_components.edit_buffer {
                    Some(b) => Some(save_request_for(b, Some(cmd))),
                    None => None,
                };
                if request.is_some() {
                    handled(request)
                } else {
                    handled(apply_effect(cmd, ui_components, app))
                }
            },
            MsgBoxResult::No => {
                discard_current_content(ui_components, app);
                handled(apply_effect(cmd, ui_components, app))
            },
        }
    } else if cmd == UICommand::DeleteCurrentEntry && msg_box_result == MsgBoxResult::Yes {
        handled(apply_effect(cmd, ui_components, app))
    } else {
        handled(None)
    }
}

/// Issues the command that selects the previous entry.
pub fn exec_select_prev_entry(ui_components: &mut UIComponents, app: &mut App) -> (r: CmdResult)
    ensures
        r.handled == HandleInputReturnType::Handled,
        outcome_of(*final(ui_components), *final(app), r.request) == started(
            UICommand::SelectedPrevEntry,
            old(ui_components)@,
            old(app)@,
        ),
        old(app)@.well_formed() ==> final(app)@.well_formed(),
{
    execute(UICommand::SelectedPrevEntry, ui_components, app)
}

/// Continues the selection of the previous entry with the answer.
pub fn continue_select_prev_entry(
    ui_components: &mut UIComponents,
    app: &mut App,
    msg_box_result: MsgBoxResult,
) -> (r: CmdResult)
    ensures
        r.handled == HandleInputReturnType::Handled,
        outcome_of(*final(ui_components), *final(app), r.request) == continued(
            UICommand::SelectedPrevEntry,
            old(ui_components)@,
            old(app)@,
            msg_box_result,
        ),
        old(app)@.well_formed() ==> final(app)@.well_formed(),
{
    continue_executing(UICommand::SelectedPrevEntry, ui_components, app, msg_box_result)
}

/// Issues the command that selects the next entry.
pub fn exec_select_next_entry(ui_components: &mut UIComponents, app: &mut App) -> (r: CmdResult)
    ensures
        r.handled == HandleInputReturnType::Handled,
        outcome_of(*final(ui_components), *final(app), r.request) == started(
            UICommand::SelectedNextEntry,
            old(ui_components)@,
            old(app)@,
        ),
        old(app)@.well_formed() ==> final(app)@.well_formed(),
{
    execute(UICommand::SelectedNextEntry, ui_components, app)
}

/// Continues the selection of the next entry with the answer.
pub fn continue_select_next_entry(
    ui_components: &mut UIComponents,
    app: &mut App,
    msg_box_result: MsgBoxResult,
) -> (r: CmdResult)
    ensures
        r.handled == HandleInputReturnType::Handled,
        outcome_of(*final(ui_components), *final(app), r.request) == continued(
            UICommand::SelectedNextEntry,
            old(ui_components)@,
            old(app)@,
            msg_box_result,
        ),
        old(app)@.well_formed() ==> final(app)@.well_formed(),
{
    continue_executing(UICommand::SelectedNextEntry, ui_components, app, msg_box_result)
}

/// Issues the command that opens the popup for a new entry.
pub fn exec_create_entry(ui_components: &mut UIComponents, app: &App) -> (r: CmdResult)
    ensures
        r.handled == HandleInputReturnType::Handled,
        outcome_of(*final(ui_components), *app, r.request) == started(
            UICommand::CreateEntry,
            old(ui_components)@,
            app@,
        ),
{
    if ui_components.has_unsaved() {
        ui_components.show_unsaved_msg_box(Some(UICommand::CreateEntry));
        handled(None)
    } else {
        create_entry(ui_components, app);
        handled(None)
    }
}

/// Continues the creation of an entry with the answer.
pub fn continue_create_entry(
    ui_components: &mut UIComponents,
    app: &mut App,
    msg_box_result: MsgBoxResult,
) -> (r: CmdResult)
    ensures
        r.handled == HandleInputReturnType::Handled,
        outcome_of(*final(ui_components), *final(app), r.request) == continued(
            UICommand::CreateEntry,
            old(ui_components)@,
            old(app)@,
            msg_box_result,
        ),
        old(app)@.well_formed() ==> final(app)@.well_formed(),
{
    continue_executing(UICommand::CreateEntry, ui_components, app, msg_box_result)
}

/// Issues the command that opens the popup for the selected entry.
pub fn exec_edit_current_entry(ui_components: &mut UIComponents, app: &mut App) -> (r: CmdResult)
    ensures
        r.handled == HandleInputReturnType::Handled,
        outcome_of(*final(ui_components), *final(app), r.request) == started(
            UICommand::EditCurrentEntry,
            old(ui_components)@,
            old(app)@,
        ),
        old(app)@.well_formed() ==> final(app)@.well_formed(),
{
    execute(UICommand::EditCurrentEntry, ui_components, app)
}

/// Continues the edit of the selected entry with the answer.
pub fn continue_edit_current_entry(
    ui_components: &mut UIComponents,
    app: &mut App,
    msg_box_result: MsgBoxResult,
) -> (r: CmdResult)
    ensures
        r.handled == HandleInputReturnType::Handled,
        outcome_of(*final(ui_components), *final(app), r.request) == continued(
            UICommand::EditCurrentEntry,
            old(ui_components)@,
            old(app)@,
            msg_box_result,
        ),
        old(app)@.well_formed() ==> final(app)@.well_formed(),
{
    continue_executing(UICommand::EditCurrentEntry, ui_components, app, msg_box_result)
}

/// Issues the command that removes the selected entry: the user is asked
/// first, whether or not an edit is in progress. Without a selection
/// nothing happens.
pub fn exec_delete_current_entry(ui_components: &mut UIComponents, app: &App) -> (r: CmdResult)
    ensures
        r.handled == HandleInputReturnType::Handled,
        outcome_of(*final(ui_components), *app, r.request) == started(
            UICommand::DeleteCurrentEntry,
            old(ui_components)@,
            app@,
        ),
{
    if app.current_entry_id.is_some() {
        ui_components.show_msg_box(
            MsgBoxType::Question,
            String::from_str(DELETE_QUESTION),
            MsgBoxActions::YesNo,
            Some(UICommand::DeleteCurrentEntry),
        );
    }
    handled(None)
}

/// Continues the removal of the selected entry with the answer: `Yes` asks
/// the host to remove it, every other answer does nothing. The state of the
/// application changes only once the host reports the removal.
pub fn continue_delete_current_entry(app: &mut App, msg_box_result: MsgBoxResult) -> (r: CmdResult)
    ensures
        r.handled == HandleInputReturnType::Handled,
        final(app)@ == old(app)@,
        forall|ui: UiView|
            #[trigger] continued(UICommand::DeleteCurrentEntry, ui, old(app)@, msg_box_result) == (
            Outcome { ui: ui.idle(), app: final(app)@, request: request_view(r.request) }),
        old(app)@.well_formed() ==> final(app)@.well_formed(),
{
    let request = match (msg_box_result, app.current_entry_id) {
        (MsgBoxResult::Yes, Some(id)) => Some(HostRequest::RemoveEntry { id }),
        _ => None,
    };
    handled(request)
}

/// Issues the command that exports the selected entry.
pub fn exec_export_entry_content(ui_components: &mut UIComponents, app: &App) -> (r: CmdResult)
    ensures
        r.handled == HandleInputReturnType::Handled,
        outcome_of(*final(ui_components), *app, r.request) == started(
            UICommand::ExportEntryContent,
            old(ui_components)@,
            app@,
        ),
{
    if ui_components.has_unsaved() {
        ui_components.show_unsaved_msg_box(Some(UICommand::ExportEntryContent));
        handled(None)
    } else {
        handled(export_entry_content(ui_components, app))
    }
}

/// Continues the export of the selected entry with the answer.
pub fn continue_export_entry_content(
    ui_components: &mut UIComponents,
    app: &mut App,
    msg_box_result: MsgBoxResult,
) -> (r: CmdResult)
    ensures
        r.handled == HandleInputReturnType::Handled,
        outcome_of(*final(ui_components), *final(app), r.request) == continued(
            UICommand::ExportEntryContent,
            old(ui_components)@,
            old(app)@,
            msg_box_result,
        ),
        old(app)@.well_formed() ==> final(app)@.well_formed(),
{
    continue_executing(UICommand::ExportEntryContent, ui_components, app, msg_box_result)
}

/// Issues the command that opens the external editor.
pub fn exec_edit_in_external_editor(ui_components: &mut UIComponents, app: &mut App) -> (r: CmdResult)
    ensures
        r.handled == HandleInputReturnType::Handled,
        outcome_of(*final(ui_components), *final(app), r.request) == started(
            UICommand::EditInExternalEditor,
            old(ui_components)@,
            old(app)@,
        ),
        old(app)@.well_formed() ==> final(app)@.well_formed(),
{
    execute(UICommand::EditInExternalEditor, ui_components, app)
}

/// Continues the edit in the external editor with the answer.
pub fn continue_edit_in_external_editor(
    ui_components: &mut UIComponents,
    app: &mut App,
    msg_box_result: MsgBoxResult,
) -> (r: CmdResult)
    ensures
        r.handled == HandleInputReturnType::Handled,
        outcome_of(*final(ui_components), *final(app), r.request) == continued(
            UICommand::EditInExternalEditor,
            old(ui_components)@,
            old(app)@,
            msg_box_result,
        ),
        old(app)@.well_formed() ==> final(app)@.well_formed(),
{
    continue_executing(UICommand::EditInExternalEditor, ui_components, app, msg_box_result)
}

/// Issues the command that opens the filter popup.
pub fn exec_show_filter(ui_components: &mut UIComponents, app: &mut App) -> (r: CmdResult)
    ensures
        r.handled == HandleInputReturnType::Handled,
        outcome_of(*final(ui_components), *final(app), r.request) == started(
            UICommand::ShowFilter,
            old(ui_components)@,
            old(app)@,
        ),
        old(app)@.well_formed() ==> final(app)@.well_formed(),
{
    execute(UICommand::ShowFilter, ui_components, app)
}

/// Continues the opening of the filter popup with the answer.
pub fn continue_show_filter(
    ui_components: &mut UIComponents,
    app: &mut App,
    msg_box_result: MsgBoxResult,
) -> (r: CmdResult)
    ensures
        r.handled == HandleInputReturnType::Handled,
        outcome_of(*final(ui_components), *final(app), r.request) == continued(
            UICommand::ShowFilter,
            old(ui_components)@,
            old(app)@,
            msg_box_result,
        ),
        old(app)@.well_formed() ==> final(app)@.well_formed(),
{
    continue_executing(UICommand::ShowFilter, ui_components, app, msg_box_result)
}

/// Takes the filter away, so that every entry shows again. No edit can be
/// lost by this, so nothing is asked.
pub fn exec_reset_filter(app: &mut App) -> (r: CmdResult)
    ensures
        r.handled == HandleInputReturnType::Handled,
        r.request is None,
        final(app)@ == old(app)@.with_filter(None),
        forall|ui: UiView|
            #[trigger] started(UICommand::ResetFilter, ui, old(app)@) == quiet(ui, final(app)@),
        old(app)@.well_formed() ==> final(app)@.well_formed(),
{
    app.apply_filter(None);
    handled(None)
}

/// Issues the command that advances the tag cycle.
pub fn exec_cycle_tag_filter(ui_components: &mut UIComponents, app: &mut App) -> (r: CmdResult)
    ensures
        r.handled == HandleInputReturnType::Handled,
        outcome_of(*final(ui_components), *final(app), r.request) == started(
            UICommand::CycleTagFilter,
            old(ui_components)@,
            old(app)@,
        ),
        old(app)@.well_formed() ==> final(app)@.well_formed(),
{
    execute(UICommand::CycleTagFilter, ui_components, app)
}

/// Continues the advance of the tag cycle with the answer.
pub fn continue_cycle_tag_filter(
    ui_components: &mut UIComponents,
    app: &mut App,
    msg_box_result: MsgBoxResult,
) -> (r: CmdResult)
    ensures
        r.handled == HandleInputReturnType::Handled,
        outcome_of(*final(ui_components), *final(app), r.request) == continued(
            UICommand::CycleTagFilter,
            old(ui_components)@,
            old(app)@,
            msg_box_result,
        ),
        old(app)@.well_formed() ==> final(app)@.well_formed(),
{
    continue_executing(UICommand::CycleTagFilter, ui_components, app, msg_box_result)
}

/// Issues the command that opens the fuzzy finder.
pub fn exec_show_fuzzy_find(ui_components: &mut UIComponents, app: &mut App) -> (r: CmdResult)
    ensures
        r.handled == HandleInputReturnType::Handled,
        outcome_of(*final(ui_components), *final(app), r.request) == started(
            UICommand::ShowFuzzyFind,
            old(ui_components)@,
            old(app)@,
        ),
        old(app)@.well_formed() ==> final(app)@.well_formed(),
{
    execute(UICommand::ShowFuzzyFind, ui_components, app)
}

/// Continues the opening of the fuzzy finder with the answer.
pub fn continue_fuzzy_find(
    ui_components: &mut UIComponents,
    app: &mut App,
    msg_box_result: MsgBoxResult,
) -> (r: CmdResult)
    ensures
        r.handled == HandleInputReturnType::Handled,
        outcome_of(*final(ui_components), *final(app), r.request) == continued(
            UICommand::ShowFuzzyFind,
            old(ui_components)@,
            old(app)@,
            msg_box_result,
        ),
        old(app)@.well_formed() ==> final(app)@.well_formed(),
{
    continue_executing(UICommand::ShowFuzzyFind, ui_components, app, msg_box_result)
}

/// Switches full screen on or off. No edit can be lost by this, so nothing
/// is asked.
pub fn exec_toggle_full_screen_mode(app: &mut App) -> (r: CmdResult)
    ensures
        r.handled == HandleInputReturnType::Handled,
        r.request is None,
        final(app)@ == (AppView {
            state: AppState { full_screen: !old(app)@.state.full_screen, ..old(app)@.state },
            ..old(app)@
        }),
        forall|ui: UiView|
            #[trigger] started(UICommand::ToggleFullScreenMode, ui, old(app)@) == quiet(
                ui,
                final(app)@,
            ),
        old(app)@.well_formed() ==> final(app)@.well_formed(),
{
    app.state.full_screen = !app.state.full_screen;
    handled(None)
}

/// Issues the command that opens the sort popup.
pub fn exec_show_sort_options(ui_components: &mut UIComponents, app: &mut App) -> (r: CmdResult)
    ensures
        r.handled == HandleInputReturnType::Handled,
        outcome_of(*final(ui_components), *final(app), r.request) == started(
            UICommand::ShowSortOptions,
            old(ui_components)@,
            old(app)@,
        ),
        old(app)@.well_formed() ==> final(app)@.well_formed(),
{
    execute(UICommand::ShowSortOptions, ui_components, app)
}

/// Continues the opening of the sort popup with the answer.
pub fn continue_show_sort_options(
    ui_components: &mut UIComponents,
    app: &mut App,
    msg_box_result: MsgBoxResult,
) -> (r: CmdResult)
    ensures
        r.handled == HandleInputReturnType::Handled,
        outcome_of(*final(ui_components), *final(app), r.request) == continued(
            UICommand::ShowSortOptions,
            old(ui_components)@,
            old(app)@,
            msg_box_result,
        ),
        old(app)@.well_formed() ==> final(app)@.well_formed(),
{
    continue_executing(UICommand::ShowSortOptions, ui_components, app, msg_box_result)
}

/// Closes the message box on top with `answer` and continues the command
/// that waited behind it.
pub fn resolve_msg_box(ui_components: &mut UIComponents, app: &mut App, answer: MsgBoxResult) -> (r:
    CmdResult)
    ensures
        r.handled == HandleInputReturnType::Handled,
        outcome_of(*final(ui_components), *final(app), r.request) == resolved(
            old(ui_components)@,
            old(app)@,
            answer,
        ),
        old(app)@.well_formed() ==> final(app)@.well_formed(),
        old(ui_components)@.well_formed() ==> final(ui_components)@.well_formed(),
{
    let n = ui_components.popup_stack.len();
    if n == 0 {
        return handled(None);
    }
    match &ui_components.popup_stack[n - 1] {
        Popup::MsgBox { .. } => {},
        _ => {
            return handled(None);
        },
    }
    let _ = ui_components.pop_popup();
    match ui_components.pending_command {
        Some(cmd) => continue_executing(cmd, ui_components, app, answer),
        None => handled(None),
    }
}

/// Asks the host to save the edit in progress.
pub fn exec_save_entry_content(ui_components: &mut UIComponents, app: &mut App) -> (r: CmdResult)
    ensures
        r.handled == HandleInputReturnType::Handled,
        outcome_of(*final(ui_components), *final(app), r.request) == save_started(
            old(ui_components)@,
            old(app)@,
        ),
        old(app)@.well_formed() ==> final(app)@.well_formed(),
{
    let request = match &ui_components.edit_buffer {
        Some(b) => Some(save_request_for(b, None)),
        None => None,
    };
    handled(request)
}

/// Takes in the outcome of a save that the host was asked for, and carries
/// out the command that waited for it.
pub fn complete_save(
    ui_components: &mut UIComponents,
    app: &mut App,
    result: Result<Entry, ModifyEntryError>,
    next: Option<UICommand>,
) -> (r: CmdResult)
    ensures
        r.handled == HandleInputReturnType::Handled,
        outcome_of(*final(ui_components), *final(app), r.request) == saved(
            old(ui_components)@,
            old(app)@,
            save_outcome(result),
            next,
        ),
        old(app)@.well_formed() ==> final(app)@.well_formed(),
{
    match result {
        Ok(entry) => {
            ui_components.edit_buffer = None;
            app.store_entry(entry);
            match next {
                Some(cmd) => handled(apply_effect(cmd, ui_components, app)),
                None => handled(None),
            }
        },
        Err(err) => {
            ui_components.show_err_msg(err.message());
            handled(None)
        },
    }
}

/// Takes in the outcome of a removal that the host was asked for.
pub fn complete_remove(
    ui_components: &mut UIComponents,
    app: &mut App,
    id: u32,
    result: Result<(), String>,
) -> (r: CmdResult)
    ensures
        r.handled == HandleInputReturnType::Handled,
        outcome_of(*final(ui_components), *final(app), r.request) == removed(
            old(ui_components)@,
            old(app)@,
            id,
            removal_outcome(result),
        ),
        old(app)@.well_formed() ==> final(app)@.well_formed(),
{
    match result {
        Ok(_) => {
            app.drop_entry(id);
        },
        Err(text) => {
            ui_components.show_err_msg(text);
        },
    }
    handled(None)
}

/// Takes in what the external editor left behind: the text of the file, or
/// `None` where the file was gone.
pub fn complete_external_edit(
    ui_components: &mut UIComponents,
    app: &mut App,
    result: Result<Option<String>, String>,
) -> (r: CmdResult)
    ensures
        r.handled == HandleInputReturnType::Handled,
        outcome_of(*final(ui_components), *final(app), r.request) == edited(
            old(ui_components)@,
            old(app)@,
            edit_outcome(result),
        ),
        old(app)@.well_formed() ==> final(app)@.well_formed(),
{
    match result {
        Ok(Some(content)) => {
            let buffer = match &ui_components.edit_buffer {
                Some(b) => Some(
                    EditBuffer {
                        target: b.target,
                        draft: EntryDraft {
                            date: b.draft.date,
                            title: b.draft.title.clone(),
                            content,
                            tags: copy_strings(&b.draft.tags),
                        },
                    },
                ),
                None => match app.get_current_entry() {
                    Some(entry) => Some(
                        EditBuffer {
                            target: Some(entry.id),
                            draft: EntryDraft {
                                date: entry.date,
                                title: entry.title.clone(),
                                content,
                                tags: copy_strings(&entry.tags),
                            },
                        },
                    ),
                    None => None,
                },
            };
            match buffer {
                Some(b) => {
                    let request = if app.settings.external_editor.auto_save {
                        Some(save_request_for(&b, None))
                    } else {
                        None
                    };
                    ui_components.edit_buffer = Some(b);
                    ui_components.change_active_control(ControlType::EntriesList);
                    handled(request)
                },
                None => handled(None),
            }
        },
        Ok(None) => handled(None),
        Err(text) => {
            ui_components.show_err_msg(text);
            handled(None)
        },
    }
}

/// Takes in the path that the host proposes for the export of an entry.
pub fn complete_export(
    ui_components: &mut UIComponents,
    app: &mut App,
    entry_id: u32,
    result: Result<String, String>,
) -> (r: CmdResult)
    ensures
        r.handled == HandleInputReturnType::Handled,
        outcome_of(*final(ui_components), *final(app), r.request) == export_prepared(
            old(ui_components)@,
            old(app)@,
            entry_id,
            export_outcome(result),
        ),
        old(app)@.well_formed() ==> final(app)@.well_formed(),
{
    match result {
        Ok(path) => {
            ui_components.push_popup(Popup::Export { entry_id, path });
        },
        Err(text) => {
            let mut message = String::from_str(EXPORT_ERROR);
            message.append(text.as_str());
            ui_components.show_err_msg(message);
        },
    }
    handled(None)
}

} // verus!
