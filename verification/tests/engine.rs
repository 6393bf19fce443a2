use tui_journal::app::App;
use tui_journal::commands::{
    apply_effect, complete_export, complete_external_edit, complete_remove, complete_save,
    continue_create_entry, continue_cycle_tag_filter, continue_delete_current_entry,
    continue_edit_current_entry, continue_edit_in_external_editor, continue_executing,
    continue_export_entry_content, continue_fuzzy_find, continue_select_next_entry,
    continue_select_prev_entry, continue_show_filter, continue_show_sort_options, create_entry,
    discard_current_content, edit_current_entry, edit_in_external_editor, exec_create_entry,
    exec_cycle_tag_filter, exec_delete_current_entry, exec_edit_current_entry,
    exec_edit_in_external_editor, exec_export_entry_content, exec_reset_filter,
    exec_save_entry_content, exec_select_next_entry, exec_select_prev_entry, exec_show_filter,
    exec_show_fuzzy_find, exec_show_sort_options, exec_toggle_full_screen_mode, execute,
    export_entry_content, handle_input, resolve_msg_box, save_request_for, show_filter,
    show_fuzzy_find, show_sort_options,
};
use tui_journal::engine::{CmdResult, HandleInputReturnType, HostRequest};
use tui_journal::entry::{Entry, EntryDate, EntryDraft, ModifyEntryError};
use tui_journal::filter::Filter;
use tui_journal::popup::{EditBuffer, MsgBoxActions, MsgBoxResult, MsgBoxType, Popup};
use tui_journal::provider::DataProvider;
use tui_journal::settings::Settings;
use tui_journal::sorter::{SortDirection, SortKey, Sorter};
use tui_journal::state::AppState;
use tui_journal::store::EntryStore;
use tui_journal::ui::{ControlType, UICommand, UIComponents};

const GUARDED: [UICommand; 10] = [
    UICommand::SelectedPrevEntry,
    UICommand::SelectedNextEntry,
    UICommand::CreateEntry,
    UICommand::EditCurrentEntry,
    UICommand::ExportEntryContent,
    UICommand::EditInExternalEditor,
    UICommand::ShowFilter,
    UICommand::CycleTagFilter,
    UICommand::ShowFuzzyFind,
    UICommand::ShowSortOptions,
];

fn journal_entry(id: u32, secs: i64, title: &str, content: &str, tags: &[&str]) -> Entry {
    Entry::new(
        id,
        EntryDate::new(secs, 0),
        title.to_string(),
        content.to_string(),
        tags.iter().map(|t| t.to_string()).collect(),
    )
}

fn journal(auto_save: bool, extension: &str) -> App {
    let settings = Settings::new(None, auto_save, extension.to_string(), 5);
    let state = AppState {
        sorter: Sorter::new(SortKey::Date, SortDirection::Ascending),
        full_screen: false,
    };
    let mut app = App::new(settings, state, EntryDate::new(1000, 0));
    assert!(app.load_entries(vec![
        journal_entry(4, 40, "four", "content four", &["work"]),
        journal_entry(5, 50, "five", "content five", &["home"]),
        journal_entry(6, 60, "six", "content six", &["work", "trip"]),
    ]));
    app
}

fn editing(app: &App, id: u32, content: &str) -> EditBuffer {
    let entry = app.entries.iter().find(|e| e.id == id).unwrap();
    let mut draft = entry.to_draft();
    draft.content = content.to_string();
    EditBuffer { target: Some(id), draft }
}

fn unsaved_question() -> Popup {
    Popup::MsgBox {
        kind: MsgBoxType::Question,
        text: "Do you want to save the changes?".to_string(),
        actions: MsgBoxActions::YesNoCancel,
    }
}

fn error_box(text: &str) -> Popup {
    Popup::MsgBox { kind: MsgBoxType::Error, text: text.to_string(), actions: MsgBoxActions::Okay }
}

fn handled_quietly() -> CmdResult {
    CmdResult { handled: HandleInputReturnType::Handled, request: None }
}

#[test]
fn ten_commands_are_guarded_and_three_are_not() {
    for cmd in GUARDED {
        assert!(cmd.is_guarded());
    }
    assert!(!UICommand::DeleteCurrentEntry.is_guarded());
    assert!(!UICommand::ResetFilter.is_guarded());
    assert!(!UICommand::ToggleFullScreenMode.is_guarded());
}

#[test]
fn without_an_edit_every_guarded_command_takes_effect_at_once() {
    for cmd in GUARDED {
        let mut app = journal(false, "");
        app.select(Some(5));
        let mut ui = UIComponents::new();
        let mut expected_app = app.clone();
        let mut expected_ui = ui.clone();
        let expected_request = apply_effect(cmd, &mut expected_ui, &mut expected_app);

        let result = execute(cmd, &mut ui, &mut app);

        assert_eq!(result.handled, HandleInputReturnType::Handled);
        assert_eq!(result.request, expected_request);
        assert_eq!(app, expected_app);
        assert_eq!(ui, expected_ui);
        assert_eq!(ui.pending_command, None);
        assert!(ui.popup_stack.len() <= 1);
        assert!(!ui.popup_stack.iter().any(|p| matches!(p, Popup::MsgBox { .. })));
    }
}

#[test]
fn with_an_edit_every_guarded_command_waits_behind_the_question() {
    for cmd in GUARDED {
        let mut app = journal(false, "");
        app.select(Some(5));
        let before = app.clone();
        let mut ui = UIComponents::new();
        let buffer = editing(&app, 5, "changed");
        ui.edit_buffer = Some(buffer.clone());

        let result = execute(cmd, &mut ui, &mut app);

        assert_eq!(result, handled_quietly());
        assert_eq!(app, before);
        assert_eq!(ui.pending_command, Some(cmd));
        assert_eq!(ui.edit_buffer, Some(buffer));
        assert_eq!(ui.popup_stack, vec![unsaved_question()]);
    }
}

#[test]
fn cancel_and_okay_drop_the_command_and_keep_the_edit() {
    for cmd in GUARDED {
        for answer in [MsgBoxResult::Cancel, MsgBoxResult::Okay] {
            let mut app = journal(false, "");
            app.select(Some(5));
            let before = app.clone();
            let mut ui = UIComponents::new();
            let buffer = editing(&app, 5, "changed");
            ui.edit_buffer = Some(buffer.clone());
            execute(cmd, &mut ui, &mut app);

            let result = resolve_msg_box(&mut ui, &mut app, answer);

            assert_eq!(result, handled_quietly());
            assert_eq!(app, before);
            assert_eq!(ui.edit_buffer, Some(buffer.clone()));
            assert_eq!(ui.pending_command, None);
            assert!(ui.popup_stack.is_empty());
        }
    }
}

#[test]
fn no_discards_the_edit_and_carries_the_command_out() {
    for cmd in GUARDED {
        let mut app = journal(false, "");
        app.select(Some(5));
        let mut ui = UIComponents::new();
        ui.edit_buffer = Some(editing(&app, 5, "changed"));
        let mut expected_app = app.clone();
        let mut expected_ui = UIComponents::new();
        let expected_request = apply_effect(cmd, &mut expected_ui, &mut expected_app);
        execute(cmd, &mut ui, &mut app);

        let result = resolve_msg_box(&mut ui, &mut app, MsgBoxResult::No);

        assert_eq!(result.handled, HandleInputReturnType::Handled);
        assert_eq!(result.request, expected_request);
        assert_eq!(app, expected_app);
        assert_eq!(ui, expected_ui);
        assert_eq!(ui.edit_buffer, None);
        assert_eq!(ui.pending_command, None);
    }
}

#[test]
fn yes_saves_first_and_carries_the_command_out_after_the_save() {
    for cmd in GUARDED {
        let mut app = journal(false, "");
        app.select(Some(5));
        let before = app.clone();
        let mut ui = UIComponents::new();
        let buffer = editing(&app, 5, "changed");
        ui.edit_buffer = Some(buffer.clone());
        execute(cmd, &mut ui, &mut app);

        let result = resolve_msg_box(&mut ui, &mut app, MsgBoxResult::Yes);

        let saved = journal_entry(5, 50, "five", "changed", &["home"]);
        assert_eq!(
            result.request,
            Some(HostRequest::UpdateEntry { entry: saved.clone(), next: Some(cmd) })
        );
        assert_eq!(app, before);
        assert_eq!(ui.edit_buffer, Some(buffer));
        assert_eq!(ui.pending_command, None);
        assert!(ui.popup_stack.is_empty());

        let mut expected_app = app.clone();
        expected_app.store_entry(saved.clone());
        let mut expected_ui = UIComponents::new();
        let expected_request = apply_effect(cmd, &mut expected_ui, &mut expected_app);

        let done = complete_save(&mut ui, &mut app, Ok(saved.clone()), Some(cmd));

        assert_eq!(done.handled, HandleInputReturnType::Handled);
        assert_eq!(done.request, expected_request);
        assert_eq!(app, expected_app);
        assert_eq!(ui, expected_ui);
        assert_eq!(ui.pending_command, None);
        assert_eq!(app.entries[1], saved);
    }
}

#[test]
fn yes_without_an_edit_carries_the_command_out_at_once() {
    let mut app = journal(false, "");
    app.select(Some(4));
    let mut ui = UIComponents::new();
    ui.pending_command = Some(UICommand::SelectedNextEntry);
    let result = continue_executing(
        UICommand::SelectedNextEntry,
        &mut ui,
        &mut app,
        MsgBoxResult::Yes,
    );
    assert_eq!(result, handled_quietly());
    assert_eq!(app.current_entry_id, Some(5));
    assert_eq!(ui.pending_command, None);
}

#[test]
fn editing_entry_five_then_next_then_no_moves_to_the_entry_after_it() {
    let mut app = journal(false, "");
    app.select(Some(5));
    let mut ui = UIComponents::new();
    ui.edit_buffer = Some(editing(&app, 5, "unsaved words"));
    assert!(ui.has_unsaved());
    let stored_before = app.entries.clone();

    let asked = exec_select_next_entry(&mut ui, &mut app);

    assert_eq!(asked, handled_quietly());
    assert_eq!(ui.pending_command, Some(UICommand::SelectedNextEntry));
    assert_eq!(ui.popup_stack, vec![unsaved_question()]);
    assert_eq!(app.current_entry_id, Some(5));

    let answered = resolve_msg_box(&mut ui, &mut app, MsgBoxResult::No);

    assert_eq!(answered, handled_quietly());
    assert_eq!(ui.edit_buffer, None);
    assert!(!ui.has_unsaved());
    assert_eq!(app.current_entry_id, Some(6));
    assert_eq!(ui.pending_command, None);
    assert!(ui.popup_stack.is_empty());
    assert_eq!(app.entries, stored_before);
}

#[test]
fn a_new_draft_goes_through_the_external_editor_and_is_added_once() {
    let mut app = journal(true, "md");
    let mut ui = UIComponents::new();

    assert_eq!(exec_create_entry(&mut ui, &app), handled_quietly());
    assert_eq!(
        ui.popup_stack,
        vec![Popup::Entry(EditBuffer {
            target: None,
            draft: EntryDraft::new(EntryDate::new(1000, 0), String::new(), Vec::new()),
        })]
    );
    if let Some(Popup::Entry(buffer)) = ui.popup_stack.last_mut() {
        buffer.draft.title = "A new day".to_string();
    }
    ui.accept_entry_popup();
    assert!(ui.popup_stack.is_empty());
    assert!(ui.has_unsaved());

    let request = edit_in_external_editor(&mut ui, &mut app);
    assert_eq!(
        request,
        Some(HostRequest::EditExternally {
            file_name: "tui_journal.md".to_string(),
            content: String::new(),
        })
    );
    assert!(app.redraw_after_restore);

    let after_editor =
        complete_external_edit(&mut ui, &mut app, Ok(Some("written outside".to_string())));

    let mut draft = EntryDraft::new(EntryDate::new(1000, 0), "A new day".to_string(), Vec::new());
    draft.content = "written outside".to_string();
    assert_eq!(ui.edit_buffer, Some(EditBuffer { target: None, draft: draft.clone() }));
    assert_eq!(ui.active_control, ControlType::EntriesList);
    assert_eq!(
        after_editor.request,
        Some(HostRequest::AddEntry { draft: draft.clone(), next: None })
    );
    assert_eq!(app.entries.len(), 3);

    let stored = Entry::from_draft(7, draft);
    let done = complete_save(&mut ui, &mut app, Ok(stored.clone()), None);

    assert_eq!(done, handled_quietly());
    assert_eq!(ui.edit_buffer, None);
    assert_eq!(app.entries.len(), 4);
    assert_eq!(app.entries[3], stored);
    assert_eq!(app.current_entry_id, Some(7));
    assert_eq!(app.get_current_entry(), Some(&stored));
}

#[test]
fn without_auto_save_the_external_edit_stays_unsaved() {
    let mut app = journal(false, "");
    app.select(Some(4));
    let mut ui = UIComponents::new();
    ui.active_control = ControlType::EntryContentTxt;

    let result = exec_edit_in_external_editor(&mut ui, &mut app);
    assert_eq!(
        result.request,
        Some(HostRequest::EditExternally {
            file_name: "tui_journal".to_string(),
            content: "content four".to_string(),
        })
    );
    assert_eq!(ui.edit_buffer, None);

    let done = complete_external_edit(&mut ui, &mut app, Ok(Some("four, revised".to_string())));
    assert_eq!(done, handled_quietly());
    assert_eq!(ui.edit_buffer, Some(editing(&app, 4, "four, revised")));
    assert_eq!(ui.active_control, ControlType::EntriesList);
    assert_eq!(app.entries[0].content, "content four");
}

#[test]
fn with_auto_save_the_external_edit_of_an_entry_is_an_update() {
    let mut app = journal(true, "txt");
    app.select(Some(6));
    let mut ui = UIComponents::new();
    let result = exec_edit_in_external_editor(&mut ui, &mut app);
    assert_eq!(
        result.request,
        Some(HostRequest::EditExternally {
            file_name: "tui_journal.txt".to_string(),
            content: "content six".to_string(),
        })
    );
    let done = complete_external_edit(&mut ui, &mut app, Ok(Some("six!".to_string())));
    assert_eq!(
        done.request,
        Some(HostRequest::UpdateEntry {
            entry: journal_entry(6, 60, "six", "six!", &["work", "trip"]),
            next: None,
        })
    );
}

#[test]
fn an_external_edit_without_a_subject_does_nothing() {
    let mut app = journal(true, "");
    let mut ui = UIComponents::new();
    let before = app.clone();
    assert_eq!(edit_in_external_editor(&mut ui, &mut app), None);
    assert_eq!(app, before);
    assert_eq!(
        complete_external_edit(&mut ui, &mut app, Ok(Some("x".to_string()))),
        handled_quietly()
    );
    assert_eq!(ui, UIComponents::new());
    assert_eq!(app, before);
}

#[test]
fn a_vanished_file_changes_nothing_and_a_failed_editor_is_shown() {
    let mut app = journal(true, "");
    app.select(Some(4));
    let mut ui = UIComponents::new();
    let before = app.clone();
    assert_eq!(complete_external_edit(&mut ui, &mut app, Ok(None)), handled_quietly());
    assert_eq!(ui, UIComponents::new());
    assert_eq!(app, before);
    assert_eq!(
        complete_external_edit(&mut ui, &mut app, Err("editor not found".to_string())),
        handled_quietly()
    );
    assert_eq!(ui.popup_stack, vec![error_box("editor not found")]);
    assert_eq!(ui.edit_buffer, None);
    assert_eq!(app, before);
}

#[test]
fn a_refused_save_is_shown_and_keeps_the_edit() {
    for error in [
        ModifyEntryError::ValidationError("Entry title can't be empty".to_string()),
        ModifyEntryError::DataError("disk full".to_string()),
    ] {
        let mut app = journal(false, "");
        app.select(Some(5));
        let before = app.clone();
        let mut ui = UIComponents::new();
        let buffer = editing(&app, 5, "changed");
        ui.edit_buffer = Some(buffer.clone());

        let done = complete_save(
            &mut ui,
            &mut app,
            Err(error.clone()),
            Some(UICommand::SelectedNextEntry),
        );

        assert_eq!(done, handled_quietly());
        assert_eq!(app, before);
        assert_eq!(ui.edit_buffer, Some(buffer));
        assert_eq!(ui.pending_command, None);
        assert_eq!(ui.popup_stack, vec![error_box(&error.message())]);
        assert_eq!(resolve_msg_box(&mut ui, &mut app, MsgBoxResult::Okay), handled_quietly());
        assert!(ui.popup_stack.is_empty());
        assert!(ui.has_unsaved());
    }
}

#[test]
fn the_save_command_asks_for_an_update_or_an_addition() {
    let mut app = journal(false, "");
    let mut ui = UIComponents::new();
    assert_eq!(exec_save_entry_content(&mut ui, &mut app), handled_quietly());

    let buffer = editing(&app, 4, "new four");
    ui.edit_buffer = Some(buffer.clone());
    assert_eq!(
        exec_save_entry_content(&mut ui, &mut app).request,
        Some(HostRequest::UpdateEntry {
            entry: journal_entry(4, 40, "four", "new four", &["work"]),
            next: None,
        })
    );
    assert_eq!(ui.edit_buffer, Some(buffer));

    let draft = EntryDraft::new(EntryDate::new(1, 1), "fresh".to_string(), Vec::new());
    let fresh = EditBuffer { target: None, draft: draft.clone() };
    assert_eq!(
        save_request_for(&fresh, Some(UICommand::ShowFilter)),
        HostRequest::AddEntry { draft, next: Some(UICommand::ShowFilter) }
    );
}

#[test]
fn removing_asks_first_whatever_is_being_edited() {
    for with_edit in [false, true] {
        let mut app = journal(false, "");
        app.select(Some(5));
        let before = app.clone();
        let mut ui = UIComponents::new();
        let buffer = if with_edit { Some(editing(&app, 5, "changed")) } else { None };
        ui.edit_buffer = buffer.clone();

        assert_eq!(exec_delete_current_entry(&mut ui, &app), handled_quietly());

        assert_eq!(ui.pending_command, Some(UICommand::DeleteCurrentEntry));
        assert_eq!(
            ui.popup_stack,
            vec![Popup::MsgBox {
                kind: MsgBoxType::Question,
                text: "Do you want to remove the current journal?".to_string(),
                actions: MsgBoxActions::YesNo,
            }]
        );
        assert_eq!(ui.edit_buffer, buffer);
        assert_eq!(app, before);

        let answered = resolve_msg_box(&mut ui, &mut app, MsgBoxResult::Yes);
        assert_eq!(answered.request, Some(HostRequest::RemoveEntry { id: 5 }));
        assert_eq!(app, before);
        assert_eq!(ui.edit_buffer, buffer);
        assert_eq!(ui.pending_command, None);

        assert_eq!(complete_remove(&mut ui, &mut app, 5, Ok(())), handled_quietly());
        assert_eq!(app.entries.len(), 2);
        assert_eq!(app.current_entry_id, None);
        assert_eq!(ui.edit_buffer, buffer);
    }
}

#[test]
fn removing_is_dropped_by_every_answer_but_yes() {
    for answer in [MsgBoxResult::No, MsgBoxResult::Cancel, MsgBoxResult::Okay] {
        let mut app = journal(false, "");
        app.select(Some(5));
        let before = app.clone();
        let mut ui = UIComponents::new();
        exec_delete_current_entry(&mut ui, &app);
        assert_eq!(resolve_msg_box(&mut ui, &mut app, answer), handled_quietly());
        assert_eq!(app, before);
        assert_eq!(ui, UIComponents::new());
        assert_eq!(continue_delete_current_entry(&mut app, answer), handled_quietly());
        assert_eq!(app, before);
    }
    let mut app = journal(false, "");
    app.select(Some(6));
    assert_eq!(
        continue_delete_current_entry(&mut app, MsgBoxResult::Yes).request,
        Some(HostRequest::RemoveEntry { id: 6 })
    );
}

#[test]
fn removing_without_a_selection_asks_nothing() {
    let mut app = journal(false, "");
    let mut ui = UIComponents::new();
    assert_eq!(exec_delete_current_entry(&mut ui, &app), handled_quietly());
    assert_eq!(ui, UIComponents::new());
    assert_eq!(continue_delete_current_entry(&mut app, MsgBoxResult::Yes), handled_quietly());
}

#[test]
fn a_failed_removal_is_shown_and_removes_nothing() {
    let mut app = journal(false, "");
    app.select(Some(5));
    let before = app.clone();
    let mut ui = UIComponents::new();
    assert_eq!(
        complete_remove(&mut ui, &mut app, 5, Err("No entry has the given id".to_string())),
        handled_quietly()
    );
    assert_eq!(app, before);
    assert_eq!(ui.popup_stack, vec![error_box("No entry has the given id")]);
}

#[test]
fn resetting_the_filter_and_full_screen_ask_nothing() {
    let mut app = journal(false, "");
    let mut ui = UIComponents::new();
    ui.edit_buffer = Some(editing(&app, 5, "changed"));
    app.apply_filter(Some(Filter::new(vec!["work".to_string()], String::new())));
    assert_eq!(app.get_active_entries().len(), 2);

    assert_eq!(execute(UICommand::ResetFilter, &mut ui, &mut app), handled_quietly());
    assert_eq!(app.filter, None);
    assert_eq!(app.get_active_entries().len(), 3);
    assert!(ui.popup_stack.is_empty());
    assert!(ui.has_unsaved());

    assert_eq!(execute(UICommand::ToggleFullScreenMode, &mut ui, &mut app), handled_quietly());
    assert!(app.state.full_screen);
    assert_eq!(exec_toggle_full_screen_mode(&mut app), handled_quietly());
    assert!(!app.state.full_screen);
    assert!(ui.popup_stack.is_empty());

    app.apply_filter(Some(Filter::new(Vec::new(), "six".to_string())));
    assert_eq!(exec_reset_filter(&mut app), handled_quietly());
    assert_eq!(app.filter, None);
}

#[test]
fn the_popups_carry_what_they_need() {
    let mut app = journal(false, "");
    app.select(Some(6));
    app.apply_filter(Some(Filter::new(Vec::new(), "i".to_string())));
    let mut ui = UIComponents::new();

    edit_current_entry(&mut ui, &app);
    show_filter(&mut ui, &app);
    show_fuzzy_find(&mut ui, &app);
    show_sort_options(&mut ui, &app);
    create_entry(&mut ui, &app);

    assert_eq!(
        ui.popup_stack,
        vec![
            Popup::Entry(EditBuffer {
                target: Some(6),
                draft: journal_entry(6, 60, "six", "content six", &["work", "trip"]).to_draft(),
            }),
            Popup::Filter {
                tags: vec!["home".to_string(), "trip".to_string(), "work".to_string()],
                filter: Some(Filter::new(Vec::new(), "i".to_string())),
            },
            Popup::FuzzFind { entries: vec![(5, "five".to_string()), (6, "six".to_string())] },
            Popup::Sort { sorter: Sorter::new(SortKey::Date, SortDirection::Ascending) },
            Popup::Entry(EditBuffer {
                target: None,
                draft: EntryDraft::new(EntryDate::new(1000, 0), String::new(), Vec::new()),
            }),
        ]
    );
}

#[test]
fn editing_without_a_selection_opens_nothing() {
    let mut app = journal(false, "");
    let mut ui = UIComponents::new();
    assert_eq!(exec_edit_current_entry(&mut ui, &mut app), handled_quietly());
    assert_eq!(exec_export_entry_content(&mut ui, &app), handled_quietly());
    assert_eq!(ui, UIComponents::new());
}

#[test]
fn the_export_dialog_opens_with_the_path_or_shows_the_failure() {
    let mut app = journal(false, "");
    app.select(Some(4));
    let mut ui = UIComponents::new();
    assert_eq!(
        export_entry_content(&mut ui, &app),
        Some(HostRequest::PrepareExport { entry_id: 4 })
    );
    assert_eq!(
        exec_export_entry_content(&mut ui, &app).request,
        Some(HostRequest::PrepareExport { entry_id: 4 })
    );
    assert!(ui.popup_stack.is_empty());

    assert_eq!(
        complete_export(&mut ui, &mut app, 4, Ok("/tmp/four.txt".to_string())),
        handled_quietly()
    );
    assert_eq!(
        ui.popup_stack,
        vec![Popup::Export { entry_id: 4, path: "/tmp/four.txt".to_string() }]
    );

    let mut other = UIComponents::new();
    assert_eq!(
        complete_export(&mut other, &mut app, 4, Err("no working directory".to_string())),
        handled_quietly()
    );
    assert_eq!(
        other.popup_stack,
        vec![error_box("Error while creating export dialog.\n Err: no working directory")]
    );
}

#[test]
fn an_open_popup_owns_the_input() {
    let mut app = journal(false, "");
    app.select(Some(4));
    let mut ui = UIComponents::new();
    ui.edit_buffer = Some(editing(&app, 4, "changed"));
    assert_eq!(
        handle_input(UICommand::SelectedNextEntry, &mut ui, &mut app),
        handled_quietly()
    );
    assert_eq!(ui.pending_command, Some(UICommand::SelectedNextEntry));
    let waiting_ui = ui.clone();
    let waiting_app = app.clone();

    for cmd in GUARDED {
        let ignored = handle_input(cmd, &mut ui, &mut app);
        assert_eq!(ignored, CmdResult { handled: HandleInputReturnType::Ignore, request: None });
        assert_eq!(ui, waiting_ui);
        assert_eq!(app, waiting_app);
    }
    let ignored = handle_input(UICommand::DeleteCurrentEntry, &mut ui, &mut app);
    assert_eq!(ignored.handled, HandleInputReturnType::Ignore);
    assert_eq!(ui, waiting_ui);
}

#[test]
fn an_answer_without_a_message_box_is_ignored() {
    let mut app = journal(false, "");
    let mut ui = UIComponents::new();
    let before = app.clone();
    assert_eq!(resolve_msg_box(&mut ui, &mut app, MsgBoxResult::Yes), handled_quietly());
    assert_eq!(ui, UIComponents::new());
    show_sort_options(&mut ui, &app);
    ui.pending_command = Some(UICommand::SelectedNextEntry);
    let open = ui.clone();
    assert_eq!(resolve_msg_box(&mut ui, &mut app, MsgBoxResult::Yes), handled_quietly());
    assert_eq!(ui, open);
    assert_eq!(app, before);
}

#[test]
fn discarding_ends_the_edit() {
    let app = journal(false, "");
    let mut ui = UIComponents::new();
    ui.edit_buffer = Some(editing(&app, 4, "changed"));
    discard_current_content(&mut ui, &app);
    assert_eq!(ui, UIComponents::new());
}

#[test]
fn each_named_command_is_the_engine_with_its_command() {
    type Exec = fn(&mut UIComponents, &mut App) -> CmdResult;
    type Continue = fn(&mut UIComponents, &mut App, MsgBoxResult) -> CmdResult;
    let by_ref_create: Exec = |ui, app| exec_create_entry(ui, app);
    let by_ref_export: Exec = |ui, app| exec_export_entry_content(ui, app);
    let named: [(UICommand, Exec, Continue); 10] = [
        (UICommand::SelectedPrevEntry, exec_select_prev_entry, continue_select_prev_entry),
        (UICommand::SelectedNextEntry, exec_select_next_entry, continue_select_next_entry),
        (UICommand::CreateEntry, by_ref_create, continue_create_entry),
        (UICommand::EditCurrentEntry, exec_edit_current_entry, continue_edit_current_entry),
        (UICommand::ExportEntryContent, by_ref_export, continue_export_entry_content),
        (
            UICommand::EditInExternalEditor,
            exec_edit_in_external_editor,
            continue_edit_in_external_editor,
        ),
        (UICommand::ShowFilter, exec_show_filter, continue_show_filter),
        (UICommand::CycleTagFilter, exec_cycle_tag_filter, continue_cycle_tag_filter),
        (UICommand::ShowFuzzyFind, exec_show_fuzzy_find, continue_fuzzy_find),
        (UICommand::ShowSortOptions, exec_show_sort_options, continue_show_sort_options),
    ];
    for (cmd, exec, resume) in named {
        for with_edit in [false, true] {
            let mut app = journal(true, "md");
            app.select(Some(5));
            let mut ui = UIComponents::new();
            if with_edit {
                ui.edit_buffer = Some(editing(&app, 5, "changed"));
            }
            let mut generic_app = app.clone();
            let mut generic_ui = ui.clone();
            assert_eq!(exec(&mut ui, &mut app), execute(cmd, &mut generic_ui, &mut generic_app));
            assert_eq!(ui, generic_ui);
            assert_eq!(app, generic_app);
            for answer in
                [MsgBoxResult::Yes, MsgBoxResult::No, MsgBoxResult::Cancel, MsgBoxResult::Okay]
            {
                let mut a = app.clone();
                let mut u = ui.clone();
                let mut ga = app.clone();
                let mut gu = ui.clone();
                assert_eq!(
                    resume(&mut u, &mut a, answer),
                    continue_executing(cmd, &mut gu, &mut ga, answer)
                );
                assert_eq!(u, gu);
                assert_eq!(a, ga);
                assert_eq!(u.pending_command, None);
            }
        }
    }
}

/// A host for the tests: storage in memory, and an editor that writes what
/// the test tells it to.
struct Desk {
    store: EntryStore,
    additions: usize,
    updates: usize,
    removals: usize,
    editor_writes: Option<String>,
    editor_saw: Vec<(String, String)>,
}

fn desk_for(app: &App) -> Desk {
    let mut store = EntryStore::new();
    store.entries = app.entries.clone();
    Desk {
        store,
        additions: 0,
        updates: 0,
        removals: 0,
        editor_writes: None,
        editor_saw: Vec::new(),
    }
}

fn serve(desk: &mut Desk, ui: &mut UIComponents, app: &mut App, first: CmdResult) -> CmdResult {
    let mut result = first;
    while let Some(request) = result.request.take() {
        result = match request {
            HostRequest::AddEntry { draft, next } => {
                desk.additions += 1;
                complete_save(ui, app, desk.store.add_entry(draft), next)
            }
            HostRequest::UpdateEntry { entry, next } => {
                desk.updates += 1;
                complete_save(ui, app, desk.store.update_entry(entry), next)
            }
            HostRequest::RemoveEntry { id } => {
                desk.removals += 1;
                complete_remove(ui, app, id, desk.store.remove_entry(id))
            }
            HostRequest::EditExternally { file_name, content } => {
                desk.editor_saw.push((file_name, content));
                complete_external_edit(ui, app, Ok(desk.editor_writes.clone()))
            }
            HostRequest::PrepareExport { entry_id } => {
                complete_export(ui, app, entry_id, Ok(format!("/exports/{entry_id}.txt")))
            }
        };
    }
    result
}

#[test]
fn declining_to_save_writes_nothing_to_storage() {
    let mut app = journal(false, "");
    app.select(Some(5));
    let mut desk = desk_for(&app);
    let stored = desk.store.clone();
    let mut ui = UIComponents::new();
    ui.edit_buffer = Some(editing(&app, 5, "unsaved words"));

    let asked = handle_input(UICommand::SelectedNextEntry, &mut ui, &mut app);
    let asked = serve(&mut desk, &mut ui, &mut app, asked);
    assert_eq!(asked, handled_quietly());
    assert_eq!(ui.pending_command, Some(UICommand::SelectedNextEntry));

    let answered = resolve_msg_box(&mut ui, &mut app, MsgBoxResult::No);
    let answered = serve(&mut desk, &mut ui, &mut app, answered);

    assert_eq!(answered, handled_quietly());
    assert_eq!(ui, UIComponents::new());
    assert_eq!(app.current_entry_id, Some(6));
    assert_eq!(desk.store, stored);
    assert_eq!((desk.additions, desk.updates, desk.removals), (0, 0, 0));
}

#[test]
fn agreeing_to_save_writes_once_and_then_moves_on() {
    let mut app = journal(false, "");
    app.select(Some(5));
    let mut desk = desk_for(&app);
    let mut ui = UIComponents::new();
    ui.edit_buffer = Some(editing(&app, 5, "saved words"));

    let asked = handle_input(UICommand::SelectedNextEntry, &mut ui, &mut app);
    serve(&mut desk, &mut ui, &mut app, asked);
    let answered = resolve_msg_box(&mut ui, &mut app, MsgBoxResult::Yes);
    let answered = serve(&mut desk, &mut ui, &mut app, answered);

    assert_eq!(answered, handled_quietly());
    assert_eq!(ui, UIComponents::new());
    assert_eq!(app.current_entry_id, Some(6));
    assert_eq!((desk.additions, desk.updates, desk.removals), (0, 1, 0));
    assert_eq!(desk.store.entries[1].content, "saved words");
    assert_eq!(app.entries, desk.store.entries);
}

#[test]
fn a_new_draft_is_added_to_storage_once_after_the_external_edit() {
    let mut app = journal(true, "");
    let mut desk = desk_for(&app);
    desk.editor_writes = Some("written in the editor".to_string());
    let mut ui = UIComponents::new();

    let opened = handle_input(UICommand::CreateEntry, &mut ui, &mut app);
    assert_eq!(serve(&mut desk, &mut ui, &mut app, opened), handled_quietly());
    if let Some(Popup::Entry(buffer)) = ui.popup_stack.last_mut() {
        buffer.draft.title = "A new day".to_string();
    }
    ui.accept_entry_popup();

    let request = edit_in_external_editor(&mut ui, &mut app);
    let done = serve(
        &mut desk,
        &mut ui,
        &mut app,
        CmdResult { handled: HandleInputReturnType::Handled, request },
    );

    assert_eq!(done, handled_quietly());
    assert_eq!(desk.editor_saw, vec![("tui_journal".to_string(), String::new())]);
    assert_eq!((desk.additions, desk.updates, desk.removals), (1, 0, 0));
    assert_eq!(ui.edit_buffer, None);
    assert_eq!(desk.store.entries.len(), 4);
    let added = desk.store.entries[3].clone();
    assert_eq!(added.id, 7);
    assert_eq!(added.title, "A new day");
    assert_eq!(added.content, "written in the editor");
    assert_eq!(added.date, EntryDate::new(1000, 0));
    assert_eq!(app.entries, desk.store.entries);
    assert_eq!(app.current_entry_id, Some(7));
}

#[test]
fn a_draft_that_storage_refuses_stays_in_the_editor() {
    let mut app = journal(true, "");
    let mut desk = desk_for(&app);
    desk.editor_writes = Some("text without a title".to_string());
    let mut ui = UIComponents::new();
    create_entry(&mut ui, &app);
    ui.accept_entry_popup();

    let request = edit_in_external_editor(&mut ui, &mut app);
    let done = serve(
        &mut desk,
        &mut ui,
        &mut app,
        CmdResult { handled: HandleInputReturnType::Handled, request },
    );

    assert_eq!(done, handled_quietly());
    assert_eq!(desk.additions, 1);
    assert_eq!(desk.store.entries.len(), 3);
    assert_eq!(app.entries.len(), 3);
    assert!(ui.has_unsaved());
    assert_eq!(ui.popup_stack, vec![error_box("Entry title can't be empty")]);
}

#[test]
fn a_confirmed_removal_reaches_storage() {
    let mut app = journal(false, "");
    app.select(Some(4));
    let mut desk = desk_for(&app);
    let mut ui = UIComponents::new();

    let asked = handle_input(UICommand::DeleteCurrentEntry, &mut ui, &mut app);
    serve(&mut desk, &mut ui, &mut app, asked);
    assert_eq!(desk.removals, 0);
    let answered = resolve_msg_box(&mut ui, &mut app, MsgBoxResult::Yes);
    let answered = serve(&mut desk, &mut ui, &mut app, answered);

    assert_eq!(answered, handled_quietly());
    assert_eq!(desk.removals, 1);
    assert_eq!(app.entries, desk.store.entries);
    assert_eq!(app.entries.iter().map(|e| e.id).collect::<Vec<u32>>(), vec![5, 6]);
    assert_eq!(app.current_entry_id, None);
    assert_eq!(ui, UIComponents::new());
}

#[test]
fn saving_and_then_exporting_opens_the_dialog_after_the_save() {
    let mut app = journal(false, "");
    app.select(Some(6));
    let mut desk = desk_for(&app);
    let mut ui = UIComponents::new();
    ui.edit_buffer = Some(editing(&app, 6, "six, final"));

    let asked = handle_input(UICommand::ExportEntryContent, &mut ui, &mut app);
    serve(&mut desk, &mut ui, &mut app, asked);
    let answered = resolve_msg_box(&mut ui, &mut app, MsgBoxResult::Yes);
    let answered = serve(&mut desk, &mut ui, &mut app, answered);

    assert_eq!(answered, handled_quietly());
    assert_eq!(desk.updates, 1);
    assert_eq!(desk.store.entries[2].content, "six, final");
    assert_eq!(ui.edit_buffer, None);
    assert_eq!(
        ui.popup_stack,
        vec![Popup::Export { entry_id: 6, path: "/exports/6.txt".to_string() }]
    );
}
