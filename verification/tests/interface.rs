use tui_journal::entry::{EntryDate, EntryDraft};
use tui_journal::popup::{EditBuffer, MsgBoxActions, MsgBoxType, Popup};
use tui_journal::sorter::Sorter;
use tui_journal::ui::{ControlType, UICommand, UIComponents};

fn a_draft(title: &str) -> EntryDraft {
    EntryDraft::new(EntryDate::new(5, 5), title.to_string(), vec!["t".to_string()])
}

#[test]
fn a_new_interface_is_empty() {
    let ui = UIComponents::new();
    assert!(ui.popup_stack.is_empty());
    assert_eq!(ui.edit_buffer, None);
    assert_eq!(ui.active_control, ControlType::EntriesList);
    assert_eq!(ui.pending_command, None);
    assert!(!ui.has_unsaved());
}

#[test]
fn an_edit_in_progress_is_what_unsaved_means() {
    let mut ui = UIComponents::new();
    ui.edit_buffer = Some(EditBuffer { target: None, draft: a_draft("x") });
    assert!(ui.has_unsaved());
    ui.edit_buffer = None;
    assert!(!ui.has_unsaved());
}

#[test]
fn popups_are_stacked() {
    let mut ui = UIComponents::new();
    let sort = Popup::Sort { sorter: Sorter::default() };
    let export = Popup::Export { entry_id: 3, path: "p".to_string() };
    ui.push_popup(sort.clone());
    ui.push_popup(export.clone());
    assert_eq!(ui.popup_stack, vec![sort.clone(), export.clone()]);
    assert_eq!(ui.pop_popup(), Some(export));
    assert_eq!(ui.pop_popup(), Some(sort));
    assert_eq!(ui.pop_popup(), None);
    assert_eq!(ui, UIComponents::new());
}

#[test]
fn a_message_box_parks_the_command() {
    let mut ui = UIComponents::new();
    ui.show_msg_box(
        MsgBoxType::Warning,
        "careful".to_string(),
        MsgBoxActions::OkCancel,
        Some(UICommand::ShowFilter),
    );
    assert_eq!(ui.pending_command, Some(UICommand::ShowFilter));
    assert_eq!(
        ui.popup_stack,
        vec![Popup::MsgBox {
            kind: MsgBoxType::Warning,
            text: "careful".to_string(),
            actions: MsgBoxActions::OkCancel,
        }]
    );
}

#[test]
fn the_question_about_unsaved_changes_offers_three_answers() {
    let mut ui = UIComponents::new();
    ui.show_unsaved_msg_box(Some(UICommand::CreateEntry));
    assert_eq!(ui.pending_command, Some(UICommand::CreateEntry));
    assert_eq!(
        ui.popup_stack,
        vec![Popup::MsgBox {
            kind: MsgBoxType::Question,
            text: "Do you want to save the changes?".to_string(),
            actions: MsgBoxActions::YesNoCancel,
        }]
    );
}

#[test]
fn an_error_parks_no_command() {
    let mut ui = UIComponents::new();
    ui.pending_command = Some(UICommand::CreateEntry);
    ui.show_err_msg("broken".to_string());
    assert_eq!(ui.pending_command, None);
    assert_eq!(
        ui.popup_stack,
        vec![Popup::MsgBox {
            kind: MsgBoxType::Error,
            text: "broken".to_string(),
            actions: MsgBoxActions::Okay,
        }]
    );
}

#[test]
fn the_focus_changes() {
    let mut ui = UIComponents::new();
    ui.change_active_control(ControlType::EntryContentTxt);
    assert_eq!(ui.active_control, ControlType::EntryContentTxt);
}

#[test]
fn accepting_the_entry_popup_starts_the_edit() {
    let mut ui = UIComponents::new();
    let buffer = EditBuffer { target: Some(3), draft: a_draft("title") };
    ui.push_popup(Popup::Sort { sorter: Sorter::default() });
    ui.push_popup(Popup::Entry(buffer.clone()));
    ui.accept_entry_popup();
    assert_eq!(ui.edit_buffer, Some(buffer.clone()));
    assert_eq!(ui.popup_stack.len(), 1);
    assert_eq!(buffer.duplicate(), buffer);
}

#[test]
fn accepting_another_popup_changes_nothing() {
    let mut ui = UIComponents::new();
    ui.accept_entry_popup();
    assert_eq!(ui, UIComponents::new());
    ui.push_popup(Popup::Entry(EditBuffer { target: None, draft: a_draft("below") }));
    ui.push_popup(Popup::Sort { sorter: Sorter::default() });
    let before = ui.clone();
    ui.accept_entry_popup();
    assert_eq!(ui, before);
}
