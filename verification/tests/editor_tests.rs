use rustpad::editor::{status_text, Command, Document, RustPad};
use rustpad::file_ops::FileError;
use rustpad::message::{DialogKind, FindDirection, FontChoice, Message, PendingAction};
use rustpad::settings::{Settings, SettingsError};
use rustpad::timestamp::LocalTime;

fn doc(text: &str) -> Document {
    Document { text: text.to_string(), cursor_line: 0, cursor_column: 0, selection: None }
}

fn pad() -> RustPad {
    RustPad::new(Ok(Settings { dark_mode: false }))
}

fn set_text(cmds: &[Command]) -> Option<String> {
    match cmds {
        [Command::SetText(t)] => Some(t.clone()),
        _ => None,
    }
}

#[test]
fn starts_untitled_and_clean() {
    let p = pad();
    assert_eq!(p.title(false), "Untitled - RustPad");
    assert!(p.show_status_bar);
    assert!(!p.word_wrap);
    assert_eq!(p.font_family, FontChoice::Monospace);
    assert_eq!(p.font_dialog_size_text, "16");
    assert!(p.alert_message.is_none());
}

#[test]
fn settings_error_at_start_is_alerted() {
    let p = RustPad::new(Err(SettingsError::ConfigDirectoryUnavailable));
    assert_eq!(
        p.alert_message.as_deref(),
        Some("Failed to locate a config directory for RustPad.")
    );
    assert!(!p.dark_mode);
    let p = RustPad::new(Ok(Settings { dark_mode: true }));
    assert!(p.dark_mode);
}

#[test]
fn title_marks_unsaved_changes() {
    let mut p = pad();
    let cmds = p.update(Message::EditorAction { is_edit: true }, &doc(""));
    assert!(matches!(cmds.as_slice(), [Command::PerformEditorAction]));
    assert_eq!(p.title(false), "*Untitled - RustPad");
    p.update(Message::FileSaved(Ok("/home/u/notes.txt".to_string())), &doc("x"));
    assert_eq!(p.title(false), "notes.txt - RustPad");
    assert_eq!(p.save_prompt_text(false), "Do you want to save changes to notes.txt?");
    p.update(Message::FileSaved(Ok("D:\\work\\todo.txt".to_string())), &doc("x"));
    assert_eq!(p.title(true), "todo.txt - RustPad");
    assert_eq!(p.save_prompt_text(true), "Do you want to save changes to todo.txt?");
}

#[test]
fn undo_twice_restores_text() {
    let mut p = pad();
    p.update(Message::EditorAction { is_edit: true }, &doc("before"));
    assert_eq!(p.undo_snapshot.as_deref(), Some("before"));
    let first = p.update(Message::Undo, &doc("after"));
    assert_eq!(set_text(&first), Some("before".to_string()));
    let second = p.update(Message::Undo, &doc("before"));
    assert_eq!(set_text(&second), Some("after".to_string()));
}

#[test]
fn later_edits_keep_first_snapshot() {
    let mut p = pad();
    p.update(Message::EditorAction { is_edit: true }, &doc("v1"));
    p.update(Message::EditorAction { is_edit: true }, &doc("v2"));
    assert_eq!(p.undo_snapshot.as_deref(), Some("v1"));
}

#[test]
fn unsaved_changes_raise_the_save_prompt() {
    let mut p = pad();
    p.update(Message::EditorAction { is_edit: true }, &doc(""));
    let cmds = p.update(Message::NewFile, &doc("text"));
    assert!(cmds.is_empty());
    assert_eq!(p.dialog, Some(DialogKind::SavePrompt));
    assert_eq!(p.pending_action, Some(PendingAction::New));
    let cmds = p.update(Message::SavePromptDontSave, &doc("text"));
    assert_eq!(set_text(&cmds), Some(String::new()));
    assert!(!p.is_dirty);
    assert!(p.dialog.is_none());
    assert!(p.pending_action.is_none());
}

#[test]
fn exit_without_changes_exits() {
    let mut p = pad();
    let cmds = p.update(Message::CloseRequested, &doc(""));
    assert!(matches!(cmds.as_slice(), [Command::Exit]));
}

#[test]
fn save_then_pending_exit() {
    let mut p = pad();
    p.update(Message::EditorAction { is_edit: true }, &doc(""));
    p.update(Message::Exit, &doc("t"));
    let cmds = p.update(Message::SavePromptSave, &doc("t"));
    assert!(matches!(cmds.as_slice(), [Command::SaveFile { path: None, contents }] if contents == "t"));
    let cmds = p.update(Message::FileSaved(Ok("/tmp/a.txt".to_string())), &doc("t"));
    assert!(matches!(cmds.as_slice(), [Command::Exit]));
}

#[test]
fn failed_open_is_alerted() {
    let mut p = pad();
    let now = LocalTime::new(2024, 3, 5, 14, 7).unwrap();
    p.update(
        Message::FileOpened {
            result: Err(FileError::UnsupportedEncoding("/x/bin.dat".to_string())),
            now,
        },
        &doc(""),
    );
    assert_eq!(
        p.alert_message.as_deref(),
        Some("RustPad can only open UTF-8 text files: /x/bin.dat")
    );
}

#[test]
fn opening_a_log_file_appends_a_time_stamp() {
    let mut p = pad();
    let now = LocalTime::new(2024, 3, 5, 14, 7).unwrap();
    let cmds = p.update(
        Message::FileOpened { result: Ok(("/x/log.txt".to_string(), ".LOG\nday one".to_string())), now },
        &doc(""),
    );
    match cmds.as_slice() {
        [Command::SetText(t), Command::MoveToDocumentEnd, Command::Paste(stamp)] => {
            assert_eq!(t, ".LOG\nday one");
            assert_eq!(stamp, "\n02:07 PM 03/05/2024\n");
        }
        _ => panic!("unexpected commands"),
    }
    assert!(p.is_dirty);
    assert_eq!(p.undo_snapshot.as_deref(), Some(".LOG\nday one"));
}

#[test]
fn time_date_is_inserted() {
    let mut p = pad();
    let now = LocalTime::new(2023, 12, 31, 0, 5).unwrap();
    let cmds = p.update(Message::InsertTimeDate { now }, &doc("x"));
    assert!(matches!(cmds.as_slice(), [Command::Paste(s)] if s == "12:05 AM 12/31/2023"));
    assert!(p.is_dirty);
}

#[test]
fn find_next_selects_the_match() {
    let mut p = pad();
    p.update(Message::FindTextChanged("World".to_string()), &doc(""));
    let d = Document { text: "hello\nworld world".to_string(), cursor_line: 1, cursor_column: 1, selection: None };
    let cmds = p.update(Message::FindNext, &d);
    assert!(matches!(cmds.as_slice(), [Command::Select { line: 1, column: 6, len: 5 }]));
    p.update(Message::FindDirectionChanged(FindDirection::Up), &d);
    let cmds = p.update(Message::FindNext, &d);
    assert!(matches!(cmds.as_slice(), [Command::Select { line: 1, column: 6, len: 5 }]));
}

#[test]
fn find_without_match_alerts() {
    let mut p = pad();
    p.update(Message::FindTextChanged("zzz".to_string()), &doc(""));
    let cmds = p.update(Message::FindNext, &doc("abc"));
    assert!(cmds.is_empty());
    assert_eq!(p.alert_message.as_deref(), Some("Cannot find \"zzz\""));
}

#[test]
fn replace_pastes_over_matching_selection() {
    let mut p = pad();
    p.update(Message::FindTextChanged("cat".to_string()), &doc(""));
    p.update(Message::ReplaceTextChanged("dog".to_string()), &doc(""));
    let d = Document { text: "a Cat b".to_string(), cursor_line: 0, cursor_column: 5, selection: Some("Cat".to_string()) };
    let cmds = p.update(Message::DoReplace, &d);
    assert!(matches!(cmds.as_slice(), [Command::Paste(s), Command::FindNext] if s == "dog"));
    p.update(Message::ToggleCaseSensitive(true), &d);
    let cmds = p.update(Message::DoReplace, &d);
    assert!(matches!(cmds.as_slice(), [Command::FindNext]));
}

#[test]
fn replace_all_sets_text_and_keeps_undo() {
    let mut p = pad();
    p.update(Message::FindTextChanged("a".to_string()), &doc(""));
    p.update(Message::ReplaceTextChanged("b".to_string()), &doc(""));
    let cmds = p.update(Message::DoReplaceAll, &doc("banana"));
    assert_eq!(set_text(&cmds), Some("bbnbnb".to_string()));
    assert_eq!(p.undo_snapshot.as_deref(), Some("banana"));
    assert!(p.is_dirty);
}

#[test]
fn goto_line_checks_the_number() {
    let mut p = pad();
    let d = doc("one\ntwo\nthree");
    p.update(Message::OpenGoToDialog, &d);
    assert_eq!(p.dialog, Some(DialogKind::GoTo));
    p.update(Message::GoToLineChanged("abc".to_string()), &d);
    p.update(Message::GoToLine, &d);
    assert_eq!(p.alert_message.as_deref(), Some("Enter a valid line number."));
    p.update(Message::GoToLineChanged("0".to_string()), &d);
    p.update(Message::GoToLine, &d);
    assert_eq!(p.alert_message.as_deref(), Some("Line numbers start at 1."));
    p.update(Message::GoToLineChanged("4".to_string()), &d);
    p.update(Message::GoToLine, &d);
    assert_eq!(p.alert_message.as_deref(), Some("The document only has 3 line(s)."));
    p.update(Message::GoToLineChanged(" +3 ".to_string()), &d);
    let cmds = p.update(Message::GoToLine, &d);
    assert!(matches!(cmds.as_slice(), [Command::GoToLine(2)]));
    assert!(p.dialog.is_none());
}

#[test]
fn goto_is_unavailable_with_word_wrap() {
    let mut p = pad();
    p.update(Message::ToggleWordWrap, &doc(""));
    assert!(p.word_wrap);
    assert!(!p.show_status_bar);
    p.update(Message::OpenGoToDialog, &doc(""));
    assert!(p.dialog.is_none());
    p.update(Message::ToggleWordWrap, &doc(""));
    assert!(!p.word_wrap);
    assert!(p.show_status_bar);
}

#[test]
fn dark_mode_toggle_saves_settings() {
    let mut p = pad();
    let cmds = p.update(Message::ToggleDarkMode, &doc(""));
    assert!(matches!(cmds.as_slice(), [Command::SaveSettings(Settings { dark_mode: true })]));
    p.update(
        Message::SettingsSaveFailed(SettingsError::Io {
            action: "write",
            path: Some("/c/settings.conf".to_string()),
            message: "denied".to_string(),
        }),
        &doc(""),
    );
    assert_eq!(
        p.alert_message.as_deref(),
        Some("Failed to write settings file /c/settings.conf: denied")
    );
}

#[test]
fn cut_copies_and_deletes() {
    let mut p = pad();
    let d = Document { text: "abc".to_string(), cursor_line: 0, cursor_column: 2, selection: Some("b".to_string()) };
    let cmds = p.update(Message::Cut, &d);
    assert!(matches!(cmds.as_slice(), [Command::SetClipboard(s), Command::DeleteSelection] if s == "b"));
    assert!(p.is_dirty);
    let cmds = p.update(Message::Copy, &doc("abc"));
    assert!(cmds.is_empty());
}

#[test]
fn paste_reads_the_clipboard_first() {
    let mut p = pad();
    let cmds = p.update(Message::Paste, &doc(""));
    assert!(matches!(cmds.as_slice(), [Command::ReadClipboard]));
    assert!(!p.is_dirty);
    let cmds = p.update(Message::ClipboardText(Some("hi".to_string())), &doc(""));
    assert!(matches!(cmds.as_slice(), [Command::Paste(s)] if s == "hi"));
    assert!(p.is_dirty);
}

#[test]
fn font_dialog_applies_choices() {
    let mut p = pad();
    p.update(Message::OpenFontDialog { size_text: "12".to_string() }, &doc(""));
    assert_eq!(p.dialog, Some(DialogKind::Font));
    assert_eq!(p.font_dialog_family_filter, "");
    p.update(Message::FontFamilyChanged(FontChoice::Courier), &doc(""));
    let cmds = p.update(Message::ApplyFont, &doc(""));
    assert!(matches!(cmds.as_slice(), [Command::ApplyFontSize(s)] if s == "12"));
    assert_eq!(p.font_family, FontChoice::Courier);
    assert!(p.dialog.is_none());
}

#[test]
fn menus_open_and_close() {
    let mut p = pad();
    p.update(Message::MenuClicked(rustpad::message::MenuId::File), &doc(""));
    assert_eq!(p.active_menu, Some(rustpad::message::MenuId::File));
    p.update(Message::MenuClicked(rustpad::message::MenuId::File), &doc(""));
    assert_eq!(p.active_menu, None);
    p.update(Message::OpenEditorContextMenu, &doc(""));
    assert!(p.context_menu_open);
    p.update(Message::CloseMenus, &doc(""));
    assert!(!p.context_menu_open);
}

#[test]
fn print_failure_is_alerted() {
    let mut p = pad();
    let cmds = p.update(Message::Print, &doc("page"));
    assert!(matches!(cmds.as_slice(), [Command::Print(s)] if s == "page"));
    p.update(Message::PrintResult(Err(FileError::PrintFailed("no printer".to_string()))), &doc(""));
    assert_eq!(p.alert_message.as_deref(), Some("Printing failed: no printer"));
}

#[test]
fn status_text_shows_line_and_column() {
    assert_eq!(status_text(3, 14), "Ln 3, Col 14");
    let p = pad();
    let d = Document { text: "x".to_string(), cursor_line: 0, cursor_column: 1, selection: None };
    assert_eq!(p.cursor_position(&d), (1, 2));
}

#[test]
fn dark_mode_toggled_twice_is_as_before() {
    let mut p = pad();
    p.update(Message::ToggleDarkMode, &doc(""));
    assert!(p.dark_mode);
    let cmds = p.update(Message::ToggleDarkMode, &doc(""));
    assert!(!p.dark_mode);
    assert!(matches!(cmds.as_slice(), [Command::SaveSettings(Settings { dark_mode: false })]));
}

#[test]
fn find_previous_ignoring_case_selects_folded_match() {
    let mut p = pad();
    p.update(Message::FindTextChanged("ABC".to_string()), &doc(""));
    p.update(Message::FindDirectionChanged(FindDirection::Up), &doc(""));
    let d = Document { text: "abc xAbC".to_string(), cursor_line: 0, cursor_column: 8, selection: None };
    let cmds = p.update(Message::FindNext, &d);
    assert!(matches!(cmds.as_slice(), [Command::Select { line: 0, column: 5, len: 3 }]));
}
