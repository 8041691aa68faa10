use rustpad::font_dialog::{font_family_items, font_size_items, font_style_items};
use rustpad::menu::{
    checked_label, menu_bar, menu_button_state, menu_label, shortcut_message, view_context_menu,
    view_dropdown, ContextMenuState, Key, MenuEntry, MenuState, UserCommand,
};
use rustpad::message::{FontChoice, FontStyleChoice, MenuId};

fn labels(entries: &[MenuEntry]) -> Vec<String> {
    entries
        .iter()
        .map(|e| match e {
            MenuEntry::Item(it) => it.label.to_string(),
            MenuEntry::Separator => "-".to_string(),
        })
        .collect()
}

#[test]
fn edit_menu_depends_on_undo_and_selection() {
    let state = MenuState { has_undo: false, has_selection: false, word_wrap: false, dark_mode: false };
    let edit = view_dropdown(MenuId::Edit, &state);
    assert_eq!(labels(&edit), vec!["Can't Undo", "-", "Cut", "Copy", "Paste", "Delete", "-", "Select All", "Time/Date"]);
    match &edit[0] {
        MenuEntry::Item(it) => assert!(it.command.is_none()),
        _ => panic!(),
    }
    let state = MenuState { has_undo: true, has_selection: true, word_wrap: false, dark_mode: false };
    let edit = view_dropdown(MenuId::Edit, &state);
    match &edit[2] {
        MenuEntry::Item(it) => assert_eq!(it.command, Some(UserCommand::Cut)),
        _ => panic!(),
    }
    let ctx = view_context_menu(&ContextMenuState { has_undo: true, has_selection: false });
    assert_eq!(labels(&ctx)[0], "Undo");
}

#[test]
fn file_and_help_menus() {
    let state = MenuState { has_undo: false, has_selection: false, word_wrap: false, dark_mode: false };
    assert_eq!(
        labels(&view_dropdown(MenuId::File, &state)),
        vec!["New", "Open...", "Save", "Save As...", "-", "Page Setup...", "Print...", "-", "Exit"]
    );
    assert_eq!(labels(&view_dropdown(MenuId::Help, &state)), vec!["About RustPad"]);
}

#[test]
fn goto_menu_item_needs_no_word_wrap() {
    let state = MenuState { has_undo: false, has_selection: false, word_wrap: true, dark_mode: true };
    let search = view_dropdown(MenuId::Search, &state);
    match &search[4] {
        MenuEntry::Item(it) => assert!(it.command.is_none()),
        _ => panic!(),
    }
    let format = view_dropdown(MenuId::Format, &state);
    match &format[0] {
        MenuEntry::Item(it) => assert_eq!(it.checked, Some(true)),
        _ => panic!(),
    }
}

#[test]
fn menu_bar_buttons() {
    assert_eq!(menu_bar(), vec![MenuId::File, MenuId::Edit, MenuId::Format, MenuId::Search, MenuId::Help]);
    assert_eq!(menu_label(MenuId::Format), "Format");
    assert_eq!(menu_button_state(MenuId::File, Some(MenuId::File)), (true, false));
    assert_eq!(menu_button_state(MenuId::Edit, Some(MenuId::File)), (false, true));
    assert_eq!(menu_button_state(MenuId::Edit, None), (false, false));
    assert_eq!(checked_label("Word Wrap", true), "\u{2713} Word Wrap");
    assert_eq!(checked_label("Word Wrap", false), "   Word Wrap");
}

#[test]
fn keyboard_shortcuts() {
    assert_eq!(shortcut_message(&Key::Character("s".to_string()), true), Some(UserCommand::SaveFile));
    assert_eq!(shortcut_message(&Key::Character("g".to_string()), true), Some(UserCommand::OpenGoToDialog));
    assert_eq!(shortcut_message(&Key::Character("x".to_string()), true), None);
    assert_eq!(shortcut_message(&Key::Character("s".to_string()), false), None);
    assert_eq!(shortcut_message(&Key::F5, false), Some(UserCommand::InsertTimeDate));
    assert_eq!(shortcut_message(&Key::Escape, false), Some(UserCommand::CloseMenus));
    assert_eq!(shortcut_message(&Key::F3, true), None);
}

#[test]
fn font_lists_follow_their_filters() {
    assert_eq!(font_family_items("").len(), 8);
    assert_eq!(font_family_items("COUR"), vec![FontChoice::Courier, FontChoice::CourierNew]);
    assert_eq!(font_family_items("zzz"), Vec::<FontChoice>::new());
    assert_eq!(font_style_items("bold"), vec![FontStyleChoice::Bold, FontStyleChoice::BoldItalic]);
    assert_eq!(font_size_items("1"), vec!["10", "11", "12", "14", "16", "18"]);
    assert_eq!(font_size_items("").len(), 16);
    assert_eq!(font_size_items("9"), vec!["9"]);
}

#[test]
fn font_labels_and_styles() {
    assert_eq!(FontChoice::CourierNew.label(), "Courier New");
    assert_eq!(FontChoice::SansSerif.label(), "Sans Serif");
    assert_eq!(FontChoice::FixedSys.family_name(), Some("Fixedsys"));
    assert_eq!(FontChoice::Serif.family_name(), None);
    assert_eq!(FontStyleChoice::BoldItalic.label(), "Bold Italic");
    assert!(FontStyleChoice::BoldItalic.is_bold() && FontStyleChoice::BoldItalic.is_italic());
    assert!(!FontStyleChoice::Regular.is_bold());
    assert_eq!(FontChoice::all().len(), 8);
    assert_eq!(FontStyleChoice::all().len(), 4);
}
