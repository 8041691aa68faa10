//! The menus: what each one lists, which items are available, and the
//! keyboard shortcuts.

use vstd::prelude::*;

use crate::message::MenuId;

verus! {

broadcast use vstd::string::group_string_axioms;

/// What the Edit, Format and Search menus depend on.
pub struct MenuState {
    pub has_undo: bool,
    pub has_selection: bool,
    pub word_wrap: bool,
    pub dark_mode: bool,
}

/// What the text area's context menu depends on.
pub struct ContextMenuState {
    pub has_undo: bool,
    pub has_selection: bool,
}

/// What a menu item or a keyboard shortcut asks the editor to do.
#[derive(Clone, Copy, PartialEq, Eq, Structural, Debug)]
pub enum UserCommand {
    NewFile,
    OpenFile,
    SaveFile,
    SaveFileAs,
    PageSetup,
    Print,
    Exit,
    Undo,
    Cut,
    Copy,
    Paste,
    Delete,
    SelectAll,
    InsertTimeDate,
    ToggleWordWrap,
    ToggleDarkMode,
    OpenFontDialog,
    OpenFindDialog,
    FindNext,
    OpenReplaceDialog,
    OpenGoToDialog,
    ShowAbout,
    CloseMenus,
}

/// An item of a menu: its label, its shortcut's text, the command it gives
/// (none when it is unavailable), and whether it shows a check mark (none
/// for items that cannot be checked).
pub struct MenuItem {
    pub label: &'static str,
    pub shortcut: Option<&'static str>,
    pub command: Option<UserCommand>,
    pub checked: Option<bool>,
}

/// An entry of a menu.
pub enum MenuEntry {
    Item(MenuItem),
    Separator,
}

pub open spec fn str_opt_view(o: Option<&'static str>) -> Option<Seq<char>> {
    match o {
        Some(s) => Some(s@),
        None => None,
    }
}

/// `e` is the item with this label, shortcut, command and check state.
pub open spec fn item_is(e: MenuEntry, label: Seq<char>, shortcut: Option<Seq<char>>, command: Option<UserCommand>, checked: Option<bool>) -> bool {
    &&& e matches MenuEntry::Item(it)
    &&& it.label@ == label
    &&& str_opt_view(it.shortcut) == shortcut
    &&& it.command == command
    &&& it.checked == checked
}

fn item(label: &'static str, shortcut: Option<&'static str>, command: Option<UserCommand>) -> (r: MenuEntry)
    ensures
        item_is(r, label@, str_opt_view(shortcut), command, None),
{
    MenuEntry::Item(MenuItem { label, shortcut, command, checked: None })
}

fn push(v: &mut Vec<MenuEntry>, e: MenuEntry)
    ensures
        final(v)@ == old(v)@.push(e),
{
    v.push(e);
}

/// The label of a menu of the menu bar.
pub fn menu_label(id: MenuId) -> (r: &'static str)
    ensures
        r@ == match id {
            MenuId::File => "File"@,
            MenuId::Edit => "Edit"@,
            MenuId::Format => "Format"@,
            MenuId::Search => "Search"@,
            MenuId::Help => "Help"@,
        },
{
    match id {
        MenuId::File => "File",
        MenuId::Edit => "Edit",
        MenuId::Format => "Format",
        MenuId::Search => "Search",
        MenuId::Help => "Help",
    }
}

/// The menus of the menu bar, left to right.
pub fn menu_bar() -> (r: Vec<MenuId>)
    ensures
        r@ == seq![MenuId::File, MenuId::Edit, MenuId::Format, MenuId::Search, MenuId::Help],
{
    let r = vec![MenuId::File, MenuId::Edit, MenuId::Format, MenuId::Search, MenuId::Help];
    assert(r@ =~= seq![MenuId::File, MenuId::Edit, MenuId::Format, MenuId::Search, MenuId::Help]);
    r
}

/// How a menu bar button behaves while `active` is open: whether it shows
/// as open, and whether pointing at it switches to its menu (it does when
/// another menu is open).
pub fn menu_button_state(id: MenuId, active: Option<MenuId>) -> (r: (bool, bool))
    ensures
        r.0 == (active == Some(id)),
        r.1 == (active is Some && active != Some(id)),
{
    match active {
        Some(a) => {
            let is_active = a == id;
            (is_active, !is_active)
        },
        None => (false, false),
    }
}

/// The label of an item that can be checked: a check mark, or spaces, then
/// the label.
pub fn checked_label(label: &str, checked: bool) -> (r: String)
    ensures
        r@ == (if checked { "\u{2713} "@ } else { "   "@ }) + label@,
{
    let mut s = if checked { String::from_str("\u{2713} ") } else { String::from_str("   ") };
    s.append(label);
    s
}

/// The File menu.
pub open spec fn file_menu(r: Seq<MenuEntry>) -> bool {
    &&& r.len() == 9
    &&& item_is(r[0], "New"@, Some("Ctrl+N"@), Some(UserCommand::NewFile), None)
    &&& item_is(r[1], "Open..."@, Some("Ctrl+O"@), Some(UserCommand::OpenFile), None)
    &&& item_is(r[2], "Save"@, Some("Ctrl+S"@), Some(UserCommand::SaveFile), None)
    &&& item_is(r[3], "Save As..."@, None, Some(UserCommand::SaveFileAs), None)
    &&& r[4] is Separator
    &&& item_is(r[5], "Page Setup..."@, None, Some(UserCommand::PageSetup), None)
    &&& item_is(r[6], "Print..."@, Some("Ctrl+P"@), Some(UserCommand::Print), None)
    &&& r[7] is Separator
    &&& item_is(r[8], "Exit"@, None, Some(UserCommand::Exit), None)
}

/// The Edit menu: Undo only when there is something to undo; Cut, Copy and
/// Delete only when there is a selection.
pub open spec fn edit_menu(r: Seq<MenuEntry>, has_undo: bool, has_selection: bool) -> bool {
    &&& r.len() == 9
    &&& item_is(r[0], if has_undo { "Undo"@ } else { "Can't Undo"@ }, Some("Ctrl+Z"@), if has_undo { Some(UserCommand::Undo) } else { None }, None)
    &&& r[1] is Separator
    &&& item_is(r[2], "Cut"@, Some("Ctrl+X"@), if has_selection { Some(UserCommand::Cut) } else { None }, None)
    &&& item_is(r[3], "Copy"@, Some("Ctrl+C"@), if has_selection { Some(UserCommand::Copy) } else { None }, None)
    &&& item_is(r[4], "Paste"@, Some("Ctrl+V"@), Some(UserCommand::Paste), None)
    &&& item_is(r[5], "Delete"@, Some("Del"@), if has_selection { Some(UserCommand::Delete) } else { None }, None)
    &&& r[6] is Separator
    &&& item_is(r[7], "Select All"@, Some("Ctrl+A"@), Some(UserCommand::SelectAll), None)
    &&& item_is(r[8], "Time/Date"@, Some("F5"@), Some(UserCommand::InsertTimeDate), None)
}

/// The Format menu: Word Wrap and Dark Mode, checked when on, and Font.
pub open spec fn format_menu(r: Seq<MenuEntry>, word_wrap: bool, dark_mode: bool) -> bool {
    &&& r.len() == 3
    &&& item_is(r[0], "Word Wrap"@, None, Some(UserCommand::ToggleWordWrap), Some(word_wrap))
    &&& item_is(r[1], "Dark Mode"@, None, Some(UserCommand::ToggleDarkMode), Some(dark_mode))
    &&& item_is(r[2], "Font..."@, None, Some(UserCommand::OpenFontDialog), None)
}

/// The Search menu: Go To only without word wrap.
pub open spec fn search_menu(r: Seq<MenuEntry>, word_wrap: bool) -> bool {
    &&& r.len() == 5
    &&& item_is(r[0], "Find..."@, Some("Ctrl+F"@), Some(UserCommand::OpenFindDialog), None)
    &&& item_is(r[1], "Find Next"@, Some("F3"@), Some(UserCommand::FindNext), None)
    &&& item_is(r[2], "Replace..."@, Some("Ctrl+H"@), Some(UserCommand::OpenReplaceDialog), None)
    &&& r[3] is Separator
    &&& item_is(r[4], "Go To..."@, Some("Ctrl+G"@), if word_wrap { None } else { Some(UserCommand::OpenGoToDialog) }, None)
}

/// The Help menu.
pub open spec fn help_menu(r: Seq<MenuEntry>) -> bool {
    &&& r.len() == 1
    &&& item_is(r[0], "About RustPad"@, None, Some(UserCommand::ShowAbout), None)
}

fn edit_entries(has_undo: bool, has_selection: bool) -> (r: Vec<MenuEntry>)
    ensures
        edit_menu(r@, has_undo, has_selection),
{
    let mut v: Vec<MenuEntry> = Vec::new();
    let undo_label = if has_undo { "Undo" } else { "Can't Undo" };
    let undo_msg = if has_undo { Some(UserCommand::Undo) } else { None };
    push(&mut v, item(undo_label, Some("Ctrl+Z"), undo_msg));
    push(&mut v, MenuEntry::Separator);
    push(&mut v, item("Cut", Some("Ctrl+X"), if has_selection { Some(UserCommand::Cut) } else { None }));
    push(&mut v, item("Copy", Some("Ctrl+C"), if has_selection { Some(UserCommand::Copy) } else { None }));
    push(&mut v, item("Paste", Some("Ctrl+V"), Some(UserCommand::Paste)));
    push(&mut v, item("Delete", Some("Del"), if has_selection { Some(UserCommand::Delete) } else { None }));
    push(&mut v, MenuEntry::Separator);
    push(&mut v, item("Select All", Some("Ctrl+A"), Some(UserCommand::SelectAll)));
    push(&mut v, item("Time/Date", Some("F5"), Some(UserCommand::InsertTimeDate)));
    v
}

/// The entries of the menu `menu_id`, top to bottom.
pub fn view_dropdown(menu_id: MenuId, state: &MenuState) -> (r: Vec<MenuEntry>)
    ensures
        match menu_id {
            MenuId::File => file_menu(r@),
            MenuId::Edit => edit_menu(r@, state.has_undo, state.has_selection),
            MenuId::Format => format_menu(r@, state.word_wrap, state.dark_mode),
            MenuId::Search => search_menu(r@, state.word_wrap),
            MenuId::Help => help_menu(r@),
        },
{
    let mut v: Vec<MenuEntry> = Vec::new();
    match menu_id {
        MenuId::File => {
            push(&mut v, item("New", Some("Ctrl+N"), Some(UserCommand::NewFile)));
            push(&mut v, item("Open...", Some("Ctrl+O"), Some(UserCommand::OpenFile)));
            push(&mut v, item("Save", Some("Ctrl+S"), Some(UserCommand::SaveFile)));
            push(&mut v, item("Save As...", None, Some(UserCommand::SaveFileAs)));
            push(&mut v, MenuEntry::Separator);
            push(&mut v, item("Page Setup...", None, Some(UserCommand::PageSetup)));
            push(&mut v, item("Print...", Some("Ctrl+P"), Some(UserCommand::Print)));
            push(&mut v, MenuEntry::Separator);
            push(&mut v, item("Exit", None, Some(UserCommand::Exit)));
        },
        MenuId::Edit => {
            v = edit_entries(state.has_undo, state.has_selection);
        },
        MenuId::Format => {
            push(&mut v, MenuEntry::Item(MenuItem {
                label: "Word Wrap",
                shortcut: None,
                command: Some(UserCommand::ToggleWordWrap),
                checked: Some(state.word_wrap),
            }));
            push(&mut v, MenuEntry::Item(MenuItem {
                label: "Dark Mode",
                shortcut: None,
                command: Some(UserCommand::ToggleDarkMode),
                checked: Some(state.dark_mode),
            }));
            push(&mut v, item("Font...", None, Some(UserCommand::OpenFontDialog)));
        },
        MenuId::Search => {
            push(&mut v, item("Find...", Some("Ctrl+F"), Some(UserCommand::OpenFindDialog)));
            push(&mut v, item("Find Next", Some("F3"), Some(UserCommand::FindNext)));
            push(&mut v, item("Replace...", Some("Ctrl+H"), Some(UserCommand::OpenReplaceDialog)));
            push(&mut v, MenuEntry::Separator);
            push(&mut v, item("Go To...", Some("Ctrl+G"), if state.word_wrap { None } else { Some(UserCommand::OpenGoToDialog) }));
        },
        MenuId::Help => {
            push(&mut v, item("About RustPad", None, Some(UserCommand::ShowAbout)));
        },
    }
    v
}

/// The entries of the text area's context menu: the Edit menu's.
pub fn view_context_menu(state: &ContextMenuState) -> (r: Vec<MenuEntry>)
    ensures
        edit_menu(r@, state.has_undo, state.has_selection),
{
    edit_entries(state.has_undo, state.has_selection)
}

/// A key as the keyboard shortcuts see it.
pub enum Key {
    Character(String),
    Escape,
    F3,
    F5,
    Other,
}

/// The shortcut of a key pressed with the command key (`command`) or
/// without: Ctrl+N, O, S, P, F, H, G; Escape, F3, F5.
pub open spec fn shortcut_of(key: Key, command: bool) -> Option<UserCommand> {
    if command {
        match key {
            Key::Character(c) => if c@ == "n"@ {
                Some(UserCommand::NewFile)
            } else if c@ == "o"@ {
                Some(UserCommand::OpenFile)
            } else if c@ == "s"@ {
                Some(UserCommand::SaveFile)
            } else if c@ == "p"@ {
                Some(UserCommand::Print)
            } else if c@ == "f"@ {
                Some(UserCommand::OpenFindDialog)
            } else if c@ == "h"@ {
                Some(UserCommand::OpenReplaceDialog)
            } else if c@ == "g"@ {
                Some(UserCommand::OpenGoToDialog)
            } else {
                None
            },
            _ => None,
        }
    } else {
        match key {
            Key::Escape => Some(UserCommand::CloseMenus),
            Key::F3 => Some(UserCommand::FindNext),
            Key::F5 => Some(UserCommand::InsertTimeDate),
            _ => None,
        }
    }
}

fn is_char_key(c: &String, lit: &str) -> (r: bool)
    ensures
        r == (c@ == lit@),
{
    crate::strings::is_literal(crate::text::chars_of(c.as_str()).as_slice(), lit)
}

/// The shortcut of a key press, if it has one.
pub fn shortcut_message(key: &Key, command: bool) -> (r: Option<UserCommand>)
    ensures
        r == shortcut_of(*key, command),
{
    if command {
        match key {
            Key::Character(c) => {
                if is_char_key(c, "n") {
                    Some(UserCommand::NewFile)
                } else if is_char_key(c, "o") {
                    Some(UserCommand::OpenFile)
                } else if is_char_key(c, "s") {
                    Some(UserCommand::SaveFile)
                } else if is_char_key(c, "p") {
                    Some(UserCommand::Print)
                } else if is_char_key(c, "f") {
                    Some(UserCommand::OpenFindDialog)
                } else if is_char_key(c, "h") {
                    Some(UserCommand::OpenReplaceDialog)
                } else if is_char_key(c, "g") {
                    Some(UserCommand::OpenGoToDialog)
                } else {
                    None
                }
            },
            _ => None,
        }
    } else {
        match key {
            Key::Escape => Some(UserCommand::CloseMenus),
            Key::F3 => Some(UserCommand::FindNext),
            Key::F5 => Some(UserCommand::InsertTimeDate),
            _ => None,
        }
    }
}

} // verus!
