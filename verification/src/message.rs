//! The choices the editor offers (fonts, menus, dialogs, search direction)
//! and the messages that drive its state machine.

use vstd::prelude::*;

use crate::file_ops::FileError;
use crate::settings::SettingsError;
use crate::timestamp::LocalTime;

verus! {

/// A font family of the Font dialog.
#[derive(Clone, Copy, PartialEq, Eq, Structural, Debug)]
pub enum FontChoice {
    FixedSys,
    Courier,
    CourierNew,
    Consolas,
    LucidaConsole,
    Monospace,
    SansSerif,
    Serif,
}

/// The name under which a font family is listed.
pub open spec fn font_label(f: FontChoice) -> Seq<char> {
    match f {
        FontChoice::FixedSys => "FixedSys"@,
        FontChoice::Courier => "Courier"@,
        FontChoice::CourierNew => "Courier New"@,
        FontChoice::Consolas => "Consolas"@,
        FontChoice::LucidaConsole => "Lucida Console"@,
        FontChoice::Monospace => "Monospace"@,
        FontChoice::SansSerif => "Sans Serif"@,
        FontChoice::Serif => "Serif"@,
    }
}

/// The font families, in the order in which they are listed.
pub open spec fn all_fonts() -> Seq<FontChoice> {
    seq![
        FontChoice::FixedSys,
        FontChoice::Courier,
        FontChoice::CourierNew,
        FontChoice::Consolas,
        FontChoice::LucidaConsole,
        FontChoice::Monospace,
        FontChoice::SansSerif,
        FontChoice::Serif,
    ]
}

impl FontChoice {
    /// Every font family, in list order.
    pub fn all() -> (r: Vec<FontChoice>)
        ensures
            r@ == all_fonts(),
    {
        let r = vec![
            FontChoice::FixedSys,
            FontChoice::Courier,
            FontChoice::CourierNew,
            FontChoice::Consolas,
            FontChoice::LucidaConsole,
            FontChoice::Monospace,
            FontChoice::SansSerif,
            FontChoice::Serif,
        ];
        assert(r@ =~= all_fonts());
        r
    }

    /// The name under which this family is listed.
    pub fn label(&self) -> (r: &'static str)
        ensures
            r@ == font_label(*self),
    {
        match self {
            FontChoice::FixedSys => "FixedSys",
            FontChoice::Courier => "Courier",
            FontChoice::CourierNew => "Courier New",
            FontChoice::Consolas => "Consolas",
            FontChoice::LucidaConsole => "Lucida Console",
            FontChoice::Monospace => "Monospace",
            FontChoice::SansSerif => "Sans Serif",
            FontChoice::Serif => "Serif",
        }
    }

    /// The name of the installed font that this family asks for, when it
    /// names one; the generic families have none.
    pub fn family_name(&self) -> (r: Option<&'static str>)
        ensures
            match *self {
                FontChoice::FixedSys => r matches Some(n) && n@ == "Fixedsys"@,
                FontChoice::Courier => r matches Some(n) && n@ == "Courier"@,
                FontChoice::CourierNew => r matches Some(n) && n@ == "Courier New"@,
                FontChoice::Consolas => r matches Some(n) && n@ == "Consolas"@,
                FontChoice::LucidaConsole => r matches Some(n) && n@ == "Lucida Console"@,
                _ => r is None,
            },
    {
        match self {
            FontChoice::FixedSys => Some("Fixedsys"),
            FontChoice::Courier => Some("Courier"),
            FontChoice::CourierNew => Some("Courier New"),
            FontChoice::Consolas => Some("Consolas"),
            FontChoice::LucidaConsole => Some("Lucida Console"),
            _ => None,
        }
    }
}

/// A font style of the Font dialog.
#[derive(Clone, Copy, PartialEq, Eq, Structural, Debug)]
pub enum FontStyleChoice {
    Regular,
    Bold,
    Italic,
    BoldItalic,
}

/// The name under which a font style is listed.
pub open spec fn style_label(s: FontStyleChoice) -> Seq<char> {
    match s {
        FontStyleChoice::Regular => "Regular"@,
        FontStyleChoice::Bold => "Bold"@,
        FontStyleChoice::Italic => "Italic"@,
        FontStyleChoice::BoldItalic => "Bold Italic"@,
    }
}

/// The font styles, in the order in which they are listed.
pub open spec fn all_styles() -> Seq<FontStyleChoice> {
    seq![FontStyleChoice::Regular, FontStyleChoice::Bold, FontStyleChoice::Italic, FontStyleChoice::BoldItalic]
}

impl FontStyleChoice {
    /// Every font style, in list order.
    pub fn all() -> (r: Vec<FontStyleChoice>)
        ensures
            r@ == all_styles(),
    {
        let r = vec![
            FontStyleChoice::Regular,
            FontStyleChoice::Bold,
            FontStyleChoice::Italic,
            FontStyleChoice::BoldItalic,
        ];
        assert(r@ =~= all_styles());
        r
    }

    /// The name under which this style is listed.
    pub fn label(&self) -> (r: &'static str)
        ensures
            r@ == style_label(*self),
    {
        match self {
            FontStyleChoice::Regular => "Regular",
            FontStyleChoice::Bold => "Bold",
            FontStyleChoice::Italic => "Italic",
            FontStyleChoice::BoldItalic => "Bold Italic",
        }
    }

    /// Whether text in this style is bold.
    pub fn is_bold(&self) -> (r: bool)
        ensures
            r == (*self == FontStyleChoice::Bold || *self == FontStyleChoice::BoldItalic),
    {
        match self {
            FontStyleChoice::Bold | FontStyleChoice::BoldItalic => true,
            _ => false,
        }
    }

    /// Whether text in this style is italic.
    pub fn is_italic(&self) -> (r: bool)
        ensures
            r == (*self == FontStyleChoice::Italic || *self == FontStyleChoice::BoldItalic),
    {
        match self {
            FontStyleChoice::Italic | FontStyleChoice::BoldItalic => true,
            _ => false,
        }
    }
}

/// A menu of the menu bar.
#[derive(Clone, Copy, PartialEq, Eq, Structural, Debug)]
pub enum MenuId {
    File,
    Edit,
    Format,
    Search,
    Help,
}

/// A dialog of the editor.
#[derive(Clone, Copy, PartialEq, Eq, Structural, Debug)]
pub enum DialogKind {
    Find,
    Replace,
    GoTo,
    About,
    SavePrompt,
    Font,
}

/// What to do once the user has answered the prompt to save changes.
#[derive(Clone, Copy, PartialEq, Eq, Structural, Debug)]
pub enum PendingAction {
    New,
    Open,
    Exit,
}

/// The direction in which Find Next searches.
#[derive(Clone, Copy, PartialEq, Eq, Structural, Debug)]
pub enum FindDirection {
    Up,
    Down,
}

/// What happened: a user command, a dialog edit, or the outcome of work
/// that the editor asked for. Each payload is what the editor needs of it.
pub enum Message {
    Ignored,
    /// An edit or motion in the text area; `is_edit` when it changes the text.
    EditorAction { is_edit: bool },
    NewFile,
    OpenFile,
    /// The outcome of opening a file (its path and contents), and the
    /// local time when it arrived, for the `.LOG` time stamp.
    FileOpened { result: Result<(String, String), FileError>, now: LocalTime },
    SaveFile,
    SaveFileAs,
    /// The outcome of saving: the path saved to.
    FileSaved(Result<String, FileError>),
    Exit,
    Undo,
    Cut,
    Copy,
    Paste,
    /// The clipboard's text, when it could be read.
    ClipboardText(Option<String>),
    Delete,
    SelectAll,
    InsertTimeDate { now: LocalTime },
    ToggleWordWrap,
    ToggleDarkMode,
    SettingsSaveFailed(SettingsError),
    OpenFindDialog,
    OpenReplaceDialog,
    OpenGoToDialog,
    FindNext,
    DoReplace,
    DoReplaceAll,
    GoToLine,
    /// Opens the Font dialog; `size_text` is the current font size as text.
    OpenFontDialog { size_text: String },
    FontFamilyChanged(FontChoice),
    FontFamilyFilterChanged(String),
    FontStyleChanged(FontStyleChoice),
    FontStyleFilterChanged(String),
    FontSizeChanged(String),
    FontSizeSelected(String),
    ApplyFont,
    FindTextChanged(String),
    ReplaceTextChanged(String),
    GoToLineChanged(String),
    OpenEditorContextMenu,
    ToggleCaseSensitive(bool),
    ToggleWholeWord(bool),
    FindDirectionChanged(FindDirection),
    DismissAlert,
    CloseDialog,
    MenuClicked(MenuId),
    CloseMenus,
    ShowAbout,
    SavePromptSave,
    SavePromptDontSave,
    SavePromptCancel,
    CloseRequested,
    PageSetup,
    Print,
    PrintResult(Result<(), FileError>),
}

} // verus!
