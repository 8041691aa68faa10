//! The editor's state machine: what RustPad keeps besides the text itself,
//! and, for each message, the next state and the commands that the caller
//! carries out on the text area, the clipboard, files and the window.

use vstd::prelude::*;

use crate::file_ops::{file_error_message, FileError};
use crate::message::{DialogKind, FindDirection, FontChoice, FontStyleChoice, MenuId, Message, PendingAction};
use crate::search::{find_match, fold, is_match, law_forward_search_finds_first_match, law_replaced_from_first_match, match_starts_at, lemma_search_found, matches_at, replace_all, replaced_from, search, strings_match_case, whole_word_at, is_whole_word_match};
use crate::settings::{settings_error_message, Settings};
use crate::strings::{decimal, decimal_string, file_name, file_name_of, parse_usize, parsed_usize, starts_with_chars, trim_chars, trimmed};
use crate::text::{chars_of, cursor_char_offset, law_offset_of_position, lemma_offset_bound, line_breaks_in, line_col_in, lines, offset_of, position_of};
use crate::timestamp::{log_stamp, log_stamp_text, stamp_text, time_date_stamp, LocalTime};
use crate::unicode::string_from_chars;

verus! {

broadcast use vstd::string::group_string_axioms;

// ---------------------------------------------------------------------------
// The document as the caller sees it, and commands to the caller
// ---------------------------------------------------------------------------

/// What the text area holds when a message is handled: its text, the
/// cursor's line and column (counted from 0) and the selected text.
pub struct Document {
    pub text: String,
    pub cursor_line: usize,
    pub cursor_column: usize,
    pub selection: Option<String>,
}

pub struct DocView {
    pub text: Seq<char>,
    pub cursor_line: nat,
    pub cursor_column: nat,
    pub selection: Option<Seq<char>>,
}

pub open spec fn opt_view(o: Option<String>) -> Option<Seq<char>> {
    match o {
        Some(s) => Some(s@),
        None => None,
    }
}

impl View for Document {
    type V = DocView;

    open spec fn view(&self) -> DocView {
        DocView {
            text: self.text@,
            cursor_line: self.cursor_line as nat,
            cursor_column: self.cursor_column as nat,
            selection: opt_view(self.selection),
        }
    }
}

/// Work that the caller does for the editor, in order.
pub enum Command {
    /// Apply the text area action that came with [`Message::EditorAction`].
    PerformEditorAction,
    /// Replace the whole text (the cursor goes to the start).
    SetText(String),
    /// Move the cursor to the end of the text.
    MoveToDocumentEnd,
    /// Insert text at the cursor, in place of the selection.
    Paste(String),
    /// Delete the selection (or the character after the cursor).
    DeleteSelection,
    SelectAll,
    /// Select `len` characters from line `line`, column `column` (from 0).
    Select { line: usize, column: usize, len: usize },
    /// Move the cursor to the start of line `line` (from 0).
    GoToLine(usize),
    SetClipboard(String),
    /// Read the clipboard's text and hand it back as [`Message::ClipboardText`].
    ReadClipboard,
    /// Ask for a file and open it; hand the outcome back as [`Message::FileOpened`].
    OpenFile,
    /// Save `contents` to `path`, asking for a path when there is none;
    /// hand the outcome back as [`Message::FileSaved`].
    SaveFile { path: Option<String>, contents: String },
    /// Print `contents`; hand the outcome back as [`Message::PrintResult`].
    Print(String),
    /// Write the settings file; hand a failure back as [`Message::SettingsSaveFailed`].
    SaveSettings(Settings),
    /// Set the font size from this text, when it reads as a number
    /// (clamped to 8 to 72).
    ApplyFontSize(String),
    /// Search forward again in the text as it now stands:
    /// [`RustPad::do_find_next`].
    FindNext,
    Exit,
}

pub enum CommandView {
    PerformEditorAction,
    SetText(Seq<char>),
    MoveToDocumentEnd,
    Paste(Seq<char>),
    DeleteSelection,
    SelectAll,
    Select { line: nat, column: nat, len: nat },
    GoToLine(nat),
    SetClipboard(Seq<char>),
    ReadClipboard,
    OpenFile,
    SaveFile { path: Option<Seq<char>>, contents: Seq<char> },
    Print(Seq<char>),
    SaveSettings(Settings),
    ApplyFontSize(Seq<char>),
    FindNext,
    Exit,
}

impl View for Command {
    type V = CommandView;

    open spec fn view(&self) -> CommandView {
        match self {
            Command::PerformEditorAction => CommandView::PerformEditorAction,
            Command::SetText(t) => CommandView::SetText(t@),
            Command::MoveToDocumentEnd => CommandView::MoveToDocumentEnd,
            Command::Paste(t) => CommandView::Paste(t@),
            Command::DeleteSelection => CommandView::DeleteSelection,
            Command::SelectAll => CommandView::SelectAll,
            Command::Select { line, column, len } => CommandView::Select {
                line: *line as nat,
                column: *column as nat,
                len: *len as nat,
            },
            Command::GoToLine(l) => CommandView::GoToLine(*l as nat),
            Command::SetClipboard(t) => CommandView::SetClipboard(t@),
            Command::ReadClipboard => CommandView::ReadClipboard,
            Command::OpenFile => CommandView::OpenFile,
            Command::SaveFile { path, contents } => CommandView::SaveFile {
                path: opt_view(*path),
                contents: contents@,
            },
            Command::Print(t) => CommandView::Print(t@),
            Command::SaveSettings(s) => CommandView::SaveSettings(*s),
            Command::ApplyFontSize(t) => CommandView::ApplyFontSize(t@),
            Command::FindNext => CommandView::FindNext,
            Command::Exit => CommandView::Exit,
        }
    }
}

pub open spec fn view_cmds(cs: Seq<Command>) -> Seq<CommandView> {
    cs.map_values(|c: Command| c@)
}

fn no_cmds() -> (r: Vec<Command>)
    ensures
        view_cmds(r@) == Seq::<CommandView>::empty(),
{
    let r: Vec<Command> = Vec::new();
    assert(view_cmds(r@) =~= Seq::<CommandView>::empty());
    r
}

fn push_cmd(cmds: &mut Vec<Command>, c: Command)
    ensures
        view_cmds(final(cmds)@) == view_cmds(old(cmds)@).push(c@),
{
    let ghost cv = c@;
    cmds.push(c);
    assert(view_cmds(cmds@) =~= view_cmds(old(cmds)@).push(cv));
}

fn one_cmd(c: Command) -> (r: Vec<Command>)
    ensures
        view_cmds(r@) == seq![c@],
{
    let mut r = no_cmds();
    push_cmd(&mut r, c);
    assert(view_cmds(r@) =~= seq![c@]);
    r
}

fn clone_opt(o: &Option<String>) -> (r: Option<String>)
    ensures
        opt_view(r) == opt_view(*o),
{
    match o {
        Some(s) => Some(s.clone()),
        None => None,
    }
}

// ---------------------------------------------------------------------------
// The editor's state
// ---------------------------------------------------------------------------

/// The editor's state, apart from the text area, the font size and the
/// pointer positions, which the caller keeps.
pub struct RustPad {
    pub file_path: Option<String>,
    pub is_dirty: bool,
    /// The text before the last edit: a single level of undo.
    pub undo_snapshot: Option<String>,
    pub word_wrap: bool,
    pub dark_mode: bool,
    pub font_family: FontChoice,
    pub font_style: FontStyleChoice,
    pub font_dialog_family: FontChoice,
    pub font_dialog_style: FontStyleChoice,
    pub font_dialog_size_text: String,
    pub font_dialog_family_filter: String,
    pub font_dialog_style_filter: String,
    pub active_menu: Option<MenuId>,
    pub context_menu_open: bool,
    pub dialog: Option<DialogKind>,
    pub find_text: String,
    pub replace_text: String,
    pub find_case_sensitive: bool,
    pub find_whole_word: bool,
    pub find_direction: FindDirection,
    pub goto_line_text: String,
    /// An alert shown above everything else.
    pub alert_message: Option<String>,
    pub show_status_bar: bool,
    /// What to do once the prompt to save changes is answered.
    pub pending_action: Option<PendingAction>,
}

pub struct PadView {
    pub file_path: Option<Seq<char>>,
    pub is_dirty: bool,
    pub undo_snapshot: Option<Seq<char>>,
    pub word_wrap: bool,
    pub dark_mode: bool,
    pub font_family: FontChoice,
    pub font_style: FontStyleChoice,
    pub font_dialog_family: FontChoice,
    pub font_dialog_style: FontStyleChoice,
    pub font_dialog_size_text: Seq<char>,
    pub font_dialog_family_filter: Seq<char>,
    pub font_dialog_style_filter: Seq<char>,
    pub active_menu: Option<MenuId>,
    pub context_menu_open: bool,
    pub dialog: Option<DialogKind>,
    pub find_text: Seq<char>,
    pub replace_text: Seq<char>,
    pub find_case_sensitive: bool,
    pub find_whole_word: bool,
    pub find_direction: FindDirection,
    pub goto_line_text: Seq<char>,
    pub alert_message: Option<Seq<char>>,
    pub show_status_bar: bool,
    pub pending_action: Option<PendingAction>,
}

impl View for RustPad {
    type V = PadView;

    open spec fn view(&self) -> PadView {
        PadView {
            file_path: opt_view(self.file_path),
            is_dirty: self.is_dirty,
            undo_snapshot: opt_view(self.undo_snapshot),
            word_wrap: self.word_wrap,
            dark_mode: self.dark_mode,
            font_family: self.font_family,
            font_style: self.font_style,
            font_dialog_family: self.font_dialog_family,
            font_dialog_style: self.font_dialog_style,
            font_dialog_size_text: self.font_dialog_size_text@,
            font_dialog_family_filter: self.font_dialog_family_filter@,
            font_dialog_style_filter: self.font_dialog_style_filter@,
            active_menu: self.active_menu,
            context_menu_open: self.context_menu_open,
            dialog: self.dialog,
            find_text: self.find_text@,
            replace_text: self.replace_text@,
            find_case_sensitive: self.find_case_sensitive,
            find_whole_word: self.find_whole_word,
            find_direction: self.find_direction,
            goto_line_text: self.goto_line_text@,
            alert_message: opt_view(self.alert_message),
            show_status_bar: self.show_status_bar,
            pending_action: self.pending_action,
        }
    }
}

// ---------------------------------------------------------------------------
// The transitions
// ---------------------------------------------------------------------------

pub open spec fn closed_menus(s: PadView) -> PadView {
    PadView { active_menu: None, context_menu_open: false, ..s }
}

pub open spec fn with_alert(s: PadView, m: Seq<char>) -> PadView {
    PadView { alert_message: Some(m), ..s }
}

/// The undo snapshot after an edit of `text`: the first edit after the
/// document was opened, saved or undone records the text before it; later
/// edits keep that record.
pub open spec fn snapshot_before_edit(s: PadView, text: Seq<char>) -> Option<Seq<char>> {
    if s.undo_snapshot is None || !s.is_dirty {
        Some(text)
    } else {
        s.undo_snapshot
    }
}

/// The state after an edit of the text `text`.
pub open spec fn edited(s: PadView, text: Seq<char>) -> PadView {
    PadView { undo_snapshot: snapshot_before_edit(s, text), is_dirty: true, ..s }
}

/// The state of a new, empty, untitled document.
pub open spec fn new_document(s: PadView) -> PadView {
    PadView { file_path: None, is_dirty: false, undo_snapshot: None, ..s }
}

/// Carrying out an action that waited for the prompt to save changes.
pub open spec fn pending_step(s: PadView, a: PendingAction) -> (PadView, Seq<CommandView>) {
    match a {
        PendingAction::New => (new_document(s), seq![CommandView::SetText(Seq::empty())]),
        PendingAction::Open => (s, seq![CommandView::OpenFile]),
        PendingAction::Exit => (s, seq![CommandView::Exit]),
    }
}

/// The alert for a search that found nothing.
pub open spec fn cannot_find(find: Seq<char>) -> Seq<char> {
    "Cannot find \""@ + find + "\""@
}

/// The character index of the document's cursor.
pub open spec fn cursor_offset(d: DocView) -> nat {
    offset_of(d.text, d.cursor_line, d.cursor_column)
}

/// Find Next (`forward`) or Find Previous: from the cursor, wrapping
/// around; selects the match, or alerts that there is none.
pub open spec fn find_step(s: PadView, d: DocView, forward: bool) -> (PadView, Seq<CommandView>) {
    if s.find_text.len() == 0 {
        (s, seq![])
    } else {
        match search(d.text, s.find_text, s.find_case_sensitive, s.find_whole_word, cursor_offset(d) as int, forward, true) {
            Some((start, len)) => (s, seq![CommandView::Select {
                line: position_of(d.text, start as nat).0,
                column: position_of(d.text, start as nat).1,
                len: len as nat,
            }]),
            None => (with_alert(s, cannot_find(s.find_text)), seq![]),
        }
    }
}

/// The selection `sel`, which ends at the cursor, forms a whole word.
pub open spec fn selection_is_whole_word(d: DocView, sel: Seq<char>) -> bool {
    let off = cursor_offset(d);
    let start = if off >= sel.len() { off - sel.len() } else { 0 };
    sel.len() > 0 && whole_word_at(d.text, start, sel.len() as int)
}

/// The selection is what the Replace dialog searches for.
pub open spec fn selection_matches(s: PadView, d: DocView, sel: Seq<char>) -> bool {
    &&& if s.find_case_sensitive {
        sel == s.find_text
    } else {
        fold(sel) == fold(s.find_text)
    }
    &&& (!s.find_whole_word || selection_is_whole_word(d, sel))
}

/// Replace: a selection that matches is replaced; then Find Next.
pub open spec fn replace_step(s: PadView, d: DocView) -> (PadView, Seq<CommandView>) {
    match d.selection {
        Some(sel) => if selection_matches(s, d, sel) {
            (edited(s, d.text), seq![CommandView::Paste(s.replace_text), CommandView::FindNext])
        } else {
            (s, seq![CommandView::FindNext])
        },
        None => (s, seq![CommandView::FindNext]),
    }
}

/// Replace All: every match, left to right from the start, is replaced;
/// the text before is kept for undo.
pub open spec fn replace_all_step(s: PadView, d: DocView) -> (PadView, Seq<CommandView>) {
    if s.find_text.len() == 0 {
        (s, seq![])
    } else if search(d.text, s.find_text, s.find_case_sensitive, s.find_whole_word, 0, true, false) is None {
        (with_alert(s, cannot_find(s.find_text)), seq![])
    } else {
        (
            PadView { undo_snapshot: Some(d.text), is_dirty: true, ..s },
            seq![CommandView::SetText(replaced_from(d.text, s.find_text, s.find_case_sensitive, s.find_whole_word, s.replace_text, 0))],
        )
    }
}

/// Go To Line: a line number from 1 to the number of lines moves the cursor
/// there and closes the dialog; anything else is explained in an alert.
pub open spec fn goto_step(s: PadView, d: DocView) -> (PadView, Seq<CommandView>) {
    match parsed_usize(trimmed(s.goto_line_text)) {
        None => (with_alert(s, "Enter a valid line number."@), seq![]),
        Some(n) => if n == 0 {
            (with_alert(s, "Line numbers start at 1."@), seq![])
        } else if n > lines(d.text).len() {
            (with_alert(s, "The document only has "@ + decimal(lines(d.text).len()) + " line(s)."@), seq![])
        } else {
            (PadView { dialog: None, ..s }, seq![CommandView::GoToLine((n - 1) as nat)])
        },
    }
}

/// The text of an opened file starts with `.LOG`.
pub open spec fn starts_log(t: Seq<char>) -> bool {
    t.len() >= 4 && t.take(4) == ".LOG"@
}

/// The state after a save or an open that did not go through.
pub open spec fn failed_step(s: PadView, e: FileError) -> (PadView, Seq<CommandView>) {
    match e {
        FileError::DialogClosed => (s, seq![]),
        _ => (PadView { pending_action: None, alert_message: Some(file_error_message(e)), ..s }, seq![]),
    }
}

/// The editor's transition for `msg`, given the document `d`: the next
/// state and the commands for the caller.
pub open spec fn step(s: PadView, msg: Message, d: DocView) -> (PadView, Seq<CommandView>) {
    match msg {
        Message::Ignored => (s, seq![]),
        Message::EditorAction { is_edit } => (
            if is_edit { edited(s, d.text) } else { s },
            seq![CommandView::PerformEditorAction],
        ),
        Message::NewFile => if s.is_dirty {
            (closed_menus(PadView { pending_action: Some(PendingAction::New), dialog: Some(DialogKind::SavePrompt), ..s }), seq![])
        } else {
            (new_document(s), seq![CommandView::SetText(Seq::empty())])
        },
        Message::OpenFile => if s.is_dirty {
            (closed_menus(PadView { pending_action: Some(PendingAction::Open), dialog: Some(DialogKind::SavePrompt), ..s }), seq![])
        } else {
            (closed_menus(s), seq![CommandView::OpenFile])
        },
        Message::FileOpened { result, now } => match result {
            Ok((path, contents)) => {
                let opened = PadView {
                    file_path: Some(path@),
                    is_dirty: false,
                    undo_snapshot: None,
                    alert_message: None,
                    ..s
                };
                if starts_log(contents@) {
                    (
                        PadView { undo_snapshot: Some(contents@), is_dirty: true, ..opened },
                        seq![
                            CommandView::SetText(contents@),
                            CommandView::MoveToDocumentEnd,
                            CommandView::Paste(log_stamp_text(now)),
                        ],
                    )
                } else {
                    (opened, seq![CommandView::SetText(contents@)])
                }
            },
            Err(e) => failed_step(s, e),
        },
        Message::SaveFile => (closed_menus(s), seq![CommandView::SaveFile { path: s.file_path, contents: d.text }]),
        Message::SaveFileAs => (closed_menus(s), seq![CommandView::SaveFile { path: None, contents: d.text }]),
        Message::FileSaved(result) => match result {
            Ok(path) => {
                let saved = PadView {
                    file_path: Some(path@),
                    is_dirty: false,
                    undo_snapshot: None,
                    alert_message: None,
                    pending_action: None,
                    ..s
                };
                match s.pending_action {
                    Some(a) => pending_step(saved, a),
                    None => (saved, seq![]),
                }
            },
            Err(e) => match e {
                FileError::DialogClosed => (PadView { pending_action: None, ..s }, seq![]),
                _ => failed_step(s, e),
            },
        },
        Message::Exit | Message::CloseRequested => if s.is_dirty {
            (closed_menus(PadView { pending_action: Some(PendingAction::Exit), dialog: Some(DialogKind::SavePrompt), ..s }), seq![])
        } else {
            (s, seq![CommandView::Exit])
        },
        Message::Undo => match s.undo_snapshot {
            Some(u) => (closed_menus(PadView { undo_snapshot: Some(d.text), is_dirty: true, ..s }), seq![CommandView::SetText(u)]),
            None => (closed_menus(s), seq![]),
        },
        Message::Cut => match d.selection {
            Some(sel) => (closed_menus(edited(s, d.text)), seq![CommandView::SetClipboard(sel), CommandView::DeleteSelection]),
            None => (closed_menus(s), seq![]),
        },
        Message::Copy => match d.selection {
            Some(sel) => (closed_menus(s), seq![CommandView::SetClipboard(sel)]),
            None => (closed_menus(s), seq![]),
        },
        Message::Paste => (closed_menus(s), seq![CommandView::ReadClipboard]),
        Message::ClipboardText(t) => match t {
            Some(t) => (edited(s, d.text), seq![CommandView::Paste(t@)]),
            None => (s, seq![]),
        },
        Message::Delete => (closed_menus(edited(s, d.text)), seq![CommandView::DeleteSelection]),
        Message::SelectAll => (closed_menus(s), seq![CommandView::SelectAll]),
        Message::InsertTimeDate { now } => (closed_menus(edited(s, d.text)), seq![CommandView::Paste(stamp_text(now))]),
        Message::ToggleWordWrap => (closed_menus(PadView { word_wrap: !s.word_wrap, show_status_bar: s.word_wrap, ..s }), seq![]),
        Message::ToggleDarkMode => (
            closed_menus(PadView { dark_mode: !s.dark_mode, ..s }),
            seq![CommandView::SaveSettings(Settings { dark_mode: !s.dark_mode })],
        ),
        Message::SettingsSaveFailed(e) => (with_alert(s, settings_error_message(e)), seq![]),
        Message::OpenFindDialog => (closed_menus(PadView { dialog: Some(DialogKind::Find), ..s }), seq![]),
        Message::OpenReplaceDialog => (closed_menus(PadView { dialog: Some(DialogKind::Replace), ..s }), seq![]),
        Message::OpenGoToDialog => if s.word_wrap {
            (s, seq![])
        } else {
            (closed_menus(PadView { dialog: Some(DialogKind::GoTo), ..s }), seq![])
        },
        Message::FindNext => match s.find_direction {
            FindDirection::Down => find_step(s, d, true),
            FindDirection::Up => find_step(s, d, false),
        },
        Message::DoReplace => replace_step(s, d),
        Message::DoReplaceAll => replace_all_step(s, d),
        Message::GoToLine => goto_step(s, d),
        Message::OpenFontDialog { size_text } => (
            closed_menus(PadView {
                font_dialog_family: s.font_family,
                font_dialog_style: s.font_style,
                font_dialog_size_text: size_text@,
                font_dialog_family_filter: Seq::empty(),
                font_dialog_style_filter: Seq::empty(),
                dialog: Some(DialogKind::Font),
                ..s
            }),
            seq![],
        ),
        Message::FontFamilyChanged(c) => (PadView { font_dialog_family: c, ..s }, seq![]),
        Message::FontFamilyFilterChanged(v) => (PadView { font_dialog_family_filter: v@, ..s }, seq![]),
        Message::FontStyleChanged(c) => (PadView { font_dialog_style: c, ..s }, seq![]),
        Message::FontStyleFilterChanged(v) => (PadView { font_dialog_style_filter: v@, ..s }, seq![]),
        Message::FontSizeChanged(v) => (PadView { font_dialog_size_text: v@, ..s }, seq![]),
        Message::FontSizeSelected(v) => (PadView { font_dialog_size_text: v@, ..s }, seq![]),
        Message::ApplyFont => (
            PadView { font_family: s.font_dialog_family, font_style: s.font_dialog_style, dialog: None, ..s },
            seq![CommandView::ApplyFontSize(s.font_dialog_size_text)],
        ),
        Message::FindTextChanged(v) => (PadView { find_text: v@, ..s }, seq![]),
        Message::ReplaceTextChanged(v) => (PadView { replace_text: v@, ..s }, seq![]),
        Message::GoToLineChanged(v) => (PadView { goto_line_text: v@, ..s }, seq![]),
        Message::OpenEditorContextMenu => (PadView { active_menu: None, context_menu_open: true, ..s }, seq![]),
        Message::ToggleCaseSensitive(b) => (PadView { find_case_sensitive: b, ..s }, seq![]),
        Message::ToggleWholeWord(b) => (PadView { find_whole_word: b, ..s }, seq![]),
        Message::FindDirectionChanged(dir) => (PadView { find_direction: dir, ..s }, seq![]),
        Message::DismissAlert => (PadView { alert_message: None, ..s }, seq![]),
        Message::CloseDialog => (
            PadView {
                pending_action: if s.dialog == Some(DialogKind::SavePrompt) { None } else { s.pending_action },
                dialog: None,
                ..s
            },
            seq![],
        ),
        Message::MenuClicked(id) => (
            PadView {
                context_menu_open: false,
                active_menu: if s.active_menu == Some(id) { None } else { Some(id) },
                ..s
            },
            seq![],
        ),
        Message::CloseMenus => (closed_menus(s), seq![]),
        Message::ShowAbout => (closed_menus(PadView { dialog: Some(DialogKind::About), ..s }), seq![]),
        Message::SavePromptSave => (PadView { dialog: None, ..s }, seq![CommandView::SaveFile { path: s.file_path, contents: d.text }]),
        Message::SavePromptDontSave => {
            let answered = PadView { dialog: None, pending_action: None, ..s };
            match s.pending_action {
                Some(a) => pending_step(answered, a),
                None => (answered, seq![]),
            }
        },
        Message::SavePromptCancel => (PadView { dialog: None, pending_action: None, ..s }, seq![]),
        Message::PageSetup => (closed_menus(s), seq![]),
        Message::Print => (closed_menus(s), seq![CommandView::Print(d.text)]),
        Message::PrintResult(result) => match result {
            Ok(_) => (s, seq![]),
            Err(e) => (with_alert(s, file_error_message(e)), seq![]),
        },
    }
}


// ---------------------------------------------------------------------------
// Carrying out the transitions
// ---------------------------------------------------------------------------

impl RustPad {
    fn close_menus(&mut self)
        ensures
            final(self)@ == closed_menus(old(self)@),
    {
        self.active_menu = None;
        self.context_menu_open = false;
    }

    fn show_alert(&mut self, message: String)
        ensures
            final(self)@ == with_alert(old(self)@, message@),
    {
        self.alert_message = Some(message);
    }

    /// Records the text before an edit, when the edit starts a new change.
    fn capture_undo_snapshot(&mut self, text: &String)
        ensures
            final(self)@ == (PadView { undo_snapshot: snapshot_before_edit(old(self)@, text@), ..old(self)@ }),
    {
        if self.undo_snapshot.is_none() || !self.is_dirty {
            self.undo_snapshot = Some(text.clone());
        }
    }

    fn mark_edited(&mut self, text: &String)
        ensures
            final(self)@ == edited(old(self)@, text@),
    {
        self.capture_undo_snapshot(text);
        self.is_dirty = true;
    }

    fn do_new_file(&mut self) -> (cmds: Vec<Command>)
        ensures
            final(self)@ == new_document(old(self)@),
            view_cmds(cmds@) == seq![CommandView::SetText(Seq::empty())],
    {
        self.file_path = None;
        self.is_dirty = false;
        self.undo_snapshot = None;
        one_cmd(Command::SetText(String::new()))
    }

    fn execute_pending_action(&mut self, action: PendingAction) -> (cmds: Vec<Command>)
        ensures
            final(self)@ == pending_step(old(self)@, action).0,
            view_cmds(cmds@) == pending_step(old(self)@, action).1,
    {
        match action {
            PendingAction::New => self.do_new_file(),
            PendingAction::Open => one_cmd(Command::OpenFile),
            PendingAction::Exit => one_cmd(Command::Exit),
        }
    }

    fn cannot_find_alert(&mut self)
        ensures
            final(self)@ == with_alert(old(self)@, cannot_find(old(self)@.find_text)),
    {
        let mut m = String::from_str("Cannot find \"");
        m.append(self.find_text.as_str());
        m.append("\"");
        self.show_alert(m);
    }

    fn do_find(&mut self, doc: &Document, forward: bool) -> (cmds: Vec<Command>)
        ensures
            final(self)@ == find_step(old(self)@, doc@, forward).0,
            view_cmds(cmds@) == find_step(old(self)@, doc@, forward).1,
    {
        if self.find_text.as_str().is_empty() {
            return no_cmds();
        }
        let text = chars_of(doc.text.as_str());
        let find = chars_of(self.find_text.as_str());
        let offset = cursor_char_offset(text.as_slice(), doc.cursor_line, doc.cursor_column);
        match find_match(text.as_slice(), find.as_slice(), self.find_case_sensitive, self.find_whole_word, offset, forward, true) {
            Some((start, len)) => {
                let (line, column) = line_col_in(text.as_slice(), start);
                one_cmd(Command::Select { line, column, len })
            },
            None => {
                self.cannot_find_alert();
                no_cmds()
            },
        }
    }

    /// Find Next: searches forward from the cursor, wrapping around, and
    /// selects the match; alerts when there is none.
    pub fn do_find_next(&mut self, doc: &Document) -> (cmds: Vec<Command>)
        ensures
            final(self)@ == find_step(old(self)@, doc@, true).0,
            view_cmds(cmds@) == find_step(old(self)@, doc@, true).1,
    {
        self.do_find(doc, true)
    }

    /// Find Previous: searches backward from the cursor, wrapping around,
    /// and selects the match; alerts when there is none.
    pub fn do_find_previous(&mut self, doc: &Document) -> (cmds: Vec<Command>)
        ensures
            final(self)@ == find_step(old(self)@, doc@, false).0,
            view_cmds(cmds@) == find_step(old(self)@, doc@, false).1,
    {
        self.do_find(doc, false)
    }

    /// Whether the selection `selection`, which ends at the cursor, forms a
    /// whole word of the document.
    pub fn selection_matches_whole_word(&self, doc: &Document, selection: &String) -> (r: bool)
        ensures
            r == selection_is_whole_word(doc@, selection@),
    {
        let sel = chars_of(selection.as_str());
        if sel.len() == 0 {
            return false;
        }
        let text = chars_of(doc.text.as_str());
        let cursor_offset = cursor_char_offset(text.as_slice(), doc.cursor_line, doc.cursor_column);
        let start = if cursor_offset >= sel.len() { cursor_offset - sel.len() } else { 0 };
        is_whole_word_match(text.as_slice(), start, sel.len())
    }

    fn do_replace(&mut self, doc: &Document) -> (cmds: Vec<Command>)
        ensures
            final(self)@ == replace_step(old(self)@, doc@).0,
            view_cmds(cmds@) == replace_step(old(self)@, doc@).1,
    {
        let mut cmds = no_cmds();
        match &doc.selection {
            Some(selection) => {
                let matches = strings_match_case(selection.as_str(), self.find_text.as_str(), self.find_case_sensitive);
                let whole = if self.find_whole_word {
                    self.selection_matches_whole_word(doc, selection)
                } else {
                    true
                };
                if matches && whole {
                    self.mark_edited(&doc.text);
                    push_cmd(&mut cmds, Command::Paste(self.replace_text.clone()));
                }
            },
            None => {},
        }
        push_cmd(&mut cmds, Command::FindNext);
        cmds
    }

    fn do_replace_all(&mut self, doc: &Document) -> (cmds: Vec<Command>)
        ensures
            final(self)@ == replace_all_step(old(self)@, doc@).0,
            view_cmds(cmds@) == replace_all_step(old(self)@, doc@).1,
    {
        if self.find_text.as_str().is_empty() {
            return no_cmds();
        }
        let text = chars_of(doc.text.as_str());
        let find = chars_of(self.find_text.as_str());
        let replace = chars_of(self.replace_text.as_str());
        match replace_all(text.as_slice(), find.as_slice(), self.find_case_sensitive, self.find_whole_word, replace.as_slice()) {
            None => {
                self.cannot_find_alert();
                no_cmds()
            },
            Some(rebuilt) => {
                self.undo_snapshot = Some(doc.text.clone());
                self.is_dirty = true;
                one_cmd(Command::SetText(string_from_chars(rebuilt.as_slice())))
            },
        }
    }

    fn do_goto_line(&mut self, doc: &Document) -> (cmds: Vec<Command>)
        ensures
            final(self)@ == goto_step(old(self)@, doc@).0,
            view_cmds(cmds@) == goto_step(old(self)@, doc@).1,
    {
        let goto = trim_chars(chars_of(self.goto_line_text.as_str()).as_slice());
        match parse_usize(goto.as_slice()) {
            None => {
                self.show_alert(String::from_str("Enter a valid line number."));
                no_cmds()
            },
            Some(line_num) => {
                if line_num == 0 {
                    self.show_alert(String::from_str("Line numbers start at 1."));
                    return no_cmds();
                }
                let text = chars_of(doc.text.as_str());
                let breaks = line_breaks_in(text.as_slice());
                if line_num - 1 > breaks {
                    let mut m = String::from_str("The document only has ");
                    let total = decimal_string(breaks as u128 + 1);
                    m.append(total.as_str());
                    m.append(" line(s).");
                    self.show_alert(m);
                    return no_cmds();
                }
                self.dialog = None;
                one_cmd(Command::GoToLine(line_num - 1))
            },
        }
    }
}

impl RustPad {
    #[verifier::rlimit(40)]
    fn update_file(&mut self, message: Message, doc: &Document) -> (cmds: Vec<Command>)
        requires
            message is NewFile || message is OpenFile || message is FileOpened ||
                message is SaveFile || message is SaveFileAs || message is FileSaved ||
                message is Exit || message is CloseRequested || message is SavePromptSave ||
                message is SavePromptDontSave || message is SavePromptCancel || message is PageSetup ||
                message is Print || message is PrintResult,
        ensures
            final(self)@ == step(old(self)@, message, doc@).0,
            view_cmds(cmds@) == step(old(self)@, message, doc@).1,
    {
        match message {
            Message::NewFile => {
                if self.is_dirty {
                    self.pending_action = Some(PendingAction::New);
                    self.dialog = Some(DialogKind::SavePrompt);
                    self.close_menus();
                    return no_cmds();
                }
                self.do_new_file()
            },
            Message::OpenFile => {
                if self.is_dirty {
                    self.pending_action = Some(PendingAction::Open);
                    self.dialog = Some(DialogKind::SavePrompt);
                    self.close_menus();
                    return no_cmds();
                }
                self.close_menus();
                one_cmd(Command::OpenFile)
            },
            Message::FileOpened { result, now } => match result {
                Ok((path, contents)) => {
                    let log = starts_with_chars(chars_of(contents.as_str()).as_slice(), chars_of(".LOG").as_slice());
                    proof {
                        reveal_strlit(".LOG");
                    }
                    self.file_path = Some(path);
                    self.is_dirty = false;
                    self.undo_snapshot = None;
                    self.alert_message = None;
                    if log {
                        self.undo_snapshot = Some(contents.clone());
                        self.is_dirty = true;
                        let stamp = log_stamp(&now);
                        let mut cmds = one_cmd(Command::SetText(contents));
                        push_cmd(&mut cmds, Command::MoveToDocumentEnd);
                        push_cmd(&mut cmds, Command::Paste(stamp));
                        cmds
                    } else {
                        one_cmd(Command::SetText(contents))
                    }
                },
                Err(error) => {
                    match error {
                        FileError::DialogClosed => {},
                        _ => {
                            self.pending_action = None;
                            self.show_alert(error.message());
                        },
                    }
                    no_cmds()
                },
            },
            Message::SaveFile => {
                self.close_menus();
                one_cmd(Command::SaveFile { path: clone_opt(&self.file_path), contents: doc.text.clone() })
            },
            Message::SaveFileAs => {
                self.close_menus();
                one_cmd(Command::SaveFile { path: None, contents: doc.text.clone() })
            },
            Message::FileSaved(result) => match result {
                Ok(path) => {
                    self.file_path = Some(path);
                    self.is_dirty = false;
                    self.undo_snapshot = None;
                    self.alert_message = None;
                    let pending = self.pending_action;
                    self.pending_action = None;
                    match pending {
                        Some(action) => self.execute_pending_action(action),
                        None => no_cmds(),
                    }
                },
                Err(error) => {
                    self.pending_action = None;
                    match error {
                        FileError::DialogClosed => {},
                        _ => {
                            self.show_alert(error.message());
                        },
                    }
                    no_cmds()
                },
            },
            Message::Exit | Message::CloseRequested => {
                if self.is_dirty {
                    self.pending_action = Some(PendingAction::Exit);
                    self.dialog = Some(DialogKind::SavePrompt);
                    self.close_menus();
                    no_cmds()
                } else {
                    one_cmd(Command::Exit)
                }
            },
            Message::SavePromptSave => {
                self.dialog = None;
                one_cmd(Command::SaveFile { path: clone_opt(&self.file_path), contents: doc.text.clone() })
            },
            Message::SavePromptDontSave => {
                self.dialog = None;
                let pending = self.pending_action;
                self.pending_action = None;
                match pending {
                    Some(action) => self.execute_pending_action(action),
                    None => no_cmds(),
                }
            },
            Message::SavePromptCancel => {
                self.dialog = None;
                self.pending_action = None;
                no_cmds()
            },
            Message::PageSetup => {
                self.close_menus();
                no_cmds()
            },
            Message::Print => {
                self.close_menus();
                one_cmd(Command::Print(doc.text.clone()))
            },
            Message::PrintResult(result) => {
                match result {
                    Ok(_) => {},
                    Err(error) => {
                        self.show_alert(error.message());
                    },
                }
                no_cmds()
            },

            _ => no_cmds(),
        }
    }

    #[verifier::rlimit(40)]
    fn update_edit(&mut self, message: Message, doc: &Document) -> (cmds: Vec<Command>)
        requires
            message is Ignored || message is EditorAction || message is Undo || message is Cut ||
                message is Copy || message is Paste || message is ClipboardText || message is Delete ||
                message is SelectAll || message is InsertTimeDate,
        ensures
            final(self)@ == step(old(self)@, message, doc@).0,
            view_cmds(cmds@) == step(old(self)@, message, doc@).1,
    {
        match message {
            Message::Ignored => no_cmds(),
            Message::EditorAction { is_edit } => {
                if is_edit {
                    self.mark_edited(&doc.text);
                }
                one_cmd(Command::PerformEditorAction)
            },
            Message::Undo => {
                let cmds = match &self.undo_snapshot {
                    Some(snapshot) => {
                        let restored = snapshot.clone();
                        self.undo_snapshot = Some(doc.text.clone());
                        self.is_dirty = true;
                        one_cmd(Command::SetText(restored))
                    },
                    None => no_cmds(),
                };
                self.close_menus();
                cmds
            },
            Message::Cut => {
                let cmds = match &doc.selection {
                    Some(selection) => {
                        let mut cmds = one_cmd(Command::SetClipboard(selection.clone()));
                        self.mark_edited(&doc.text);
                        push_cmd(&mut cmds, Command::DeleteSelection);
                        cmds
                    },
                    None => no_cmds(),
                };
                self.close_menus();
                cmds
            },
            Message::Copy => {
                let cmds = match &doc.selection {
                    Some(selection) => one_cmd(Command::SetClipboard(selection.clone())),
                    None => no_cmds(),
                };
                self.close_menus();
                cmds
            },
            Message::Paste => {
                self.close_menus();
                one_cmd(Command::ReadClipboard)
            },
            Message::ClipboardText(text) => match text {
                Some(t) => {
                    self.mark_edited(&doc.text);
                    one_cmd(Command::Paste(t))
                },
                None => no_cmds(),
            },
            Message::Delete => {
                self.mark_edited(&doc.text);
                self.close_menus();
                one_cmd(Command::DeleteSelection)
            },
            Message::SelectAll => {
                self.close_menus();
                one_cmd(Command::SelectAll)
            },
            Message::InsertTimeDate { now } => {
                let stamp = time_date_stamp(&now);
                self.mark_edited(&doc.text);
                self.close_menus();
                one_cmd(Command::Paste(stamp))
            },
            _ => no_cmds(),
        }
    }

    #[verifier::rlimit(40)]
    fn update_search(&mut self, message: Message, doc: &Document) -> (cmds: Vec<Command>)
        requires
            message is OpenFindDialog || message is OpenReplaceDialog ||
                message is OpenGoToDialog || message is FindNext || message is DoReplace ||
                message is DoReplaceAll || message is GoToLine || message is FindTextChanged ||
                message is ReplaceTextChanged || message is GoToLineChanged ||
                message is ToggleCaseSensitive || message is ToggleWholeWord ||
                message is FindDirectionChanged,
        ensures
            final(self)@ == step(old(self)@, message, doc@).0,
            view_cmds(cmds@) == step(old(self)@, message, doc@).1,
    {
        match message {
            Message::OpenFindDialog => {
                self.dialog = Some(DialogKind::Find);
                self.close_menus();
                no_cmds()
            },
            Message::OpenReplaceDialog => {
                self.dialog = Some(DialogKind::Replace);
                self.close_menus();
                no_cmds()
            },
            Message::OpenGoToDialog => {
                if self.word_wrap {
                    return no_cmds();
                }
                self.dialog = Some(DialogKind::GoTo);
                self.close_menus();
                no_cmds()
            },
            Message::FindNext => match self.find_direction {
                FindDirection::Down => self.do_find_next(doc),
                FindDirection::Up => self.do_find_previous(doc),
            },
            Message::DoReplace => self.do_replace(doc),
            Message::DoReplaceAll => self.do_replace_all(doc),
            Message::GoToLine => self.do_goto_line(doc),
            Message::FindTextChanged(value) => {
                self.find_text = value;
                no_cmds()
            },
            Message::ReplaceTextChanged(value) => {
                self.replace_text = value;
                no_cmds()
            },
            Message::GoToLineChanged(value) => {
                self.goto_line_text = value;
                no_cmds()
            },
            Message::ToggleCaseSensitive(value) => {
                self.find_case_sensitive = value;
                no_cmds()
            },
            Message::ToggleWholeWord(value) => {
                self.find_whole_word = value;
                no_cmds()
            },
            Message::FindDirectionChanged(direction) => {
                self.find_direction = direction;
                no_cmds()
            },
            _ => no_cmds(),
        }
    }

    #[verifier::rlimit(40)]
    fn update_format(&mut self, message: Message, doc: &Document) -> (cmds: Vec<Command>)
        requires
            message is ToggleWordWrap || message is ToggleDarkMode ||
                message is SettingsSaveFailed || message is OpenFontDialog ||
                message is FontFamilyChanged || message is FontFamilyFilterChanged ||
                message is FontStyleChanged || message is FontStyleFilterChanged ||
                message is FontSizeChanged || message is FontSizeSelected || message is ApplyFont,
        ensures
            final(self)@ == step(old(self)@, message, doc@).0,
            view_cmds(cmds@) == step(old(self)@, message, doc@).1,
    {
        match message {
            Message::ToggleWordWrap => {
                self.word_wrap = !self.word_wrap;
                self.show_status_bar = !self.word_wrap;
                self.close_menus();
                no_cmds()
            },
            Message::ToggleDarkMode => {
                self.dark_mode = !self.dark_mode;
                self.close_menus();
                one_cmd(Command::SaveSettings(Settings { dark_mode: self.dark_mode }))
            },
            Message::SettingsSaveFailed(error) => {
                self.show_alert(error.message());
                no_cmds()
            },
            Message::OpenFontDialog { size_text } => {
                self.font_dialog_family = self.font_family;
                self.font_dialog_style = self.font_style;
                self.font_dialog_size_text = size_text;
                self.font_dialog_family_filter = String::new();
                self.font_dialog_style_filter = String::new();
                self.dialog = Some(DialogKind::Font);
                self.close_menus();
                no_cmds()
            },
            Message::FontFamilyChanged(choice) => {
                self.font_dialog_family = choice;
                no_cmds()
            },
            Message::FontFamilyFilterChanged(value) => {
                self.font_dialog_family_filter = value;
                no_cmds()
            },
            Message::FontStyleChanged(choice) => {
                self.font_dialog_style = choice;
                no_cmds()
            },
            Message::FontStyleFilterChanged(value) => {
                self.font_dialog_style_filter = value;
                no_cmds()
            },
            Message::FontSizeChanged(value) => {
                self.font_dialog_size_text = value;
                no_cmds()
            },
            Message::FontSizeSelected(value) => {
                self.font_dialog_size_text = value;
                no_cmds()
            },
            Message::ApplyFont => {
                self.font_family = self.font_dialog_family;
                self.font_style = self.font_dialog_style;
                self.dialog = None;
                one_cmd(Command::ApplyFontSize(self.font_dialog_size_text.clone()))
            },
            _ => no_cmds(),
        }
    }

    #[verifier::rlimit(40)]
    fn update_window(&mut self, message: Message, doc: &Document) -> (cmds: Vec<Command>)
        requires
            message is OpenEditorContextMenu || message is DismissAlert ||
                message is CloseDialog || message is MenuClicked || message is CloseMenus ||
                message is ShowAbout,
        ensures
            final(self)@ == step(old(self)@, message, doc@).0,
            view_cmds(cmds@) == step(old(self)@, message, doc@).1,
    {
        match message {
            Message::OpenEditorContextMenu => {
                self.active_menu = None;
                self.context_menu_open = true;
                no_cmds()
            },
            Message::DismissAlert => {
                self.alert_message = None;
                no_cmds()
            },
            Message::CloseDialog => {
                match self.dialog {
                    Some(DialogKind::SavePrompt) => {
                        self.pending_action = None;
                    },
                    _ => {},
                }
                self.dialog = None;
                no_cmds()
            },
            Message::MenuClicked(id) => {
                self.context_menu_open = false;
                let same = match self.active_menu {
                    Some(active) => active == id,
                    None => false,
                };
                if same {
                    self.active_menu = None;
                } else {
                    self.active_menu = Some(id);
                }
                no_cmds()
            },
            Message::CloseMenus => {
                self.close_menus();
                no_cmds()
            },
            Message::ShowAbout => {
                self.dialog = Some(DialogKind::About);
                self.close_menus();
                no_cmds()
            },
            _ => no_cmds(),
        }
    }

    /// Handles one message: updates the state and returns, in order, the
    /// commands for the caller; see [`step`].
    pub fn update(&mut self, message: Message, doc: &Document) -> (cmds: Vec<Command>)
        ensures
            final(self)@ == step(old(self)@, message, doc@).0,
            view_cmds(cmds@) == step(old(self)@, message, doc@).1,
    {
        match message {
            m @ (Message::NewFile | Message::OpenFile | Message::FileOpened { .. } |
                Message::SaveFile | Message::SaveFileAs | Message::FileSaved(..) | Message::Exit |
                Message::CloseRequested | Message::SavePromptSave | Message::SavePromptDontSave |
                Message::SavePromptCancel | Message::PageSetup | Message::Print |
                Message::PrintResult(..)) => self.update_file(m, doc),
            m @ (Message::Ignored | Message::EditorAction { .. } | Message::Undo | Message::Cut |
                Message::Copy | Message::Paste | Message::ClipboardText(..) | Message::Delete |
                Message::SelectAll | Message::InsertTimeDate { .. }) => self.update_edit(m, doc),
            m @ (Message::OpenFindDialog | Message::OpenReplaceDialog | Message::OpenGoToDialog |
                Message::FindNext | Message::DoReplace | Message::DoReplaceAll |
                Message::GoToLine | Message::FindTextChanged(..) |
                Message::ReplaceTextChanged(..) | Message::GoToLineChanged(..) |
                Message::ToggleCaseSensitive(..) | Message::ToggleWholeWord(..) |
                Message::FindDirectionChanged(..)) => self.update_search(m, doc),
            m @ (Message::ToggleWordWrap | Message::ToggleDarkMode |
                Message::SettingsSaveFailed(..) | Message::OpenFontDialog { .. } |
                Message::FontFamilyChanged(..) | Message::FontFamilyFilterChanged(..) |
                Message::FontStyleChanged(..) | Message::FontStyleFilterChanged(..) |
                Message::FontSizeChanged(..) | Message::FontSizeSelected(..) |
                Message::ApplyFont) => self.update_format(m, doc),
            m @ (Message::OpenEditorContextMenu | Message::DismissAlert | Message::CloseDialog |
                Message::MenuClicked(..) | Message::CloseMenus | Message::ShowAbout) => self.update_window(m, doc),
        }
    }
}

// ---------------------------------------------------------------------------
// The initial state and what is shown of the state
// ---------------------------------------------------------------------------

/// The state at start-up, given how loading the settings went: an error is
/// shown in an alert, and dark mode is then off.
pub open spec fn initial_state(dark_mode: bool, alert_message: Option<Seq<char>>) -> PadView {
    PadView {
        file_path: None,
        is_dirty: false,
        undo_snapshot: None,
        word_wrap: false,
        dark_mode,
        font_family: FontChoice::Monospace,
        font_style: FontStyleChoice::Regular,
        font_dialog_family: FontChoice::Monospace,
        font_dialog_style: FontStyleChoice::Regular,
        font_dialog_size_text: "16"@,
        font_dialog_family_filter: "Monospace"@,
        font_dialog_style_filter: "Regular"@,
        active_menu: None,
        context_menu_open: false,
        dialog: None,
        find_text: Seq::empty(),
        replace_text: Seq::empty(),
        find_case_sensitive: false,
        find_whole_word: false,
        find_direction: FindDirection::Down,
        goto_line_text: Seq::empty(),
        alert_message,
        show_status_bar: true,
        pending_action: None,
    }
}

/// The name shown for the document: its file name (under Windows path
/// rules when `windows`), or `Untitled`.
pub open spec fn document_name(s: PadView, windows: bool) -> Seq<char> {
    match s.file_path {
        Some(p) => match file_name_of(p, windows) {
            Some(n) => n,
            None => "Untitled"@,
        },
        None => "Untitled"@,
    }
}

/// The window title: `*` when there are unsaved changes, the document's
/// name, and ` - RustPad`.
pub open spec fn title_text(s: PadView, windows: bool) -> Seq<char> {
    (if s.is_dirty { "*"@ } else { ""@ }) + document_name(s, windows) + " - RustPad"@
}

impl RustPad {
    /// The state at start-up, given how loading the settings went.
    pub fn new(loaded: Result<Settings, crate::settings::SettingsError>) -> (r: RustPad)
        ensures
            r@ == initial_state(
                match loaded {
                    Ok(s) => s.dark_mode,
                    Err(_) => false,
                },
                match loaded {
                    Ok(_) => None,
                    Err(e) => Some(settings_error_message(e)),
                },
            ),
    {
        let (dark_mode, alert_message) = match loaded {
            Ok(settings) => (settings.dark_mode, None),
            Err(error) => (false, Some(error.message())),
        };
        RustPad {
            file_path: None,
            is_dirty: false,
            undo_snapshot: None,
            word_wrap: false,
            dark_mode,
            font_family: FontChoice::Monospace,
            font_style: FontStyleChoice::Regular,
            font_dialog_family: FontChoice::Monospace,
            font_dialog_style: FontStyleChoice::Regular,
            font_dialog_size_text: String::from_str("16"),
            font_dialog_family_filter: String::from_str("Monospace"),
            font_dialog_style_filter: String::from_str("Regular"),
            active_menu: None,
            context_menu_open: false,
            dialog: None,
            find_text: String::new(),
            replace_text: String::new(),
            find_case_sensitive: false,
            find_whole_word: false,
            find_direction: FindDirection::Down,
            goto_line_text: String::new(),
            alert_message,
            show_status_bar: true,
            pending_action: None,
        }
    }

    fn document_name(&self, windows: bool) -> (r: String)
        ensures
            r@ == document_name(self@, windows),
    {
        match &self.file_path {
            Some(p) => match file_name(p.as_str(), windows) {
                Some(n) => n,
                None => String::from_str("Untitled"),
            },
            None => String::from_str("Untitled"),
        }
    }

    /// The window title.
    pub fn title(&self, windows: bool) -> (r: String)
        ensures
            r@ == title_text(self@, windows),
    {
        let mut t = if self.is_dirty { String::from_str("*") } else { String::new() };
        proof {
            reveal_strlit("");
        }
        let name = self.document_name(windows);
        t.append(name.as_str());
        t.append(" - RustPad");
        t
    }

    /// The question of the prompt to save changes.
    pub fn save_prompt_text(&self, windows: bool) -> (r: String)
        ensures
            r@ == "Do you want to save changes to "@ + document_name(self@, windows) + "?"@,
    {
        let mut t = String::from_str("Do you want to save changes to ");
        let name = self.document_name(windows);
        t.append(name.as_str());
        t.append("?");
        t
    }

    /// The cursor's line and column, counted from 1.
    pub fn cursor_position(&self, doc: &Document) -> (r: (usize, usize))
        requires
            doc.cursor_line < usize::MAX,
            doc.cursor_column < usize::MAX,
        ensures
            r.0 == doc.cursor_line + 1,
            r.1 == doc.cursor_column + 1,
    {
        (doc.cursor_line + 1, doc.cursor_column + 1)
    }
}

/// The status bar's text for the cursor at `line` and `column` (from 1).
pub fn status_text(line: usize, column: usize) -> (r: String)
    ensures
        r@ == "Ln "@ + decimal(line as nat) + ", Col "@ + decimal(column as nat),
{
    let mut t = String::from_str("Ln ");
    let l = decimal_string(line as u128);
    t.append(l.as_str());
    t.append(", Col ");
    let c = decimal_string(column as u128);
    t.append(c.as_str());
    t
}

// ---------------------------------------------------------------------------
// Laws
// ---------------------------------------------------------------------------

/// Undo swaps the text with the undo snapshot, so a second Undo brings
/// back the text from before the first one.
pub proof fn law_undo_twice_restores(s: PadView, d: DocView, d2: DocView)
    requires
        s.undo_snapshot is Some,
        d2.text == s.undo_snapshot->0,
    ensures
        step(s, Message::Undo, d).1 == seq![CommandView::SetText(s.undo_snapshot->0)],
        step(step(s, Message::Undo, d).0, Message::Undo, d2).1 == seq![CommandView::SetText(d.text)],
        step(step(s, Message::Undo, d).0, Message::Undo, d2).0.undo_snapshot == s.undo_snapshot,
{
}

proof fn lemma_steps_keep_view(s: PadView, d: DocView, forward: bool, a: PendingAction, e: FileError)
    ensures
        find_step(s, d, forward).0.word_wrap == s.word_wrap,
        find_step(s, d, forward).0.show_status_bar == s.show_status_bar,
        replace_step(s, d).0.word_wrap == s.word_wrap,
        replace_step(s, d).0.show_status_bar == s.show_status_bar,
        replace_all_step(s, d).0.word_wrap == s.word_wrap,
        replace_all_step(s, d).0.show_status_bar == s.show_status_bar,
        goto_step(s, d).0.word_wrap == s.word_wrap,
        goto_step(s, d).0.show_status_bar == s.show_status_bar,
        pending_step(s, a).0.word_wrap == s.word_wrap,
        pending_step(s, a).0.show_status_bar == s.show_status_bar,
        failed_step(s, e).0.word_wrap == s.word_wrap,
        failed_step(s, e).0.show_status_bar == s.show_status_bar,
{
}

/// The status bar is shown exactly when word wrap is off: true at start-up
/// and kept by every message.
pub proof fn law_status_bar_without_word_wrap(s: PadView, msg: Message, d: DocView, dark_mode: bool, alert: Option<Seq<char>>)
    ensures
        initial_state(dark_mode, alert).show_status_bar == !initial_state(dark_mode, alert).word_wrap,
        s.show_status_bar == !s.word_wrap ==> step(s, msg, d).0.show_status_bar == !step(s, msg, d).0.word_wrap,
{
    match msg {
        Message::FindNext => {
            lemma_steps_keep_view(s, d, true, PendingAction::New, FileError::DialogClosed);
            lemma_steps_keep_view(s, d, false, PendingAction::New, FileError::DialogClosed);
        },
        Message::DoReplace | Message::DoReplaceAll | Message::GoToLine => {
            lemma_steps_keep_view(s, d, true, PendingAction::New, FileError::DialogClosed);
        },
        Message::FileOpened { result, now } => {
            if let Err(e) = result {
                lemma_steps_keep_view(s, d, true, PendingAction::New, e);
            }
        },
        Message::FileSaved(result) => {
            match result {
                Ok(path) => {
                    let saved = PadView {
                        file_path: Some(path@),
                        is_dirty: false,
                        undo_snapshot: None,
                        alert_message: None,
                        pending_action: None,
                        ..s
                    };
                    if let Some(a) = s.pending_action {
                        lemma_steps_keep_view(saved, d, true, a, FileError::DialogClosed);
                    }
                },
                Err(e) => {
                    lemma_steps_keep_view(s, d, true, PendingAction::New, e);
                },
            }
        },
        Message::SavePromptDontSave => {
            let answered = PadView { dialog: None, pending_action: None, ..s };
            if let Some(a) = s.pending_action {
                lemma_steps_keep_view(answered, d, true, a, FileError::DialogClosed);
            }
        },
        _ => {},
    }
}

/// With unsaved changes, New, Open, Exit and closing the window discard
/// nothing: they ask whether to save, and remember what to do afterwards.
pub proof fn law_unsaved_changes_prompt(s: PadView, msg: Message, d: DocView)
    requires
        s.is_dirty,
        msg is NewFile || msg is OpenFile || msg is Exit || msg is CloseRequested,
    ensures
        step(s, msg, d).1 == Seq::<CommandView>::empty(),
        step(s, msg, d).0.dialog == Some(DialogKind::SavePrompt),
        step(s, msg, d).0.pending_action == Some(
            if msg is NewFile {
                PendingAction::New
            } else if msg is OpenFile {
                PendingAction::Open
            } else {
                PendingAction::Exit
            },
        ),
        step(s, msg, d).0.is_dirty,
{
}

/// Answering Don't Save to the prompt that New raised starts a new, empty,
/// untitled document with nothing to undo.
pub proof fn law_dont_save_then_new(s: PadView, d: DocView, d2: DocView)
    requires
        s.is_dirty,
    ensures
        ({
            let prompted = step(s, Message::NewFile, d).0;
            let answered = step(prompted, Message::SavePromptDontSave, d2);
            &&& answered.1 == seq![CommandView::SetText(Seq::empty())]
            &&& answered.0.file_path is None
            &&& !answered.0.is_dirty
            &&& answered.0.undo_snapshot is None
            &&& answered.0.dialog is None
            &&& answered.0.pending_action is None
        }),
{
}

/// Find Next and Find Previous select what they find: the selection starts
/// at the match's position, lies within the text, is the search text itself
/// under Match Case and folds to what the search text folds to otherwise,
/// and is a whole word when the dialog asks for one.
pub proof fn law_find_selects_match(s: PadView, d: DocView, forward: bool)
    ensures
        find_step(s, d, forward).1.len() == 1 ==> (find_step(s, d, forward).1[0] matches CommandView::Select { line, column, len } && {
            let start = offset_of(d.text, line, column) as int;
            let sel = d.text.subrange(start, start + len);
            &&& start + len <= d.text.len()
            &&& s.find_case_sensitive ==> sel == s.find_text
            &&& !s.find_case_sensitive ==> fold(sel) == fold(s.find_text)
            &&& s.find_whole_word ==> whole_word_at(d.text, start, len as int)
        }),
{
    lemma_search_found(d.text, s.find_text, s.find_case_sensitive, s.find_whole_word, cursor_offset(d) as int, forward, true);
    if let Some((start, len)) = search(d.text, s.find_text, s.find_case_sensitive, s.find_whole_word, cursor_offset(d) as int, forward, true) {
        law_offset_of_position(d.text, start as nat);
    }
}

/// Toggling word wrap or dark mode twice leaves both as they were.
pub proof fn law_toggles_are_involutions(s: PadView, d: DocView, d2: DocView)
    ensures
        step(step(s, Message::ToggleWordWrap, d).0, Message::ToggleWordWrap, d2).0.word_wrap == s.word_wrap,
        step(step(s, Message::ToggleDarkMode, d).0, Message::ToggleDarkMode, d2).0.dark_mode == s.dark_mode,
{
}

/// Find Next, searching down, selects the first match in wrap order: the
/// match that starts at the cursor when there is one, else the first one
/// after the cursor, else the first one from the top of the text; it
/// selects exactly the match's characters, and alerts (selecting nothing)
/// only when the text holds no match at all.
pub proof fn law_find_next_selects_first_match(s: PadView, d: DocView)
    requires
        s.find_text.len() > 0,
        s.find_direction == FindDirection::Down,
    ensures
        ({
            let c = cursor_offset(d) as int;
            let cmds = step(s, Message::FindNext, d).1;
            &&& cmds.len() <= 1
            &&& cmds.len() == 1 ==> (cmds[0] matches CommandView::Select { line, column, len } && {
                let p = offset_of(d.text, line, column) as int;
                &&& is_match(d.text, s.find_text, s.find_case_sensitive, s.find_whole_word, p, len as int)
                &&& c <= p ==> forall|q: int| c <= q < p ==> !match_starts_at(d.text, s.find_text, s.find_case_sensitive, s.find_whole_word, q)
                &&& p < c ==> forall|q: int| (0 <= q < p || c <= q) ==> !match_starts_at(d.text, s.find_text, s.find_case_sensitive, s.find_whole_word, q)
                &&& match_starts_at(d.text, s.find_text, s.find_case_sensitive, s.find_whole_word, c) ==> p == c
            })
            &&& cmds.len() == 0 ==> forall|q: int| !match_starts_at(d.text, s.find_text, s.find_case_sensitive, s.find_whole_word, q)
        }),
{
    let c = cursor_offset(d) as int;
    lemma_offset_bound(d.text, d.cursor_line, d.cursor_column);
    law_forward_search_finds_first_match(d.text, s.find_text, s.find_case_sensitive, s.find_whole_word, c);
    if let Some((p, l)) = search(d.text, s.find_text, s.find_case_sensitive, s.find_whole_word, c, true, true) {
        law_offset_of_position(d.text, p as nat);
    }
}

#[verifier::rlimit(40)]
proof fn lemma_replace_all_step(s: PadView, d: DocView)
    requires
        s.find_text.len() > 0,
        s.find_case_sensitive || fold(s.find_text).len() > 0,
    ensures
        ({
            let (t, cmds) = replace_all_step(s, d);
            let cs = s.find_case_sensitive;
            let ww = s.find_whole_word;
            &&& (forall|q: int| !match_starts_at(d.text, s.find_text, cs, ww, q)) <==> cmds.len() == 0
            &&& cmds.len() != 0 ==> {
                &&& cmds == seq![CommandView::SetText(replaced_from(d.text, s.find_text, cs, ww, s.replace_text, 0))]
                &&& t.undo_snapshot == Some(d.text) && t.is_dirty
                &&& exists|p: int, l: int| {
                    &&& 1 <= l
                    &&& is_match(d.text, s.find_text, cs, ww, p, l)
                    &&& (forall|q: int| 0 <= q < p ==> !match_starts_at(d.text, s.find_text, cs, ww, q))
                    &&& cmds == seq![CommandView::SetText(d.text.take(p) + s.replace_text + replaced_from(d.text, s.find_text, cs, ww, s.replace_text, p + l))]
                }
            }
        }),
{
    let cs = s.find_case_sensitive;
    let ww = s.find_whole_word;
    law_replaced_from_first_match(d.text, s.find_text, cs, ww, s.replace_text, 0);
    law_forward_search_finds_first_match(d.text, s.find_text, cs, ww, 0);
    lemma_search_found(d.text, s.find_text, cs, ww, 0, true, false);
    assert forall|q: int| q < 0 implies !match_starts_at(d.text, s.find_text, cs, ww, q) by {
        if match_starts_at(d.text, s.find_text, cs, ww, q) {
            let len = choose|len: int| is_match(d.text, s.find_text, cs, ww, q, len);
        }
    }
    if search(d.text, s.find_text, cs, ww, 0, true, false) is Some {
        let (p, l) = search(d.text, s.find_text, cs, ww, 0, true, false)->0;
        assert(match_starts_at(d.text, s.find_text, cs, ww, p));
    }
    assert(d.text.subrange(0, d.text.len() as int) =~= d.text);
    if exists|q: int| 0 <= q && match_starts_at(d.text, s.find_text, cs, ww, q) {
        let (p, l) = choose|p: int, l: int| {
            &&& 0 <= p
            &&& 1 <= l
            &&& is_match(d.text, s.find_text, cs, ww, p, l)
            &&& (forall|q: int| 0 <= q < p ==> !match_starts_at(d.text, s.find_text, cs, ww, q))
            &&& replaced_from(d.text, s.find_text, cs, ww, s.replace_text, 0) == d.text.subrange(0, p) + s.replace_text
                + replaced_from(d.text, s.find_text, cs, ww, s.replace_text, p + l)
        };
        assert(d.text.subrange(0, p) =~= d.text.take(p));
    }
}

/// Replace All replaces every match, left to right, under the dialog's own
/// Match Case and Whole Word: when the text holds no match it changes
/// nothing and alerts; else the new text keeps what comes before the first
/// match, puts the replacement in its place, and goes on after it (see
/// `law_replaced_from_first_match`), and Undo gets the old text back. (A
/// non-empty folded search text is assumed when case is ignored; folding
/// never empties a non-empty text.)
pub proof fn law_replace_all_replaces_every_match(s: PadView, d: DocView)
    requires
        s.find_text.len() > 0,
        s.find_case_sensitive || fold(s.find_text).len() > 0,
    ensures
        ({
            let (t, cmds) = step(s, Message::DoReplaceAll, d);
            let cs = s.find_case_sensitive;
            let ww = s.find_whole_word;
            &&& (forall|q: int| !match_starts_at(d.text, s.find_text, cs, ww, q)) <==> cmds.len() == 0
            &&& cmds.len() != 0 ==> {
                &&& cmds == seq![CommandView::SetText(replaced_from(d.text, s.find_text, cs, ww, s.replace_text, 0))]
                &&& t.undo_snapshot == Some(d.text) && t.is_dirty
                &&& exists|p: int, l: int| {
                    &&& 1 <= l
                    &&& is_match(d.text, s.find_text, cs, ww, p, l)
                    &&& (forall|q: int| 0 <= q < p ==> !match_starts_at(d.text, s.find_text, cs, ww, q))
                    &&& cmds == seq![CommandView::SetText(d.text.take(p) + s.replace_text + replaced_from(d.text, s.find_text, cs, ww, s.replace_text, p + l))]
                }
            }
        }),
{
    assert(step(s, Message::DoReplaceAll, d) == replace_all_step(s, d));
    lemma_replace_all_step(s, d);
}

/// Save writes to the document's own file: after a save to a path, or
/// after opening a file from it, Save asks to write the text to that same
/// path; only Save As asks for a new path.
pub proof fn law_save_writes_to_the_documents_file(s: PadView, path: String, contents: String, now: LocalTime, d: DocView, d2: DocView)
    requires
        s.pending_action is None,
    ensures
        step(step(s, Message::FileSaved(Ok(path)), d).0, Message::SaveFile, d2).1
            == seq![CommandView::SaveFile { path: Some(path@), contents: d2.text }],
        step(step(s, Message::FileOpened { result: Ok((path, contents)), now }, d).0, Message::SaveFile, d2).1
            == seq![CommandView::SaveFile { path: Some(path@), contents: d2.text }],
        s.file_path is Some ==> step(s, Message::SaveFile, d).1 == seq![CommandView::SaveFile { path: s.file_path, contents: d.text }],
        step(s, Message::SaveFileAs, d).1 == seq![CommandView::SaveFile { path: None, contents: d.text }],
{
}

/// An edit of a document without unsaved changes (typing, Cut, Delete,
/// Paste, Time/Date, Replace or Replace All) records the text before it, so
/// that Undo sets the text back to what it was.
pub proof fn law_undo_reverts_the_first_edit(s: PadView, m: Message, d: DocView, d2: DocView)
    requires
        !s.is_dirty,
        (m matches Message::EditorAction { is_edit } && is_edit)
            || (m is Cut && d.selection is Some)
            || m is Delete
            || (m matches Message::ClipboardText(t) && t is Some)
            || m is InsertTimeDate
            || (m is DoReplace && step(s, m, d).1.len() == 2)
            || (m is DoReplaceAll && step(s, m, d).1.len() == 1),
    ensures
        step(s, m, d).0.is_dirty,
        step(step(s, m, d).0, Message::Undo, d2).1 == seq![CommandView::SetText(d.text)],
{
}

/// Opening a file whose text starts with the four characters `.LOG`,
/// whatever follows, puts the text in the editor, moves to its end and
/// pastes the Time/Date stamp on a line of its own, leaving unsaved changes
/// that Undo reverts; any other file is opened as it is, unchanged.
pub proof fn law_log_files_get_a_time_stamp(s: PadView, path: String, contents: String, now: LocalTime, d: DocView)
    ensures
        ({
            let r = step(s, Message::FileOpened { result: Ok((path, contents)), now }, d);
            &&& r.0.file_path == Some(path@)
            &&& if contents@.len() >= 4 && contents@.take(4) == ".LOG"@ {
                &&& r.1 == seq![
                    CommandView::SetText(contents@),
                    CommandView::MoveToDocumentEnd,
                    CommandView::Paste("\n"@ + stamp_text(now) + "\n"@),
                ]
                &&& r.0.is_dirty
                &&& r.0.undo_snapshot == Some(contents@)
            } else {
                &&& r.1 == seq![CommandView::SetText(contents@)]
                &&& !r.0.is_dirty
                &&& r.0.undo_snapshot is None
            }
        }),
{
}
} // verus!
