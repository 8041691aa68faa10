# RustPad

A small Notepad-style text editor. The editor's logic is a library whose
behaviour is stated in contracts and proved with Verus; a thin program
around it draws the window with `iced`, reads and writes files, talks to the
clipboard and runs the print command.

## Layout

- `src/` — the verified library
  - `text.rs`: lines, line/column positions and character offsets
  - `search.rs`: case-sensitive and case-folded search, whole-word matching,
    Replace All
  - `strings.rs`: small string utilities (trimming, numerals, file names)
  - `unicode.rs`: the Unicode character properties taken from `std`
  - `timestamp.rs`: the Time/Date and `.LOG` stamps, written by `chrono`
  - `settings.rs`: the settings file format
  - `file_ops.rs`: file and print errors, print commands
  - `message.rs`: the events the editor reacts to
  - `menu.rs`: menus, their items and keyboard shortcuts
  - `font_dialog.rs`: the Font dialog's lists
  - `editor.rs`: the editor's state and its reaction to each event, as a
    state machine that answers each event with commands for the window
- `app/` — the program: window, dialogs and theme (`iced`), file and
  settings I/O, clipboard, printing
- `tests/` — tests of the library
