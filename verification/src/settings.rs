//! The settings file: its `key=value` format, how it is read and written,
//! and the errors shown when that fails. Finding, reading and writing the
//! file is done by the caller.

use vstd::prelude::*;

use crate::strings::{ascii_lowercase, ascii_lowercase_chars, first_index_of, is_literal, lemma_first_index_of, lemma_trimmed_keeps_prefix, lemma_trimmed_unchanged, split_once, split_once_chars, trim_chars, trimmed};
use crate::text::{chars_of, first_line_len, lemma_first_line_len_is, line_end};
use crate::unicode::string_from_chars;

verus! {

broadcast use vstd::string::group_string_axioms;

/// The settings that RustPad keeps between runs.
#[derive(Clone, Copy, PartialEq, Eq, Structural)]
pub struct Settings {
    pub dark_mode: bool,
}

impl Default for Settings {
    fn default() -> (r: Settings)
        ensures
            r.dark_mode == false,
    {
        Settings { dark_mode: false }
    }
}

/// Why the settings could not be loaded or saved.
#[allow(inconsistent_fields)]
pub enum SettingsError {
    ConfigDirectoryUnavailable,
    Io { action: &'static str, path: Option<String>, message: String },
    Parse { path: String, message: String },
}

/// The message shown for a [`SettingsError`].
pub open spec fn settings_error_message(e: SettingsError) -> Seq<char> {
    match e {
        SettingsError::ConfigDirectoryUnavailable => "Failed to locate a config directory for RustPad."@,
        SettingsError::Io { action, path, message } => match path {
            Some(p) => "Failed to "@ + action@ + " settings file "@ + p@ + ": "@ + message@,
            None => "Failed to "@ + action@ + " settings file: "@ + message@,
        },
        SettingsError::Parse { path, message } => "Failed to read settings file "@ + path@ + ": "@ + message@,
    }
}

impl SettingsError {
    /// The message shown to the user for this error.
    pub fn message(&self) -> (r: String)
        ensures
            r@ == settings_error_message(*self),
    {
        match self {
            SettingsError::ConfigDirectoryUnavailable => String::from_str(
                "Failed to locate a config directory for RustPad.",
            ),
            SettingsError::Io { action, path, message } => {
                let mut s = String::from_str("Failed to ");
                s.append(action);
                match path {
                    Some(p) => {
                        s.append(" settings file ");
                        s.append(p.as_str());
                        s.append(": ");
                    },
                    None => {
                        s.append(" settings file: ");
                    },
                }
                s.append(message.as_str());
                s
            },
            SettingsError::Parse { path, message } => {
                let mut s = String::from_str("Failed to read settings file ");
                s.append(path.as_str());
                s.append(": ");
                s.append(message.as_str());
                s
            },
        }
    }
}

/// The error for a failed I/O `action` on the settings file at `path`,
/// with the error's own description as its message.
pub fn io_error(action: &'static str, path: Option<String>, error: std::io::Error) -> (r: SettingsError)
    ensures
        r matches SettingsError::Io { action: a, path: p, message: _ } && a == action && p == path,
{
    SettingsError::Io { action, path, message: crate::file_ops::io_error_text(&error) }
}

/// The boolean that a settings value spells, in any ASCII case: `true`,
/// `1`, `yes`, `on`, or `false`, `0`, `no`, `off`.
pub open spec fn bool_value(value: Seq<char>) -> Option<bool> {
    let l = ascii_lowercase(value);
    if l == "true"@ || l == "1"@ || l == "yes"@ || l == "on"@ {
        Some(true)
    } else if l == "false"@ || l == "0"@ || l == "no"@ || l == "off"@ {
        Some(false)
    } else {
        None
    }
}

/// The message for a value that spells no boolean.
pub open spec fn bool_error(value: Seq<char>) -> Seq<char> {
    "invalid boolean value `"@ + value + "` for dark_mode"@
}

/// Reads a boolean settings value; see [`bool_value`].
pub fn parse_bool(value: &str) -> (r: Result<bool, String>)
    ensures
        match (r, bool_value(value@)) {
            (Ok(b), Some(c)) => b == c,
            (Err(m), None) => m@ == bool_error(value@),
            _ => false,
        },
{
    let lower = ascii_lowercase_chars(chars_of(value).as_slice());
    let l = lower.as_slice();
    if is_literal(l, "true") || is_literal(l, "1") || is_literal(l, "yes") || is_literal(l, "on") {
        Ok(true)
    } else if is_literal(l, "false") || is_literal(l, "0") || is_literal(l, "no") || is_literal(l, "off") {
        Ok(false)
    } else {
        let mut m = String::from_str("invalid boolean value `");
        m.append(value);
        m.append("` for dark_mode");
        Err(m)
    }
}

/// What one trimmed line of the settings file does to the dark mode
/// setting: blank lines and `#` comments leave it; a `dark_mode` key sets
/// it from its value; other keys are ignored; a line without `=` is an
/// error.
pub open spec fn apply_line(line: Seq<char>, dark: bool) -> Result<bool, Seq<char>> {
    if line.len() == 0 || line[0] == '#' {
        Ok(dark)
    } else {
        match split_once(line, '=') {
            None => Err("invalid line `"@ + line + "`"@),
            Some((key, value)) => if trimmed(key) == "dark_mode"@ {
                match bool_value(trimmed(value)) {
                    Some(b) => Ok(b),
                    None => Err(bool_error(trimmed(value))),
                }
            } else {
                Ok(dark)
            },
        }
    }
}

/// The dark mode setting that the lines of `text` give, starting from
/// `dark`, or the message of the first line that cannot be read. Lines are
/// split at `'\n'` and trimmed (which also removes a `'\r'` before the
/// line break).
pub open spec fn parse_settings_text(text: Seq<char>, dark: bool) -> Result<bool, Seq<char>>
    decreases text.len(),
{
    let k = first_line_len(text);
    match apply_line(trimmed(text.take(k as int)), dark) {
        Err(m) => Err(m),
        Ok(d) => if k >= text.len() {
            Ok(d)
        } else {
            parse_settings_text(text.skip(k + 1int), d)
        },
    }
}

fn apply_line_exec(line: &[char], dark: bool) -> (r: Result<bool, String>)
    ensures
        match (r, apply_line(line@, dark)) {
            (Ok(a), Ok(b)) => a == b,
            (Err(a), Err(b)) => a@ == b,
            _ => false,
        },
{
    if line.len() == 0 || line[0] == '#' {
        return Ok(dark);
    }
    match split_once_chars(line, '=') {
        None => {
            let mut m = String::from_str("invalid line `");
            let l = string_from_chars(line);
            m.append(l.as_str());
            m.append("`");
            Err(m)
        },
        Some((key, value)) => {
            let k = trim_chars(key.as_slice());
            if is_literal(k.as_slice(), "dark_mode") {
                let v = trim_chars(value.as_slice());
                let vs = string_from_chars(v.as_slice());
                parse_bool(vs.as_str())
            } else {
                Ok(dark)
            }
        },
    }
}

/// Reads the settings file's `contents`; `path` is the file's path as the
/// user is shown it, for the error.
pub fn parse_settings(contents: &str, path: &str) -> (r: Result<Settings, SettingsError>)
    ensures
        match (r, parse_settings_text(contents@, false)) {
            (Ok(s), Ok(d)) => s.dark_mode == d,
            (Err(SettingsError::Parse { path: p, message: m }), Err(msg)) => p@ == path@ && m@ == msg,
            _ => false,
        },
{
    let chars = chars_of(contents);
    let text = chars.as_slice();
    let mut settings = Settings { dark_mode: false };
    let mut p: usize = 0;
    assert(text@.skip(0) =~= text@);
    loop
        invariant
            p <= text@.len(),
            text@ == contents@,
            parse_settings_text(contents@, false) == parse_settings_text(text@.skip(p as int), settings.dark_mode),
        decreases text@.len() - p,
    {
        let e = line_end(text, p);
        let ghost t = text@.skip(p as int);
        let mut line: Vec<char> = Vec::new();
        let mut i = p;
        while i < e
            invariant
                p <= i <= e <= text@.len(),
                line@ == text@.subrange(p as int, i as int),
            decreases e - i,
        {
            line.push(text[i]);
            i = i + 1;
            assert(text@.subrange(p as int, i as int) =~= text@.subrange(p as int, i - 1).push(text@[i - 1]));
        }
        assert(line@ =~= t.take(e - p));
        let trimmed_line = trim_chars(line.as_slice());
        match apply_line_exec(trimmed_line.as_slice(), settings.dark_mode) {
            Err(message) => {
                return Err(SettingsError::Parse { path: String::from_str(path), message });
            },
            Ok(d) => {
                settings.dark_mode = d;
            },
        }
        if e >= text.len() {
            return Ok(settings);
        }
        proof {
            assert(t.skip(e - p + 1) =~= text@.skip(e + 1));
        }
        p = e + 1;
    }
}

/// The text written to the settings file.
pub open spec fn settings_text(version: Seq<char>, settings: Settings) -> Seq<char> {
    "version="@ + version + "\ndark_mode="@ + (if settings.dark_mode { "true"@ } else { "false"@ }) + "\n"@
}

/// The contents of the settings file for `settings`, written by program
/// version `version`.
pub fn settings_file_contents(version: &str, settings: &Settings) -> (r: String)
    ensures
        r@ == settings_text(version@, *settings),
{
    let mut s = String::from_str("version=");
    s.append(version);
    s.append("\ndark_mode=");
    if settings.dark_mode {
        s.append("true");
    } else {
        s.append("false");
    }
    s.append("\n");
    s
}


proof fn lemma_version_line(version: Seq<char>, tail: Seq<char>)
    requires
        forall|i: int| 0 <= i < version.len() ==> version[i] != '\n',
    ensures
        ({
            let text = "version="@ + version + tail;
            let k = first_line_len(text);
            tail.len() > 0 && tail[0] == '\n' ==> k == 8 + version.len() && apply_line(trimmed(text.take(k as int)), false)
                == Ok::<bool, Seq<char>>(false)
        }),
{
    reveal_strlit("version=");
    reveal_strlit("dark_mode");
    let text = "version="@ + version + tail;
    if tail.len() > 0 && tail[0] == '\n' {
        let head = seq!['v', 'e', 'r', 's', 'i', 'o', 'n', '='];
        let line1 = head + version;
        assert(text =~= line1 + tail);
        let k1 = line1.len() as int;
        assert forall|m: int| 0 <= m < k1 implies text[m] != '\n' by {
            if m >= 8 {
                assert(text[m] == version[m - 8]);
            }
        }
        assert(text[k1] == '\n');
        lemma_first_line_len_is(text, k1);
        assert(text.take(k1) =~= line1);
        lemma_trimmed_keeps_prefix(line1, 7);
        let t1 = trimmed(line1);
        assert forall|m: int| 0 <= m < 7 implies t1[m] != '=' by {
            assert(t1.take(8)[m] == line1.take(8)[m]);
        }
        assert(t1[7] == '=') by {
            assert(t1.take(8)[7] == line1.take(8)[7]);
        }
        lemma_first_index_of(t1, '=', 7);
        let key1 = t1.take(7);
        assert(key1 =~= seq!['v', 'e', 'r', 's', 'i', 'o', 'n']) by {
            assert forall|m: int| 0 <= m < 7 implies key1[m] == head[m] by {
                assert(t1.take(8)[m] == line1.take(8)[m]);
            }
        }
        lemma_trimmed_unchanged(key1);
        assert(trimmed(key1) != "dark_mode"@) by {
            assert(trimmed(key1).len() != "dark_mode"@.len());
        }
        assert(t1[0] != '#') by {
            assert(t1.take(8)[0] == line1.take(8)[0]);
        }
    }
}

proof fn lemma_dark_mode_line(dark_mode: bool)
    ensures
        ({
            let text = "dark_mode="@ + (if dark_mode { "true"@ } else { "false"@ }) + "\n"@;
            let k = first_line_len(text);
            &&& k + 1 == text.len()
            &&& apply_line(trimmed(text.take(k as int)), false) == Ok::<bool, Seq<char>>(dark_mode)
        }),
{
    reveal_strlit("dark_mode=");
    reveal_strlit("dark_mode");
    reveal_strlit("true");
    reveal_strlit("false");
    reveal_strlit("\n");
    let value = if dark_mode { seq!['t', 'r', 'u', 'e'] } else { seq!['f', 'a', 'l', 's', 'e'] };
    let key2 = seq!['d', 'a', 'r', 'k', '_', 'm', 'o', 'd', 'e'];
    let line2 = key2 + seq!['='] + value;
    let text = "dark_mode="@ + (if dark_mode { "true"@ } else { "false"@ }) + "\n"@;
    assert(text =~= line2 + seq!['\n']);
    let k2 = line2.len() as int;
    assert forall|m: int| 0 <= m < k2 implies text[m] != '\n' by {}
    lemma_first_line_len_is(text, k2);
    assert(text.take(k2) =~= line2);
    lemma_trimmed_unchanged(line2);
    lemma_first_index_of(line2, '=', 9);
    assert(line2.take(9) =~= key2);
    assert(line2.skip(10) =~= value);
    lemma_trimmed_unchanged(key2);
    lemma_trimmed_unchanged(value);
    assert(key2 =~= "dark_mode"@);
    assert(ascii_lowercase(value) =~= value);
    if dark_mode {
        assert(value =~= "true"@);
    } else {
        assert(value =~= "false"@);
        assert(value != "true"@ && value != "1"@ && value != "yes"@ && value != "on"@) by {
            reveal_strlit("1");
            reveal_strlit("yes");
            reveal_strlit("on");
            assert(value[0] != "true"@[0]);
        }
    }
}

/// Reading back the settings file that was written gives the settings that
/// were written, whatever the program version, as long as the version is
/// written on a single line.
pub proof fn law_settings_round_trip(version: Seq<char>, settings: Settings)
    requires
        forall|i: int| 0 <= i < version.len() ==> version[i] != '\n',
    ensures
        parse_settings_text(settings_text(version, settings), false) == Ok::<bool, Seq<char>>(settings.dark_mode),
{
    reveal_strlit("\ndark_mode=");
    reveal_strlit("dark_mode=");
    reveal_strlit("\n");
    let second = "dark_mode="@ + (if settings.dark_mode { "true"@ } else { "false"@ }) + "\n"@;
    let text = settings_text(version, settings);
    assert(text =~= "version="@ + version + ("\n"@ + second));
    reveal_strlit("version=");
    assert(("\n"@ + second)[0] == '\n');
    lemma_version_line(version, "\n"@ + second);
    let k1 = first_line_len(text);
    assert(text.skip(k1 + 1int) =~= second);
    lemma_dark_mode_line(settings.dark_mode);
    let k2 = first_line_len(second);
    let last = second.skip(k2 + 1int);
    assert(last =~= Seq::<char>::empty());
    assert(trimmed(last.take(0)) =~= Seq::<char>::empty());
    assert(parse_settings_text(last, settings.dark_mode) == Ok::<bool, Seq<char>>(settings.dark_mode));
    assert(parse_settings_text(second, false) == Ok::<bool, Seq<char>>(settings.dark_mode));
}
} // verus!
