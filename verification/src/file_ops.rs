//! What the file operations decide and say: their errors and the messages
//! shown for them, the print commands to try, and the names of temporary
//! files. Reading, writing and running commands are done by the caller.

use vstd::prelude::*;

use crate::strings::{decimal, decimal_string, file_name, file_name_of, joined, join_strings, trim_chars, trimmed};
use crate::text::chars_of;
use crate::unicode::string_from_chars;

verus! {

broadcast use vstd::string::group_string_axioms;

#[verifier::external_type_specification]
#[verifier::external_body]
pub struct ExIoError(std::io::Error);

/// Calls `to_string` (`Display`) on an I/O error. The text comes from the
/// operating system's description of the error, so nothing is claimed of
/// it.
#[verifier::external_body]
pub(crate) fn io_error_text(error: &std::io::Error) -> String {
    error.to_string()
}

/// Why a file operation failed. Paths are kept as the text that the user
/// is shown.
#[derive(Clone, Debug)]
pub enum FileError {
    DialogClosed,
    UnsupportedEncoding(String),
    Io { action: &'static str, path: Option<String>, message: String },
    PrintFailed(String),
}

/// The message shown for a [`FileError`].
pub open spec fn file_error_message(e: FileError) -> Seq<char> {
    match e {
        FileError::DialogClosed => "Dialog was closed."@,
        FileError::UnsupportedEncoding(path) => "RustPad can only open UTF-8 text files: "@ + path@,
        FileError::Io { action, path, message } => match path {
            Some(p) => "Failed to "@ + action@ + " "@ + p@ + ": "@ + message@,
            None => "Failed to "@ + action@ + ": "@ + message@,
        },
        FileError::PrintFailed(message) => "Printing failed: "@ + message@,
    }
}

impl FileError {
    /// The message shown to the user for this error.
    pub fn message(&self) -> (r: String)
        ensures
            r@ == file_error_message(*self),
    {
        match self {
            FileError::DialogClosed => String::from_str("Dialog was closed."),
            FileError::UnsupportedEncoding(path) => {
                let mut s = String::from_str("RustPad can only open UTF-8 text files: ");
                s.append(path.as_str());
                s
            },
            FileError::Io { action, path, message } => {
                let mut s = String::from_str("Failed to ");
                s.append(action);
                match path {
                    Some(p) => {
                        s.append(" ");
                        s.append(p.as_str());
                    },
                    None => {},
                }
                s.append(": ");
                s.append(message.as_str());
                s
            },
            FileError::PrintFailed(message) => {
                let mut s = String::from_str("Printing failed: ");
                s.append(message.as_str());
                s
            },
        }
    }
}

/// The error for a failed I/O `action` on `path`, with the error's own
/// description as its message.
pub fn io_error(action: &'static str, path: Option<String>, error: std::io::Error) -> (r: FileError)
    ensures
        r matches FileError::Io { action: a, path: p, message: _ } && a == action && p == path,
{
    FileError::Io { action, path, message: io_error_text(&error) }
}

/// The file name shown for `path`: its last component, or `Untitled.txt`;
/// Windows path rules apply when `windows`.
pub fn file_name_or_default(path: &str, windows: bool) -> (r: String)
    ensures
        r@ == match file_name_of(path@, windows) {
            Some(name) => name,
            None => "Untitled.txt"@,
        },
{
    match file_name(path, windows) {
        Some(name) => name,
        None => String::from_str("Untitled.txt"),
    }
}

/// The print commands to try, in order, for the file `file`: `notepad.exe
/// /p` on Windows; else `lp` and `lpr`, each first by its usual path.
pub fn print_commands(file: &str, windows: bool) -> (r: Vec<(&'static str, Vec<String>)>)
    ensures
        windows ==> r@.len() == 1 && r@[0].0@ == "notepad.exe"@ && r@[0].1@.len() == 2
            && r@[0].1@[0]@ == "/p"@ && r@[0].1@[1]@ == file@,
        !windows ==> r@.len() == 4 && r@[0].0@ == "/usr/bin/lp"@ && r@[1].0@ == "lp"@
            && r@[2].0@ == "/usr/bin/lpr"@ && r@[3].0@ == "lpr"@ && forall|i: int|
            0 <= i < 4 ==> #[trigger] r@[i].1@.len() == 1 && r@[i].1@[0]@ == file@,
{
    let mut out: Vec<(&'static str, Vec<String>)> = Vec::new();
    if windows {
        let mut args: Vec<String> = Vec::new();
        args.push(String::from_str("/p"));
        args.push(String::from_str(file));
        out.push(("notepad.exe", args));
    } else {
        let mut a1: Vec<String> = Vec::new();
        a1.push(String::from_str(file));
        out.push(("/usr/bin/lp", a1));
        let mut a2: Vec<String> = Vec::new();
        a2.push(String::from_str(file));
        out.push(("lp", a2));
        let mut a3: Vec<String> = Vec::new();
        a3.push(String::from_str(file));
        out.push(("/usr/bin/lpr", a3));
        let mut a4: Vec<String> = Vec::new();
        a4.push(String::from_str(file));
        out.push(("lpr", a4));
    }
    out
}

/// What a failed print command reports: its standard error, else its
/// standard output (both trimmed), else its exit status.
pub open spec fn print_failure_detail_text(stderr: Seq<char>, stdout: Seq<char>, status: Seq<char>) -> Seq<char> {
    if trimmed(stderr).len() > 0 {
        trimmed(stderr)
    } else if trimmed(stdout).len() > 0 {
        trimmed(stdout)
    } else {
        "exited with status "@ + status
    }
}

/// The line recorded for a print command that ran and failed: the program,
/// then what it reported.
pub fn print_failure_detail(program: &str, stderr: &str, stdout: &str, status: &str) -> (r: String)
    ensures
        r@ == program@ + ": "@ + print_failure_detail_text(stderr@, stdout@, status@),
{
    let err = trim_chars(chars_of(stderr).as_slice());
    let out = trim_chars(chars_of(stdout).as_slice());
    let mut s = String::from_str(program);
    s.append(": ");
    if err.len() > 0 {
        let t = string_from_chars(err.as_slice());
        s.append(t.as_str());
    } else if out.len() > 0 {
        let t = string_from_chars(out.as_slice());
        s.append(t.as_str());
    } else {
        s.append("exited with status ");
        s.append(status);
    }
    s
}

/// The line recorded for a print command that could not be started.
pub fn print_start_failure(program: &str, error: &str) -> (r: String)
    ensures
        r@ == program@ + ": "@ + error@,
{
    let mut s = String::from_str(program);
    s.append(": ");
    s.append(error);
    s
}

/// The error when no print command succeeded, listing each failure.
pub fn print_failed_error(failures: &Vec<String>) -> (r: FileError)
    ensures
        r matches FileError::PrintFailed(m) && m@ == "no supported print command succeeded ("@
            + joined(failures@.map_values(|f: String| f@), "; "@) + ")"@,
{
    let mut s = String::from_str("no supported print command succeeded (");
    let list = join_strings(failures, "; ");
    s.append(list.as_str());
    s.append(")");
    FileError::PrintFailed(s)
}

/// What printing does next: run the command at this index of the list, or
/// stop with this result.
pub enum PrintStep {
    Run(usize),
    Done(Result<(), FileError>),
}

/// Some command that ran succeeded.
pub open spec fn some_print_succeeded(outcomes: Seq<Result<(), String>>) -> bool {
    exists|i: int| 0 <= i < outcomes.len() && #[trigger] outcomes[i] is Ok
}

/// The failure lines among the outcomes.
pub open spec fn failure_lines(outcomes: Seq<Result<(), String>>) -> Seq<Seq<char>> {
    outcomes.map_values(|o: Result<(), String>| match o {
        Ok(_) => Seq::<char>::empty(),
        Err(line) => line@,
    })
}

/// The text of the error when no print command succeeded.
pub open spec fn print_failed_text(lines: Seq<Seq<char>>) -> Seq<char> {
    "no supported print command succeeded ("@ + joined(lines, "; "@) + ")"@
}

/// The next step of printing, given how many commands there are and the
/// outcome of each one run so far, in order (`Ok` for one that succeeded,
/// else its failure line): printing stops as soon as one succeeds; else the
/// next command runs; once all have failed, the error lists every failure.
pub fn next_print_step(command_count: usize, outcomes: &[Result<(), String>]) -> (r: PrintStep)
    ensures
        some_print_succeeded(outcomes@) ==> r == PrintStep::Done(Ok(())),
        !some_print_succeeded(outcomes@) && outcomes@.len() < command_count ==> (r matches PrintStep::Run(
            n) && n == outcomes@.len()),
        !some_print_succeeded(outcomes@) && outcomes@.len() >= command_count ==> (r matches PrintStep::Done(
            Err(FileError::PrintFailed(m)),
        ) && m@ == print_failed_text(failure_lines(outcomes@))),
{
    let mut failures: Vec<String> = Vec::new();
    let mut i: usize = 0;
    while i < outcomes.len()
        invariant
            i <= outcomes@.len(),
            forall|k: int| 0 <= k < i ==> outcomes@[k] is Err,
            failures@.map_values(|f: String| f@) == failure_lines(outcomes@.take(i as int)),
        decreases outcomes@.len() - i,
    {
        match &outcomes[i] {
            Ok(()) => {
                return PrintStep::Done(Ok(()));
            },
            Err(line) => {
                let c = line.clone();
                proof {
                    let before = failures@.map_values(|f: String| f@);
                    assert(before.len() == i);
                }
                failures.push(c);
            },
        }
        i = i + 1;
        proof {
            let lhs = failures@.map_values(|f: String| f@);
            let rhs = failure_lines(outcomes@.take(i as int));
            assert(lhs.len() == rhs.len());
            assert forall|k: int| 0 <= k < lhs.len() implies lhs[k] == rhs[k] by {
                if k < i - 1 {
                    assert(outcomes@.take(i - 1)[k] == outcomes@.take(i as int)[k]);
                    assert(failure_lines(outcomes@.take(i - 1))[k] == rhs[k]);
                }
            }
            assert(lhs =~= rhs);
        }
    }
    assert(outcomes@.take(i as int) =~= outcomes@);
    if outcomes.len() < command_count {
        return PrintStep::Run(outcomes.len());
    }
    PrintStep::Done(Err(print_failed_error(&failures)))
}

/// The result of printing a file: the print error when printing failed,
/// else the error of removing the temporary file, if any.
pub fn print_file_result(printed: Result<(), FileError>, cleanup: Result<(), FileError>) -> (r: Result<(), FileError>)
    ensures
        r == match printed {
            Err(e) => Err(e),
            Ok(_) => cleanup,
        },
{
    match printed {
        Err(e) => Err(e),
        Ok(()) => cleanup,
    }
}

/// The name of a candidate temporary file in a directory:
/// `.{base_name}.{pid}.{timestamp}.{attempt}`, or `fallback` in place of
/// the attempt.
pub fn temp_file_name(base_name: &str, pid: u32, timestamp: u128, attempt: Option<u32>) -> (r: String)
    ensures
        r@ == "."@ + base_name@ + "."@ + decimal(pid as nat) + "."@ + decimal(timestamp as nat) + "."@
            + match attempt {
            Some(a) => decimal(a as nat),
            None => "fallback"@,
        },
{
    let mut s = String::from_str(".");
    s.append(base_name);
    s.append(".");
    let p = decimal_string(pid as u128);
    s.append(p.as_str());
    s.append(".");
    let t = decimal_string(timestamp);
    s.append(t.as_str());
    s.append(".");
    match attempt {
        Some(a) => {
            let d = decimal_string(a as u128);
            s.append(d.as_str());
        },
        None => {
            s.append("fallback");
        },
    }
    s
}

} // verus!
