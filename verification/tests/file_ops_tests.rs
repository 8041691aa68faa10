use rustpad::file_ops::{
    file_name_or_default, io_error, print_commands, print_failed_error, print_failure_detail,
    print_start_failure, temp_file_name, FileError, next_print_step, print_file_result, PrintStep,
};

#[test]
fn file_error_messages() {
    assert_eq!(FileError::DialogClosed.message(), "Dialog was closed.");
    assert_eq!(
        FileError::UnsupportedEncoding("/a/b.bin".to_string()).message(),
        "RustPad can only open UTF-8 text files: /a/b.bin"
    );
    assert_eq!(
        FileError::Io { action: "read", path: Some("/a".to_string()), message: "no".to_string() }.message(),
        "Failed to read /a: no"
    );
    assert_eq!(
        FileError::Io { action: "replace file", path: None, message: "no".to_string() }.message(),
        "Failed to replace file: no"
    );
    assert_eq!(FileError::PrintFailed("x".to_string()).message(), "Printing failed: x");
}

#[test]
fn io_error_keeps_action_and_path() {
    let e = io_error(
        "write temporary file",
        Some("/t/.a.tmp".to_string()),
        std::io::Error::new(std::io::ErrorKind::Other, "boom"),
    );
    assert_eq!(e.message(), "Failed to write temporary file /t/.a.tmp: boom");
}

#[test]
fn file_names_of_paths() {
    assert_eq!(file_name_or_default("/home/u/notes.txt", false), "notes.txt");
    assert_eq!(file_name_or_default("notes.txt", false), "notes.txt");
    assert_eq!(file_name_or_default("/home/u/", false), "u");
    assert_eq!(file_name_or_default("/home/u/.", false), "u");
    assert_eq!(file_name_or_default("/home/..", false), "Untitled.txt");
    assert_eq!(file_name_or_default("/", false), "Untitled.txt");
    assert_eq!(file_name_or_default("", false), "Untitled.txt");
}

#[test]
fn windows_file_names() {
    assert_eq!(file_name_or_default("C:\\Users\\u\\notes.txt", true), "notes.txt");
    assert_eq!(file_name_or_default("C:/Users/u/notes.txt", true), "notes.txt");
    assert_eq!(file_name_or_default("C:notes.txt", true), "notes.txt");
    assert_eq!(file_name_or_default("C:", true), "Untitled.txt");
    assert_eq!(file_name_or_default("C:\\", true), "Untitled.txt");
    assert_eq!(file_name_or_default("\\\\server\\share\\a.txt", true), "a.txt");
    assert_eq!(file_name_or_default("\\\\server\\share", true), "Untitled.txt");
    assert_eq!(file_name_or_default("\\\\?\\C:\\dir\\b.txt", true), "b.txt");
    assert_eq!(file_name_or_default("dir\\..", true), "Untitled.txt");
    assert_eq!(file_name_or_default("a\\b.txt", false), "a\\b.txt");
}

#[test]
fn file_names_agree_with_std_paths() {
    for p in ["/a/b", "a", "a/", "a/.", "./a", "..", "../a", "a//b//", "/", "", ".", "a/..", "x.y/z.w"] {
        let expected = std::path::Path::new(p)
            .file_name()
            .and_then(|n| n.to_str())
            .unwrap_or("Untitled.txt");
        assert_eq!(file_name_or_default(p, false), expected, "path {p:?}");
    }
}

#[test]
fn print_commands_per_platform() {
    let unix = print_commands("/tmp/f.txt", false);
    let programs: Vec<&str> = unix.iter().map(|(p, _)| *p).collect();
    assert_eq!(programs, vec!["/usr/bin/lp", "lp", "/usr/bin/lpr", "lpr"]);
    assert!(unix.iter().all(|(_, a)| a == &vec!["/tmp/f.txt".to_string()]));
    let win = print_commands("C:\\f.txt", true);
    assert_eq!(win.len(), 1);
    assert_eq!(win[0].0, "notepad.exe");
    assert_eq!(win[0].1, vec!["/p".to_string(), "C:\\f.txt".to_string()]);
}

#[test]
fn print_failures_are_reported() {
    assert_eq!(print_failure_detail("lp", "  no printer \n", "out", "1"), "lp: no printer");
    assert_eq!(print_failure_detail("lp", " ", " out ", "1"), "lp: out");
    assert_eq!(print_failure_detail("lp", "", "", "exit status: 1"), "lp: exited with status exit status: 1");
    assert_eq!(print_start_failure("lpr", "not found"), "lpr: not found");
    let e = print_failed_error(&vec!["a: x".to_string(), "b: y".to_string()]);
    assert_eq!(e.message(), "Printing failed: no supported print command succeeded (a: x; b: y)");
}

#[test]
fn temp_file_names() {
    assert_eq!(temp_file_name("a.txt.tmp", 42, 1700, Some(3)), ".a.txt.tmp.42.1700.3");
    assert_eq!(temp_file_name("p.txt", 7, 0, None), ".p.txt.7.0.fallback");
}

#[test]
fn print_steps_stop_at_the_first_success() {
    let none: Vec<Result<(), String>> = vec![];
    assert!(matches!(next_print_step(4, &none), PrintStep::Run(0)));
    let one: Vec<Result<(), String>> = vec![Err("/usr/bin/lp: x".to_string())];
    assert!(matches!(next_print_step(4, &one), PrintStep::Run(1)));
    let ok: Vec<Result<(), String>> = vec![Err("a: x".to_string()), Ok(())];
    assert!(matches!(next_print_step(4, &ok), PrintStep::Done(Ok(()))));
    let all: Vec<Result<(), String>> = vec![Err("a: x".to_string()), Err("b: y".to_string())];
    match next_print_step(2, &all) {
        PrintStep::Done(Err(e)) => assert_eq!(
            e.message(),
            "Printing failed: no supported print command succeeded (a: x; b: y)"
        ),
        _ => panic!("expected a print failure"),
    }
}

#[test]
fn print_error_comes_before_cleanup_error() {
    let cleanup = Err(FileError::Io { action: "remove temporary print file", path: None, message: "busy".to_string() });
    let r = print_file_result(Err(FileError::PrintFailed("p".to_string())), cleanup.clone());
    assert!(matches!(r, Err(FileError::PrintFailed(m)) if m == "p"));
    let r = print_file_result(Ok(()), cleanup);
    assert!(matches!(r, Err(FileError::Io { message, .. }) if message == "busy"));
    assert!(print_file_result(Ok(()), Ok(())).is_ok());
}
