use rustpad::settings::{io_error, parse_bool, parse_settings, settings_file_contents, Settings, SettingsError};

#[test]
fn parse_bool_accepts_words_in_any_case() {
    assert_eq!(parse_bool("TRUE"), Ok(true));
    assert_eq!(parse_bool("yes"), Ok(true));
    assert_eq!(parse_bool("On"), Ok(true));
    assert_eq!(parse_bool("1"), Ok(true));
    assert_eq!(parse_bool("off"), Ok(false));
    assert_eq!(parse_bool("No"), Ok(false));
    assert_eq!(parse_bool("0"), Ok(false));
    assert_eq!(parse_bool("False"), Ok(false));
    assert_eq!(
        parse_bool("maybe"),
        Err("invalid boolean value `maybe` for dark_mode".to_string())
    );
}

#[test]
fn settings_file_round_trips() {
    for dark in [false, true] {
        let s = Settings { dark_mode: dark };
        let text = settings_file_contents("0.1.0", &s);
        let parsed = parse_settings(&text, "/c/settings.conf");
        assert!(matches!(parsed, Ok(Settings { dark_mode }) if dark_mode == dark));
    }
}

#[test]
fn settings_file_contents_format() {
    assert_eq!(
        settings_file_contents("1.2.3", &Settings { dark_mode: true }),
        "version=1.2.3\ndark_mode=true\n"
    );
}

#[test]
fn settings_parse_skips_comments_and_unknown_keys() {
    let text = "# comment\r\n\n  other = 5 \r\n dark_mode = YES \r\n";
    assert!(matches!(parse_settings(text, "p"), Ok(Settings { dark_mode: true })));
    assert!(matches!(parse_settings("", "p"), Ok(Settings { dark_mode: false })));
}

#[test]
fn settings_parse_errors_name_the_line() {
    match parse_settings("dark_mode=true\n  junk line \n", "/c/s.conf") {
        Err(e) => {
            assert!(matches!(&e, SettingsError::Parse { path, message } if path == "/c/s.conf" && message == "invalid line `junk line`"));
            assert_eq!(e.message(), "Failed to read settings file /c/s.conf: invalid line `junk line`");
        }
        Ok(_) => panic!("expected an error"),
    }
    match parse_settings("dark_mode = perhaps", "f") {
        Err(SettingsError::Parse { message, .. }) => {
            assert_eq!(message, "invalid boolean value `perhaps` for dark_mode")
        }
        _ => panic!("expected an error"),
    }
}

#[test]
fn settings_error_messages() {
    let e = SettingsError::Io { action: "read", path: None, message: "gone".to_string() };
    assert_eq!(e.message(), "Failed to read settings file: gone");
    let e = io_error(
        "create",
        Some("/c".to_string()),
        std::io::Error::new(std::io::ErrorKind::Other, "disk full"),
    );
    assert_eq!(e.message(), "Failed to create settings file /c: disk full");
}

#[test]
fn default_settings_are_light() {
    assert!(!Settings::default().dark_mode);
}
