use rustpad::text::{chars_of, cursor_char_offset, line_col_for_char_index, line_count};

#[test]
fn line_count_counts_breaks() {
    assert_eq!(line_count(""), 1);
    assert_eq!(line_count("a"), 1);
    assert_eq!(line_count("a\nb"), 2);
    assert_eq!(line_count("a\n"), 2);
    assert_eq!(line_count("\n\n"), 3);
}

#[test]
fn line_col_of_index() {
    assert_eq!(line_col_for_char_index("ab\ncd", 0), (0, 0));
    assert_eq!(line_col_for_char_index("ab\ncd", 2), (0, 2));
    assert_eq!(line_col_for_char_index("ab\ncd", 3), (1, 0));
    assert_eq!(line_col_for_char_index("ab\ncd", 4), (1, 1));
    assert_eq!(line_col_for_char_index("ab\ncd", 99), (1, 2));
}

#[test]
fn cursor_offset_of_line_and_column() {
    let t = chars_of("ab\ncde\n");
    assert_eq!(cursor_char_offset(&t, 0, 1), 1);
    assert_eq!(cursor_char_offset(&t, 0, 9), 2);
    assert_eq!(cursor_char_offset(&t, 1, 2), 5);
    assert_eq!(cursor_char_offset(&t, 2, 0), 7);
    assert_eq!(cursor_char_offset(&t, 5, 0), 7);
}

#[test]
fn position_and_offset_round_trip() {
    let text = "héllo\nwörld\n\nend";
    let t = chars_of(text);
    for i in 0..=t.len() {
        let (l, c) = line_col_for_char_index(text, i);
        assert_eq!(cursor_char_offset(&t, l, c), i);
    }
}

#[test]
fn chars_of_keeps_characters() {
    assert_eq!(chars_of("aé😀"), vec!['a', 'é', '😀']);
}
