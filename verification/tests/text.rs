use sftp_tube::text::{is_whitespace, reads, to_chars, to_lower, trim};

#[test]
fn white_space_is_what_the_standard_library_calls_so() {
    for code in 0..=0x10FFFFu32 {
        if let Some(c) = char::from_u32(code) {
            assert_eq!(is_whitespace(c), c.is_whitespace(), "U+{:04X}", code);
        }
    }
}

#[test]
fn lowering_is_ascii_lowering() {
    for code in 0..=0x10FFFFu32 {
        if let Some(c) = char::from_u32(code) {
            assert_eq!(to_lower(c), c.to_ascii_lowercase(), "U+{:04X}", code);
        }
    }
}

#[test]
fn trim_removes_white_space_at_both_ends_only() {
    assert_eq!(trim("  hello world \n"), "hello world");
    assert_eq!(trim("hello"), "hello");
    assert_eq!(trim("\t\r\n x \u{a0}\u{3000}"), "x");
    assert_eq!(trim("a  b"), "a  b");
}

#[test]
fn trim_of_nothing_but_white_space_is_empty() {
    assert_eq!(trim(""), "");
    assert_eq!(trim(" "), "");
    assert_eq!(trim(" \t\r\n\u{2028}\u{2029}"), "");
}

#[test]
fn trim_keeps_characters_of_several_bytes() {
    assert_eq!(trim(" grüße, 世界 "), "grüße, 世界");
    assert_eq!(trim("\u{200b} x"), "\u{200b} x");
}

#[test]
fn trim_agrees_with_the_standard_library() {
    let samples = [
        "",
        " ",
        "x",
        " x",
        "x ",
        "  two words  ",
        "\n\nline\r\n",
        "\u{1680}ogham\u{1680}",
        "\u{180e}not space\u{180e}",
        "\u{feff}bom ",
        "tab\there",
    ];
    for s in samples {
        assert_eq!(trim(s), s.trim());
    }
}

#[test]
fn to_chars_gives_each_character() {
    assert_eq!(to_chars(""), Vec::<char>::new());
    assert_eq!(to_chars("aß世"), vec!['a', 'ß', '世']);
}

#[test]
fn reads_ignores_the_case_of_ascii_letters() {
    assert!(reads("exit", "exit"));
    assert!(reads("EXIT", "exit"));
    assert!(reads("eXiT", "exit"));
    assert!(!reads("exit ", "exit"));
    assert!(!reads("exi", "exit"));
    assert!(!reads("", "exit"));
    assert!(reads("", ""));
}

#[test]
fn reads_lowers_only_the_input() {
    assert!(!reads("exit", "EXIT"));
    assert!(!reads("EXIT", "EXIT"));
}

#[test]
fn reads_does_not_fold_letters_outside_ascii() {
    assert!(!reads("ex\u{131}t", "exit"));
    assert!(!reads("\u{212a}", "k"));
    assert!(!reads("É", "é"));
}
