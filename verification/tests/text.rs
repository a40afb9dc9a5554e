use me3_attach::text::{is_nul_free, parse_number, same_text};

#[test]
fn texts_are_compared_by_their_characters() {
    assert!(same_text("late-full", "late-full"));
    assert!(!same_text("late-full", "late-full-immediate"));
    assert!(!same_text("Late-full", "late-full"));
    assert!(same_text("", ""));
}

#[test]
fn nul_is_found_anywhere() {
    assert!(is_nul_free("Menu.IsEnableOnlineMode"));
    assert!(is_nul_free(""));
    assert!(!is_nul_free("\0"));
    assert!(!is_nul_free("a\0"));
    assert!(!is_nul_free("\u{e9}\0b"));
}

#[test]
fn numbers_are_read_as_the_standard_library_reads_them() {
    let texts = [
        "0",
        "8000",
        "+25",
        "+",
        "",
        "-1",
        "-0",
        " 1",
        "1 ",
        "007",
        "++1",
        "1+",
        "0x10",
        "12a",
        "18446744073709551615",
        "18446744073709551616",
        "184467440737095516150",
        "99999999999999999999999999",
        "000000000000000000000000000001",
        "\u{0661}",
    ];
    for text in texts {
        assert_eq!(parse_number(text), text.parse::<u64>().ok(), "{text:?}");
    }
    assert_eq!(parse_number("250"), Some(250));
    assert_eq!(parse_number("ten"), None);
}
