use eclipse_core::text::{byte_length, cut_front, decimal_text, same_text, trim_text, white_space};

#[test]
fn decimal_has_no_leading_zeros() {
    assert_eq!(decimal_text(0), "0");
    assert_eq!(decimal_text(7), "7");
    assert_eq!(decimal_text(10), "10");
    assert_eq!(decimal_text(8080), "8080");
    assert_eq!(decimal_text(65535), "65535");
}

#[test]
fn decimal_reads_back_for_every_port() {
    let mut n: u16 = 0;
    loop {
        assert_eq!(decimal_text(n).parse::<u16>().unwrap(), n);
        if n == u16::MAX {
            break;
        }
        n += 1;
    }
}

#[test]
fn white_space_agrees_with_the_standard_library() {
    for u in 0..=0x10FFFFu32 {
        if let Some(c) = char::from_u32(u) {
            assert_eq!(white_space(c), c.is_whitespace(), "{:x}", u);
        }
    }
}

#[test]
fn trim_agrees_with_the_standard_library() {
    for s in [
        "",
        " ",
        "\r\n\t",
        "error",
        "  error: no such file\n",
        "\u{3000}a b\u{2003}\u{85}",
        "a\u{200b}",
        "\u{a0}\u{e9}\u{a0}x ",
    ] {
        assert_eq!(trim_text(s), s.trim());
    }
}

#[test]
fn texts_are_compared_by_their_characters() {
    assert!(same_text("", ""));
    assert!(same_text("assistant", "assistant"));
    assert!(!same_text("assistant", "assistan"));
    assert!(!same_text("text", "test"));
    assert!(same_text("\u{e9}", "\u{e9}"));
    assert!(!same_text("\u{e9}", "e\u{301}"));
}

#[test]
fn a_text_is_cut_at_a_byte_offset() {
    assert_eq!(byte_length("h\u{e9}llo"), 6);
    assert_eq!(cut_front("h\u{e9}llo", 0), "h\u{e9}llo");
    assert_eq!(cut_front("h\u{e9}llo", 1), "\u{e9}llo");
    assert_eq!(cut_front("h\u{e9}llo", 3), "llo");
    assert_eq!(cut_front("h\u{e9}llo", 6), "");
}
