use ftrans::text::{
    chars_of, debug_list, decimal_of, hex_of, is_text_less, is_white_space, join, same, same_bytes,
    to_lower, to_upper, trim,
};

#[test]
fn characters_are_classified_like_std() {
    for n in 0u32..=0x10ffff {
        if let Some(c) = char::from_u32(n) {
            assert_eq!(is_white_space(c), c.is_whitespace(), "{:x}", n);
            assert_eq!(to_upper(c), c.to_ascii_uppercase());
            assert_eq!(to_lower(c), c.to_ascii_lowercase());
        }
    }
}

#[test]
fn trim_takes_white_space_off_both_ends() {
    for s in ["", " ", "a", " a", "a ", " a b\t", "\u{a0}x\u{3000}", "\r\n"] {
        assert_eq!(trim(s), s.trim());
    }
}

#[test]
fn numbers_are_written_in_decimal() {
    for n in [0u64, 7, 9, 10, 99, 100, 1024, 65535, u64::MAX] {
        assert_eq!(decimal_of(n), n.to_string());
    }
}

#[test]
fn bytes_are_written_in_hexadecimal() {
    assert_eq!(hex_of(&[0x00, 0x0f, 0xa5, 0xff]), "000fa5ff");
    assert_eq!(hex_of(&[]), "");
}

#[test]
fn texts_are_ordered_like_std() {
    let samples = ["", "a", "b", "ab", "abc", "Z", "\u{e4}", "\u{1f600}", "\u{ffff}", "a/b", "a-b"];
    for a in samples {
        for b in samples {
            assert_eq!(is_text_less(a, b), a < b, "{:?} {:?}", a, b);
            assert_eq!(same(a, b), a == b);
            assert_eq!(same_bytes(a.as_bytes(), b.as_bytes()), a == b);
        }
    }
}

#[test]
fn lists_are_quoted_like_std() {
    let list = vec!["a".to_string(), "b \"c\"\n".to_string(), "\u{e4}".to_string()];
    assert_eq!(debug_list(&list), format!("{:?}", list));
    assert_eq!(debug_list(&vec![]), "[]");
    assert_eq!(join(&list[..1].to_vec(), ", "), "a");
    assert_eq!(join(&vec!["a".to_string(), "b".to_string()], ", "), "a, b");
    assert_eq!(join(&vec![], ", "), "");
}

#[test]
fn characters_of_a_text_come_in_order() {
    assert_eq!(chars_of("a\u{e4}b"), vec!['a', '\u{e4}', 'b']);
}
