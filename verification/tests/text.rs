use gem12_display::text::{
    align_left, align_right, contains_part, decimal, find_line_after_prefix, has_prefix, hex_byte,
    hex_word, sort_texts, text_before, text_equal, trim, two_digits,
};

#[test]
fn trims_like_the_standard_library() {
    for code in 0..=0x10ffffu32 {
        if let Some(c) = char::from_u32(code) {
            if c.is_whitespace() || code < 0x3100 {
                let text = format!("{c}a{c}");
                assert_eq!(trim(&text), text.trim(), "{code:x}");
            }
        }
    }
    for text in ["", " ", "  a b  ", "\t\n x", "é "] {
        assert_eq!(trim(text), text.trim());
    }
}

#[test]
fn finds_lines_like_the_standard_library() {
    for text in [
        "", "m", "mx", "a\nmx", "a\r\nmx\r\n", "mx\r", "\nm\n", "xm\nm\n", "m1\nm2", "a\n\nmé\n", "\r\nm\r\r\n",
    ] {
        assert_eq!(
            find_line_after_prefix(text, "m"),
            text.lines().find_map(|line| line.strip_prefix("m")),
            "{text:?}"
        );
    }
}

#[test]
fn orders_texts_like_the_standard_library() {
    let texts = ["", "a", "aa", "b", "A", "é", "z", "日本", "a\u{0}", "\u{10ffff}", "\u{ffff}"];
    for left in texts {
        for right in texts {
            assert_eq!(text_before(left, right), left < right, "{left:?} {right:?}");
            assert_eq!(text_equal(left, right), left == right);
            assert_eq!(has_prefix(left, right), left.starts_with(right));
            assert_eq!(contains_part(left, right), left.contains(right));
        }
    }
    let owned: Vec<String> = texts.iter().rev().map(|text| text.to_string()).collect();
    let mut expected = owned.clone();
    expected.sort();
    assert_eq!(sort_texts(owned), expected);
}

#[test]
fn writes_numbers_like_the_standard_library() {
    for number in [0u64, 9, 10, 99, 100, 86_399, u64::MAX] {
        assert_eq!(decimal(number as u128), number.to_string());
        assert_eq!(two_digits(number), format!("{number:02}"));
    }
    assert_eq!(decimal(u128::MAX), u128::MAX.to_string());
    for byte in 0..=255u8 {
        assert_eq!(hex_byte(byte), format!("{byte:02x}"));
    }
    for word in [0u16, 0xa, 0x9a, 0x3274, 0xffff] {
        assert_eq!(hex_word(word), format!("{word:04x}"));
    }
}

#[test]
fn aligns_like_the_standard_library() {
    for text in ["", "7", "123", "äöü€", "twenty-three characters"] {
        for width in [0, 1, 3, 8, 23] {
            assert_eq!(align_right(text, width), format!("{text:>width$}"));
            assert_eq!(align_left(text, width), format!("{text:<width$}"));
        }
    }
}
