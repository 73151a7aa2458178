use miller::text::{
    chars_of, contains, copies, decimal_of, find_from, first_chars, is_white_space, join, lines,
    lower_hex_of, owned, push_two_digits, replace, same_text, starts_with, string_of,
    strip_prefix, trim,
};

fn samples() -> Vec<String> {
    let pieces = [
        "", "a", "ab", "aab", " ", "\t a \n", "\r\n", "a\r\nb\r\n", "a\n\nb", "\n", "\r", "a\r",
        "\u{a0}x\u{3000}", "```rust\nfn f() {}\n```", "äöü ß", "....", "./././x", "/./x", "|-->|",
        "error: help:", "aaaa", "🦀🦀",
    ];
    let mut out: Vec<String> = Vec::new();
    for a in pieces {
        for b in pieces {
            out.push(format!("{}{}", a, b));
        }
    }
    out
}

#[test]
fn white_space_is_that_of_char() {
    for n in 0..=0x10ffff_u32 {
        if let Some(c) = char::from_u32(n) {
            assert_eq!(is_white_space(c), c.is_whitespace(), "{:x}", n);
        }
    }
}

#[test]
fn trimming_agrees_with_str() {
    for s in samples() {
        assert_eq!(trim(&s), s.trim());
    }
}

#[test]
fn lines_agree_with_str() {
    for s in samples() {
        let expected: Vec<String> = s.lines().map(String::from).collect();
        assert_eq!(lines(&s), expected, "{:?}", s);
    }
}

#[test]
fn searching_agrees_with_str() {
    for s in samples() {
        for p in ["", "a", "ab", "aa", "\n", "```", "🦀", "|", "-->"] {
            assert_eq!(contains(&s, p), s.contains(p), "{:?} {:?}", s, p);
            assert_eq!(starts_with(&s, p), s.starts_with(p), "{:?} {:?}", s, p);
            assert_eq!(strip_prefix(&s, p).as_deref(), s.strip_prefix(p), "{:?} {:?}", s, p);
        }
    }
}

#[test]
fn replacing_agrees_with_str() {
    for s in samples() {
        for p in ["a", "aa", "\r\n", "```", "🦀", "./"] {
            for r in ["", "x", "aa", "\n"] {
                assert_eq!(replace(&s, p, r), s.replace(p, r), "{:?} {:?} {:?}", s, p, r);
            }
        }
    }
}

#[test]
fn positions_are_found_from_where_the_search_starts() {
    let s = chars_of("abcabc");
    let p = chars_of("bc");
    assert_eq!(find_from(&s, &p, 0), Some(1));
    assert_eq!(find_from(&s, &p, 2), Some(4));
    assert_eq!(find_from(&s, &p, 5), None);
    assert_eq!(string_of(&s, 1, 4), "bca");
}

#[test]
fn beginnings_count_characters() {
    assert_eq!(first_chars("äöü", 2), "äö");
    assert_eq!(first_chars("äöü", 3), "äöü");
    assert_eq!(first_chars("äöü", 9), "äöü");
    assert_eq!(first_chars("äöü", 0), "");
}

#[test]
fn texts_are_the_same_only_if_equal() {
    assert!(same_text("rs", "rs"));
    assert!(!same_text("rs", "r"));
    assert!(!same_text("rs", "RS"));
}

#[test]
fn parts_are_joined() {
    assert_eq!(join(&owned(&vec![]), "\n"), "");
    assert_eq!(copies(&owned(&vec!["a", "", "b"])), vec!["a", "", "b"]);
    assert_eq!(join(&owned(&vec!["a"]), "\n"), "a");
    assert_eq!(join(&owned(&vec!["a", "", "b"]), ", "), "a, , b");
}

#[test]
fn numbers_are_written_in_decimal() {
    for n in [0, 1, 9, 10, 99, 100, 1_234_567_890, u64::MAX as u128, u128::MAX] {
        assert_eq!(decimal_of(n), n.to_string());
    }
}

#[test]
fn two_digits_are_padded() {
    for n in 0..100 {
        let mut out = String::from("x");
        push_two_digits(&mut out, n);
        assert_eq!(out, format!("x{:02}", n));
    }
}

#[test]
fn bytes_are_written_in_hexadecimal() {
    let all: Vec<u8> = (0..=255).collect();
    let expected: String = all.iter().map(|b| format!("{:02x}", b)).collect();
    assert_eq!(lower_hex_of(&all), expected);
    assert_eq!(lower_hex_of(&vec![]), "");
}
