use bzlui::text::{
    copy_range, decimal_string, from_chars, join_from, less, pad, split_chars, split_once_chars,
    to_chars, trim, trim_chars, white_space,
};

const SAMPLES: [&str; 12] = [
    "",
    " ",
    "a",
    "  a b  ",
    "\t\u{85}x\u{3000}\r",
    "\u{a0}\u{2003}",
    "//tools/otel:bar",
    "a/b//c/",
    "/",
    "größe/日本/🍎",
    "ab",
    "aB",
];

fn strings(pieces: Vec<Vec<char>>) -> Vec<String> {
    pieces.iter().map(|p| from_chars(p)).collect()
}

#[test]
fn white_space_is_that_of_the_standard_library() {
    for n in 0..=0x10ffffu32 {
        if let Some(c) = char::from_u32(n) {
            assert_eq!(white_space(c), c.is_whitespace(), "{n:x}");
        }
    }
}

#[test]
fn trimming_agrees_with_the_standard_library() {
    for s in SAMPLES {
        assert_eq!(trim(s), s.trim());
        assert_eq!(from_chars(&trim_chars(&to_chars(s))), s.trim());
    }
}

#[test]
fn characters_round_trip() {
    for s in SAMPLES {
        assert_eq!(from_chars(&to_chars(s)), s);
    }
    assert_eq!(copy_range(&to_chars("abcd"), 1, 3), vec!['b', 'c']);
}

#[test]
fn splitting_agrees_with_the_standard_library() {
    for s in SAMPLES {
        let expected: Vec<&str> = s.split('/').collect();
        assert_eq!(strings(split_chars(&to_chars(s), '/')), expected);
    }
    assert_eq!(strings(split_chars(&to_chars("a/b//c/"), '/')), vec!["a", "b", "", "c", ""]);
}

#[test]
fn splitting_once_agrees_with_the_standard_library() {
    for s in ["", "x", "a rule //b:c", " rule //", "a rule // rule //b", "a rule /", "rule //a: b"] {
        for pattern in [" rule //", ":", "rule", ""] {
            let found = split_once_chars(&to_chars(s), &to_chars(pattern))
                .map(|(before, after)| (from_chars(&before), from_chars(&after)));
            let expected = s.split_once(pattern).map(|(b, a)| (b.to_string(), a.to_string()));
            assert_eq!(found, expected, "{s:?} {pattern:?}");
        }
    }
}

#[test]
fn joining_undoes_splitting() {
    for s in SAMPLES {
        let pieces = strings(split_chars(&to_chars(s), '/'));
        assert_eq!(join_from(&pieces, 0, "/"), s);
        assert_eq!(join_from(&pieces, 1, "/"), pieces[1..].join("/"));
    }
    assert_eq!(join_from(&Vec::new(), 0, "/"), "");
}

#[test]
fn pieces_have_no_separator() {
    for s in SAMPLES {
        for piece in split_chars(&to_chars(s), '/') {
            assert!(!piece.contains(&'/'));
        }
    }
}

#[test]
fn order_agrees_with_the_standard_library() {
    for a in SAMPLES {
        for b in SAMPLES {
            assert_eq!(less(a, b), a < b, "{a:?} {b:?}");
        }
    }
    assert!(less("a", "aa"));
    assert!(less("Z", "a"));
    assert!(!less("b", "aa"));
}

#[test]
fn decimal_agrees_with_the_standard_library() {
    for n in [0, 1, 9, 10, 37, 100, 255, -1, -10, i32::MAX, i32::MIN] {
        assert_eq!(decimal_string(n), n.to_string());
    }
}

#[test]
fn padding_agrees_with_the_standard_library() {
    for s in SAMPLES {
        for width in [0usize, 1, 4, 12] {
            assert_eq!(pad(s, width), format!("{s:>width$}"));
        }
    }
    assert_eq!(pad("ab", 4), "  ab");
}
