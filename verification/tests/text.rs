use rterm::text::{char_is_space, chars_are_blank, from_chars, split_lines, to_chars, trim_chars};

#[test]
fn chars_round_trip() {
    for s in ["", "a", "hello", "caf\u{e9}", "\u{1F600}x", "a\nb\tc"] {
        let chars = to_chars(s);
        assert_eq!(chars, s.chars().collect::<Vec<char>>());
        assert_eq!(from_chars(&chars), s);
    }
}

#[test]
fn from_chars_builds_the_string() {
    assert_eq!(from_chars(&vec!['h', 'i', '!']), "hi!");
    assert_eq!(from_chars(&Vec::new()), "");
}

#[test]
fn space_agrees_with_std_on_every_character() {
    for code in 0u32..=0x10FFFF {
        if let Some(c) = char::from_u32(code) {
            assert_eq!(char_is_space(c), c.is_whitespace(), "U+{:04X}", code);
        }
    }
}

#[test]
fn blank_lines() {
    for (s, blank) in [
        ("", true),
        (" ", true),
        (" \t\r\n", true),
        ("\u{a0}\u{3000}", true),
        ("a", false),
        ("  a  ", false),
        (" \u{200b} ", false),
    ] {
        assert_eq!(chars_are_blank(&to_chars(s)), blank, "{:?}", s);
        assert_eq!(blank, s.trim().is_empty());
    }
}

#[test]
fn trim_agrees_with_std() {
    for s in [
        "", " ", "a", " a", "a ", "  a b  ", "\t\nx\r\n", "\u{2003}wide\u{2003}", " \u{a0} ",
        "no-trim", " a  b   c ",
    ] {
        assert_eq!(from_chars(&trim_chars(&to_chars(s))), s.trim(), "{:?}", s);
    }
}

#[test]
fn trim_exact_values() {
    assert_eq!(from_chars(&trim_chars(&to_chars("  say hi  "))), "say hi");
    assert_eq!(from_chars(&trim_chars(&to_chars("   "))), "");
}

#[test]
fn split_lines_exact_values() {
    let split = |s: &str| -> Vec<String> {
        split_lines(&to_chars(s)).iter().map(|l| from_chars(l)).collect()
    };
    assert_eq!(split(""), Vec::<String>::new());
    assert_eq!(split("a"), vec!["a"]);
    assert_eq!(split("a\n"), vec!["a"]);
    assert_eq!(split("a\nb"), vec!["a", "b"]);
    assert_eq!(split("\n"), vec![""]);
    assert_eq!(split("\n\n"), vec!["", ""]);
    assert_eq!(split("a\r\nb\r"), vec!["a", "b\r"]);
    assert_eq!(split("a\r\r\n"), vec!["a\r"]);
}

#[test]
fn split_lines_agrees_with_std() {
    for s in ["", "\n", "x", "x\ny\nz", "x\r\n\r\ny", "\r", "\r\n", "a\n\n\nb\n", "\n\r"] {
        let ours: Vec<String> = split_lines(&to_chars(s)).iter().map(|l| from_chars(l)).collect();
        let theirs: Vec<String> = s.lines().map(|l| l.to_string()).collect();
        assert_eq!(ours, theirs, "{:?}", s);
    }
}
