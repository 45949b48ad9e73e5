use vertretung::text::{
    chars_of, first_token, has_part, has_suffix, is_whitespace, last_token, line_bounds,
    parse_i64, parses_as_i32, subvec, trailing_run, trim,
};

fn chars(s: &str) -> Vec<char> {
    s.chars().collect()
}

#[test]
fn white_space_is_what_std_calls_white_space() {
    for code in 0u32..=0x10FFFF {
        if let Some(c) = char::from_u32(code) {
            assert_eq!(is_whitespace(c), c.is_whitespace(), "U+{:04X}", code);
        }
    }
}

#[test]
fn chars_of_gives_every_character() {
    assert_eq!(chars_of("Größe 1"), vec!['G', 'r', 'ö', 'ß', 'e', ' ', '1']);
    assert_eq!(chars_of(""), Vec::<char>::new());
}

#[test]
fn subvec_copies_a_range() {
    let v = chars("Montag");
    assert_eq!(subvec(&v, 1, 4), chars("ont"));
    assert_eq!(subvec(&v, 2, 2), chars(""));
    assert_eq!(subvec(&v, 0, 6), chars("Montag"));
}

#[test]
fn trim_is_std_trim() {
    for s in ["  Dienstag 03.09.2024 \n", "\u{a0}x\u{2003}", "", "   ", "a", " a b ", "\tä\r\n"] {
        assert_eq!(trim(s), s.trim().to_string(), "{:?}", s);
    }
}

#[test]
fn first_token_is_the_first_word() {
    for s in ["Dienstag 03.09.2024", "  Montag, den 02.09.2024  ", "", " \t ", "x", "a\u{a0}b"] {
        assert_eq!(
            first_token(s),
            s.split_whitespace().next().map(|w| w.to_string()),
            "{:?}",
            s
        );
    }
    assert_eq!(first_token("Dienstag 03.09.2024"), Some("Dienstag".to_string()));
}

#[test]
fn last_token_is_the_last_word() {
    for s in ["Dienstag 03.09.2024", "  Montag, den 02.09.2024  ", "", " \t ", "x", "a\u{a0}b"] {
        assert_eq!(
            last_token(s),
            s.split_whitespace().last().map(|w| w.to_string()),
            "{:?}",
            s
        );
    }
    assert_eq!(last_token("Dienstag 03.09.2024"), Some("03.09.2024".to_string()));
}

#[test]
fn contains_is_std_contains() {
    let cases = [
        ("10a, 10b", "10a"),
        ("10a, 10b", "10c"),
        ("Mathe", ""),
        ("", ""),
        ("", "a"),
        ("abc", "abcd"),
        ("aab", "ab"),
        ("Dienstag", "tag"),
        ("Größe", "öß"),
    ];
    for (hay, needle) in cases {
        assert_eq!(
            has_part(&chars(hay), &chars(needle)),
            hay.contains(needle),
            "{:?} in {:?}",
            needle,
            hay
        );
    }
}

#[test]
fn suffix_is_std_ends_with() {
    for (s, suffix) in [("plan.pdf", ".pdf"), ("plan.pdfx", ".pdf"), ("pdf", ".pdf"), ("", ""), (".pdf", ".pdf")] {
        assert_eq!(has_suffix(&chars(s), &chars(suffix)), s.ends_with(suffix), "{:?}", s);
    }
}

#[test]
fn trailing_run_is_std_trim_end_matches() {
    for s in ["3.", "3...", "3", ".", "", "1.2.", "I  ", " "] {
        for c in ['.', ' '] {
            let v = chars(s);
            let end = trailing_run(&v, c);
            let kept: String = v[..end].iter().collect();
            assert_eq!(kept, s.trim_end_matches(c), "{:?} {:?}", s, c);
        }
    }
}

#[test]
fn parse_i64_is_std_parse() {
    let cases = [
        "0", "7", "10", "-1", "+5", "007", "", "+", "-", "1.", " 1", "1 ", "a", "１",
        "9223372036854775807", "9223372036854775808", "-9223372036854775808",
        "-9223372036854775809", "99999999999999999999999999", "+-1", "--1", "1-",
    ];
    for s in cases {
        assert_eq!(parse_i64(&chars(s)), s.parse::<i64>().ok(), "{:?}", s);
    }
    assert_eq!(parse_i64(&chars("10")), Some(10));
    assert_eq!(parse_i64(&chars("-9223372036854775808")), Some(i64::MIN));
}

#[test]
fn parses_as_i32_is_std_parse() {
    let cases = [
        "0", "2024", "-1", "+5", "", "+", "-", "1.", "a", "2147483647", "2147483648",
        "-2147483648", "-2147483649", "12 ", "I",
    ];
    for s in cases {
        assert_eq!(parses_as_i32(&chars(s)), s.parse::<i32>().is_ok(), "{:?}", s);
    }
}

#[test]
fn line_bounds_are_std_split_terminator() {
    for s in ["a\nb\n", "a\n\nb", "", "\n", "a", "\n\n", "01.09.2024\nI\n", "x\ny"] {
        let v = chars(s);
        let got: Vec<String> =
            line_bounds(&v).iter().map(|(from, to)| v[*from..*to].iter().collect()).collect();
        let want: Vec<String> = s.split_terminator('\n').map(|l| l.to_string()).collect();
        assert_eq!(got, want, "{:?}", s);
    }
}
