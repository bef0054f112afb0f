use usb_station::text::{
    chars_of, contains_chars, lines_of, parse_trimmed_unsigned, parse_unsigned_chars, split_chars, trim_str,
    words_of,
};

fn pieces(v: Vec<Vec<char>>) -> Vec<String> {
    v.into_iter().map(|p| p.into_iter().collect()).collect()
}

#[test]
fn unsigned_parsing_follows_str_parse() {
    for (text, max) in [("0", 255u64), ("255", 255), ("256", 255), ("+7", 255), ("+", 255), ("", 255), ("-1", 255), ("1a", 255), ("007", 255), ("18446744073709551615", u64::MAX), ("18446744073709551616", u64::MAX)] {
        let expected: Option<u64> = text.parse::<u64>().ok().filter(|v| *v <= max);
        let got = parse_unsigned_chars(&chars_of(text), max);
        assert_eq!(got, expected, "{text}");
    }
    assert_eq!(parse_trimmed_unsigned(" 42\n", 100), Some(42));
}

#[test]
fn trimming_follows_str_trim() {
    for text in ["  a b  ", "\u{a0}x\u{2028}", "", "   ", "\r\nline\t"] {
        let got: String = trim_str(text).into_iter().collect();
        assert_eq!(got, text.trim());
    }
}

#[test]
fn splitting_follows_std() {
    for text in ["a b\tc", "  lead", "trail  ", "", " \u{3000} "] {
        let got = pieces(words_of(&chars_of(text)));
        let want: Vec<String> = text.split_whitespace().map(String::from).collect();
        assert_eq!(got, want);
    }
    for text in ["a\nb", "a\r\nb\r\n", "\n\n", "", "x\r", "a\rb\n"] {
        let got = pieces(lines_of(&chars_of(text)));
        let want: Vec<String> = text.lines().map(String::from).collect();
        assert_eq!(got, want, "{text:?}");
    }
    for text in ["a,b", ",", "", "a,,b,"] {
        let got = pieces(split_chars(&chars_of(text), ','));
        let want: Vec<String> = text.split(',').map(String::from).collect();
        assert_eq!(got, want);
    }
}

#[test]
fn substring_search() {
    assert!(contains_chars(&chars_of("ubuntu-22"), &chars_of("ubuntu")));
    assert!(contains_chars(&chars_of("abc"), &chars_of("")));
    assert!(!contains_chars(&chars_of("ab"), &chars_of("abc")));
    assert!(contains_chars(&chars_of("xxabc"), &chars_of("abc")));
}
