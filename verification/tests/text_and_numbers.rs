use hianime::encode::url_encode;
use hianime::number::{format_isize, parse_usize};
use hianime::text::{
    contains, first_piece, head_before_last, is_blank, last_piece, nth1_piece, remove_char,
    string_of,
};

fn chars(s: &str) -> Vec<char> {
    s.chars().collect()
}

fn text(v: &[char]) -> String {
    v.iter().collect()
}

#[test]
fn parse_usize_accepts_what_from_str_accepts() {
    for s in ["0", "12", "+12", "007", "18446744073709551615", "42"] {
        assert_eq!(parse_usize(&chars(s)), s.parse::<usize>().ok(), "{}", s);
    }
}

#[test]
fn parse_usize_rejects_what_from_str_rejects() {
    for s in ["", "+", "-1", "1a", " 1", "1 ", "++1", "18446744073709551616", "99999999999999999999999"] {
        assert_eq!(parse_usize(&chars(s)), None, "{}", s);
        assert_eq!(s.parse::<usize>().ok(), None, "{}", s);
    }
}

#[test]
fn format_isize_matches_to_string() {
    for n in [0isize, 1, 9, 10, 99, 100, -1, -10, 123456789, isize::MAX, isize::MIN] {
        assert_eq!(text(&format_isize(n)), n.to_string());
    }
}

#[test]
fn written_numbers_read_back() {
    for n in [0isize, 7, 10, 65535, isize::MAX] {
        assert_eq!(parse_usize(&format_isize(n)), Some(n as usize));
    }
}

#[test]
fn url_encode_matches_the_crate() {
    assert_eq!(url_encode("a b"), "a%20b");
    assert_eq!(url_encode("é"), "%C3%A9");
    assert_eq!(url_encode("AZaz09-._~"), "AZaz09-._~");
    assert_eq!(url_encode("!*'();:@&=+$,/?#[]"), "%21%2A%27%28%29%3B%3A%40%26%3D%2B%24%2C%2F%3F%23%5B%5D");
    assert_eq!(url_encode(""), "");
}

#[test]
fn blank_means_only_white_space() {
    assert!(is_blank(&chars("")));
    assert!(is_blank(&chars(" \t\r\n\u{a0}\u{2003}\u{3000}")));
    assert!(!is_blank(&chars(" x ")));
    for s in ["", " ", "\u{85}", "\u{200b}", "a"] {
        assert_eq!(is_blank(&chars(s)), s.trim().is_empty(), "{:?}", s);
    }
}

#[test]
fn pieces_match_split() {
    for s in ["a/b/c", "abc", "/", "", "a//", "https://x.y/p/q.m3u8"] {
        let v = chars(s);
        assert_eq!(text(&first_piece(&v, '/')), s.split('/').next().unwrap());
        assert_eq!(text(&last_piece(&v, '/')), s.split('/').last().unwrap());
        assert_eq!(nth1_piece(&v, '/').map(|p| text(&p)), s.split('/').nth(1).map(|x| x.to_string()));
        let n = s.matches('/').count();
        let base = s.split('/').collect::<Vec<_>>()[..n].join("/");
        assert_eq!(text(&head_before_last(&v, '/')), base);
    }
}

#[test]
fn remove_char_matches_replace() {
    for s in ["SUB:", "a:b:c", "::", "", "none"] {
        assert_eq!(text(&remove_char(&chars(s), ':')), s.replace(":", ""));
    }
}

#[test]
fn contains_matches_str_contains() {
    for (h, n) in [("abc", "b"), ("abc", "abcd"), ("", ""), ("abc", ""), ("aab", "ab"), ("ab", "ba")] {
        assert_eq!(contains(&chars(h), &chars(n)), h.contains(n));
    }
}

#[test]
fn string_of_keeps_characters() {
    assert_eq!(string_of(&chars("héllo")), "héllo");
}

#[test]
fn encoded_text_is_url_safe() {
    for s in ["a b", "ü/ß?&=", "\u{0}\u{7f}\u{10ffff}", "plain-text_1.2~3", "\"quoted\""] {
        let e = url_encode(s);
        assert!(
            e.chars().all(|c| c.is_ascii_alphanumeric() || "-._~%".contains(c)),
            "{:?}",
            e
        );
    }
}
