use repositories::text::{
    chars_of, contains_chars, decimal_of, join_chars, parse_u32, replace_first, split_chars, string_of,
};

fn cs(s: &str) -> Vec<char> {
    s.chars().collect()
}

#[test]
fn parse_u32_like_std() {
    for s in ["0", "42", "+7", "007", "4294967295", "4294967296", "", "+", "-1", "1a", " 1", "99999999999999999999"] {
        assert_eq!(parse_u32(&cs(s)), s.parse::<u32>().ok(), "{:?}", s);
    }
}

#[test]
fn decimal_like_std() {
    for n in [0u64, 7, 10, 12345, u64::MAX] {
        assert_eq!(string_of(&decimal_of(n)), n.to_string());
    }
}

#[test]
fn split_like_std() {
    for s in ["", "a", "a b", " a  b ", "  "] {
        let ours: Vec<String> = split_chars(&cs(s), ' ').iter().map(|p| string_of(p)).collect();
        let std: Vec<String> = s.split(' ').map(|p| p.to_string()).collect();
        assert_eq!(ours, std);
    }
}

#[test]
fn join_then_split_roundtrip() {
    let parts = vec![cs("a"), cs(""), cs("bc")];
    let joined = join_chars(&parts, &['/']);
    assert_eq!(string_of(&joined), "a//bc");
    assert_eq!(split_chars(&joined, '/'), parts);
    assert_eq!(join_chars(&[], &['/']), Vec::<char>::new());
}

#[test]
fn contains_like_std() {
    for (h, n) in [("logo.png", "logo"), ("lo", "logo"), ("abc", ""), ("", ""), ("aab", "ab"), ("abc", "bd")] {
        assert_eq!(contains_chars(&cs(h), &cs(n)), h.contains(n));
    }
}

#[test]
fn replace_first_like_std() {
    for (s, p, r) in [("/a/raw/b/raw/", "/raw/", "/blob/"), ("none", "/raw/", "/blob/"), ("abc", "", "x")] {
        assert_eq!(string_of(&replace_first(&cs(s), &cs(p), &cs(r))), s.replacen(p, r, 1));
    }
}

#[test]
fn chars_roundtrip() {
    assert_eq!(string_of(&chars_of("héllo")), "héllo");
}
