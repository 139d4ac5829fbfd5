use vmpl_run::order::lex_less;
use vmpl_run::text::{chars_of, split_on, split_whitespace, starts_with, string_of};

fn cs(s: &str) -> Vec<char> {
    s.chars().collect()
}

fn words(v: Vec<Vec<char>>) -> Vec<String> {
    v.into_iter().map(|w| w.into_iter().collect()).collect()
}

#[test]
fn splits_like_std() {
    for s in ["", "  ", "a", " env  FOO\tbar ", "x\u{3000}y\u{85}z", "ls -l"] {
        let want: Vec<String> = s.split_whitespace().map(|w| w.to_string()).collect();
        assert_eq!(words(split_whitespace(&cs(s))), want, "for {:?}", s);
    }
}

#[test]
fn splits_on_colon_like_std() {
    for s in ["", ":", "/bin", "/bin:/usr/bin", "::a::"] {
        let want: Vec<String> = s.split(':').map(|w| w.to_string()).collect();
        assert_eq!(words(split_on(&cs(s), ':')), want, "for {:?}", s);
    }
}

#[test]
fn prefixes() {
    assert!(starts_with(&cs("VMPL_LOG_LEVEL"), &cs("VMPL_")));
    assert!(starts_with(&cs("abc"), &cs("")));
    assert!(!starts_with(&cs("ab"), &cs("abc")));
    assert!(!starts_with(&cs("abc"), &cs("abd")));
}

#[test]
fn chars_and_strings() {
    assert_eq!(chars_of("héllo"), cs("héllo"));
    assert_eq!(string_of(&cs("héllo")), "héllo");
}

#[test]
fn order_like_string() {
    let pairs = [("a", "b"), ("a", "ab"), ("", "a"), ("b", "a"), ("é", "z"), ("abc", "abc")];
    for (a, b) in pairs {
        assert_eq!(lex_less(&cs(a), &cs(b)), a < b, "for {:?} {:?}", a, b);
    }
}
