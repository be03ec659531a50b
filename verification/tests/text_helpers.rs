use forgejo_ssp::text::{ends_with, split_chars};

fn std_split(s: &str, sep: char) -> Vec<String> {
    s.split(sep).map(|p| p.to_string()).collect()
}

#[test]
fn split_matches_std_split() {
    for s in ["", ".", "a", "a.b", "a..b", ".a.", "ä.ö.ü", "no separators"] {
        assert_eq!(split_chars(s, '.'), std_split(s, '.'));
    }
    assert_eq!(split_chars("/x/y", '/'), vec!["", "x", "y"]);
}

#[test]
fn ends_with_matches_std() {
    for (s, suf) in [("abc", "bc"), ("abc", "abc"), ("abc", "xabc"), ("abc", ""), ("", "a"), ("zoë", "ë"), ("abc", "b")] {
        assert_eq!(ends_with(s, suf), s.ends_with(suf));
    }
}
