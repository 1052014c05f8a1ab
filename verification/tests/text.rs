use sparko_embedded_std::template::fill;
use sparko_embedded_std::text::{find_from, rfind_char, str_chars, str_eq, string_from_chars, trim_chars};

#[test]
fn trimming_matches_str_trim() {
    for s in ["  a b  ", "\t\n x\u{3000}", "", "   ", "abc", "\u{a0}y\u{85}"] {
        let t = trim_chars(&str_chars(s));
        assert_eq!(string_from_chars(&t), s.trim());
    }
}

#[test]
fn searching() {
    let hay = str_chars("a<b><b>");
    assert_eq!(find_from(&hay, &str_chars("<b>"), 0), Some(1));
    assert_eq!(find_from(&hay, &str_chars("<b>"), 2), Some(4));
    assert_eq!(find_from(&hay, &str_chars("<i>"), 0), None);
    assert_eq!(find_from(&hay, &str_chars(""), 7), Some(7));
    assert_eq!(rfind_char(&str_chars("a b c"), ' '), Some(3));
    assert_eq!(rfind_char(&str_chars("abc"), ' '), None);
}

#[test]
fn strings_and_bytes() {
    assert!(str_eq("héllo", "héllo"));
    assert!(!str_eq("a", "ab"));
}

#[test]
fn templates_fill_their_holes_in_order() {
    assert_eq!(fill(&vec!["<", "|", ">"], &vec!["a", "b"]), "<a|b>");
    assert_eq!(fill(&vec!["only"], &vec![]), "only");
}
