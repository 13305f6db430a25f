use app_state::text::{
    is_blank, is_white_space, push_centered, push_decimal, push_signed_decimal, push_spaces,
};
use app_state::tline::{TLine, TString};

fn decimal(n: usize) -> String {
    let mut s = String::new();
    push_decimal(&mut s, n);
    s
}

fn signed(n: i32) -> String {
    let mut s = String::new();
    push_signed_decimal(&mut s, n);
    s
}

fn centered(text: &str, width: usize) -> String {
    let mut s = String::new();
    push_centered(&mut s, text, width);
    s
}

fn line(strings: &[&str]) -> TLine {
    TLine {
        strings: strings.iter().map(|s| TString::new(s.to_string())).collect(),
    }
}

#[test]
fn white_spaces_are_those_of_unicode() {
    for c in '\0'..=char::MAX {
        assert_eq!(is_white_space(c), c.is_whitespace(), "{:?}", c);
    }
}

#[test]
fn blank_is_what_trims_to_nothing() {
    for s in ["", " ", " \t\n", "a", " a ", "\u{a0}", "\u{3000}\u{2003}", "\u{200b}"] {
        assert_eq!(is_blank(s), s.trim().is_empty(), "{:?}", s);
    }
}

#[test]
fn decimals() {
    for n in [0, 7, 9, 10, 19, 100, 65535, 1234567890, usize::MAX] {
        assert_eq!(decimal(n), n.to_string());
    }
    for n in [0, 1, -1, 101, -101, i32::MAX, i32::MIN] {
        assert_eq!(signed(n), n.to_string());
    }
}

#[test]
fn centering() {
    for width in 0..30 {
        assert_eq!(
            centered("computing...", width),
            format!("{:^w$}", "computing...", w = width)
        );
    }
    assert_eq!(centered("ab", 5), " ab  ");
}

#[test]
fn spaces() {
    let mut s = String::from("a");
    push_spaces(&mut s, 3);
    assert_eq!(s, "a   ");
}

#[test]
fn badges() {
    let badge = TString::badge("pass!", 254, 2);
    assert_eq!(badge.raw, "pass!");
    assert_eq!(badge.fg, Some(254));
    assert_eq!(badge.bg, Some(2));
    assert_eq!(TString::num_badge(0, "change", 235, 6).raw, "0 change");
    assert_eq!(TString::num_badge(1, "error", 235, 9).raw, "1 error");
    assert_eq!(TString::num_badge(2, "error", 235, 9).raw, "2 errors");
    assert_eq!(TString::num_badge(10, "warning", 235, 11).bg, Some(11));
}

#[test]
fn line_content() {
    let l = line(&["ab", "", "cd"]);
    assert_eq!(l.combined_raw(), "abcd");
    assert_eq!(l.chars(), vec!['a', 'b', 'c', 'd']);
    assert!(l.has("ab"));
    assert!(l.has("d"));
    assert!(l.has(""));
    // over two strings
    assert!(!l.has("bc"));
    assert!(!l.is_blank());
    assert!(line(&[" ", "\t"]).is_blank());
    assert!(line(&[]).is_blank());
    assert!(!line(&[]).has(""));
}

#[test]
fn badge_is_added_last() {
    let mut l = line(&["ab"]);
    l.add_badge(TString::badge("MATCH", 235, 10));
    assert_eq!(l.strings.len(), 2);
    assert_eq!(l.strings[0].raw, "ab");
    assert_eq!(l.strings[1].raw, "MATCH");
    let copy = l.clone();
    assert_eq!(copy.strings[1].bg, Some(10));
    assert_eq!(copy.combined_raw(), "abMATCH");
    assert_eq!(TLine::default().strings.len(), 0);
}
