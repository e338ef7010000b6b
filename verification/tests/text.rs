use lang_guard::path::{path_part, rest_of, segment, without_slash};
use lang_guard::text::{chars_of, head, position, push_all, string_of, to_lower};

fn chars(text: &str) -> Vec<char> {
    text.chars().collect()
}

#[test]
fn to_lower_changes_upper_case_ascii_only() {
    assert_eq!(to_lower('A'), 'a');
    assert_eq!(to_lower('M'), 'm');
    assert_eq!(to_lower('Z'), 'z');
    assert_eq!(to_lower('a'), 'a');
    assert_eq!(to_lower('@'), '@');
    assert_eq!(to_lower('['), '[');
    assert_eq!(to_lower('-'), '-');
    assert_eq!(to_lower('7'), '7');
    assert_eq!(to_lower('\u{c9}'), '\u{c9}');
}

#[test]
fn position_finds_the_first_occurrence() {
    assert_eq!(position(&chars("a,b,c"), ','), 1);
    assert_eq!(position(&chars(",a"), ','), 0);
    assert_eq!(position(&chars("abc"), ','), 3);
    assert_eq!(position(&chars(""), ','), 0);
}

#[test]
fn head_ends_at_the_first_occurrence() {
    assert_eq!(head(&chars("en-US-x"), '-'), &chars("en")[..]);
    assert_eq!(head(&chars("en"), '-'), &chars("en")[..]);
    assert_eq!(head(&chars("-en"), '-'), &chars("")[..]);
    assert_eq!(head(&chars(""), '-'), &chars("")[..]);
}

#[test]
fn chars_and_strings_convert_both_ways() {
    assert_eq!(chars_of("h\u{e9}llo"), vec!['h', '\u{e9}', 'l', 'l', 'o']);
    assert_eq!(chars_of(""), Vec::<char>::new());
    assert_eq!(string_of(&['f', 'r']), "fr");
    assert_eq!(string_of(&[]), "");
    assert_eq!(string_of(&chars_of("/a/b?c=d")), "/a/b?c=d");
}

#[test]
fn push_all_appends() {
    let mut out = String::from("/fr");
    push_all(&mut out, &chars("/about"));
    assert_eq!(out, "/fr/about");
    push_all(&mut out, &[]);
    assert_eq!(out, "/fr/about");
}

#[test]
fn without_slash_strips_one_slash() {
    assert_eq!(without_slash(&chars("/a")), &chars("a")[..]);
    assert_eq!(without_slash(&chars("//a")), &chars("/a")[..]);
    assert_eq!(without_slash(&chars("a/")), &chars("a/")[..]);
    assert_eq!(without_slash(&chars("")), &chars("")[..]);
}

#[test]
fn segment_and_rest_part_a_path() {
    let path = chars("/en/about/team");
    assert_eq!(segment(&path), &chars("en")[..]);
    assert_eq!(rest_of(&path), &chars("/about/team")[..]);
    let bare = chars("en");
    assert_eq!(segment(&bare), &chars("en")[..]);
    assert_eq!(rest_of(&bare), &chars("")[..]);
    let root = chars("/");
    assert_eq!(segment(&root), &chars("")[..]);
    assert_eq!(rest_of(&root), &chars("")[..]);
}

#[test]
fn path_part_ends_at_the_query() {
    assert_eq!(path_part(&chars("/a/b?x=1&y=/z")), &chars("/a/b")[..]);
    assert_eq!(path_part(&chars("/a/b")), &chars("/a/b")[..]);
    assert_eq!(path_part(&chars("?x")), &chars("")[..]);
    assert_eq!(path_part(&chars("/a?x?y")), &chars("/a")[..]);
}
