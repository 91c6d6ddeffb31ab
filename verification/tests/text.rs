use halfcopy::text::{chars_of, comes_first, join, split, split_once};

fn owned(parts: &[&str]) -> Vec<String> {
    parts.iter().map(|p| p.to_string()).collect()
}

fn le(a: &str, b: &str) -> bool {
    comes_first(&chars_of(a), &chars_of(b))
}

#[test]
fn text_is_cut_at_the_first_separator() {
    assert_eq!(split_once("a-b-c", '-'), Some(("a".to_string(), "b-c".to_string())));
    assert_eq!(split_once("-", '-'), Some((String::new(), String::new())));
    assert_eq!(split_once("\u{e9}-\u{1f980}", '-'), Some(("\u{e9}".into(), "\u{1f980}".into())));
    assert_eq!(split_once("abc", '-'), None);
    assert_eq!(split_once("", '-'), None);
}

#[test]
fn text_is_cut_at_every_separator() {
    assert_eq!(split("a/b/c", '/'), owned(&["a", "b", "c"]));
    assert_eq!(split("", '/'), owned(&[""]));
    assert_eq!(split("/a//", '/'), owned(&["", "a", "", ""]));
    assert_eq!(split("\u{e9}/\u{1f980}", '/'), owned(&["\u{e9}", "\u{1f980}"]));
}

#[test]
fn splitting_agrees_with_std() {
    for text in ["", "/", "a", "a/b", "//", "a//b/", "\u{e9}/x\u{1f980}/"] {
        let expected: Vec<String> = text.split('/').map(|p| p.to_string()).collect();
        assert_eq!(split(text, '/'), expected);
        let once = text.split_once('/').map(|(a, b)| (a.to_string(), b.to_string()));
        assert_eq!(split_once(text, '/'), once);
    }
}

#[test]
fn parts_are_joined() {
    assert_eq!(join(&owned(&[]), "-"), "");
    assert_eq!(join(&owned(&["a"]), "-"), "a");
    assert_eq!(join(&owned(&["a", "", "c"]), "-"), "a--c");
}

#[test]
fn cutting_undoes_joining() {
    let parts = owned(&["a", "", "\u{e9}"]);
    assert_eq!(split(&join(&parts, "/"), '/'), parts);
    assert_eq!(join(&split("/x//y", '/'), "/"), "/x//y");
}

#[test]
fn text_is_compared_as_std_does() {
    let all = ["", "A", "a", "aa", "ab", "b", "a/b", "a-b", "\u{e9}", "\u{ffff}", "\u{1f980}"];
    for a in all {
        for b in all {
            assert_eq!(le(a, b), a <= b, "{a} {b}");
        }
    }
}
