use haircut_backend::text::{
    blank, chars_of, contains, matches_at, replace_all, truncate, white_space,
};

fn cs(s: &str) -> Vec<char> {
    s.chars().collect()
}

#[test]
fn white_space_agrees_with_std_on_every_character() {
    for code in 0..=0x10ffffu32 {
        if let Some(c) = char::from_u32(code) {
            assert_eq!(white_space(c), c.is_whitespace(), "U+{:04X}", code);
        }
    }
}

#[test]
fn blank_agrees_with_trim() {
    for text in ["", " ", "   \n\t   ", "\u{2028}\u{2029}", " a ", "a", "\u{200b}", " \u{feff}"] {
        assert_eq!(blank(text), text.trim().is_empty(), "{:?}", text);
    }
    assert!(blank(""));
    assert!(blank(" \t\r\n\u{b}\u{c}"));
    assert!(!blank("  x  "));
}

#[test]
fn chars_of_gives_the_characters() {
    assert_eq!(chars_of(""), Vec::<char>::new());
    assert_eq!(chars_of("héllo"), vec!['h', 'é', 'l', 'l', 'o']);
    assert_eq!(chars_of("日本"), vec!['日', '本']);
}

#[test]
fn matches_at_offsets() {
    let text = cs("abcabc");
    assert!(matches_at(&text, &cs("abc"), 0));
    assert!(matches_at(&text, &cs("abc"), 3));
    assert!(!matches_at(&text, &cs("abc"), 1));
    assert!(!matches_at(&text, &cs("abc"), 4));
    assert!(!matches_at(&text, &cs("abc"), 7));
    assert!(!matches_at(&text, &cs("abc"), usize::MAX));
    assert!(matches_at(&text, &cs(""), 6));
    assert!(!matches_at(&text, &cs(""), 7));
    assert!(matches_at(&text, &cs("abcabc"), 0));
    assert!(!matches_at(&text, &cs("abcabcd"), 0));
}

#[test]
fn contains_agrees_with_std() {
    let texts = ["", "a", "abc", "aab", "abab", "xxhttpxx", "日本語", "ab\u{301}c"];
    let needles = ["", "a", "b", "ab", "abc", "bab", "http", "本", "c", "abcd"];
    for text in texts {
        for needle in needles {
            assert_eq!(
                contains(&cs(text), &cs(needle)),
                text.contains(needle),
                "{:?} in {:?}",
                needle,
                text
            );
        }
    }
}

#[test]
fn replace_all_agrees_with_std() {
    let texts = [
        "",
        "{haircut}",
        "a {haircut} b",
        "{haircut}{haircut}",
        "x{haircut}y{haircut}z",
        "{{haircut}}",
        "{haircut",
        "haircut}",
        "no placeholder",
        "aaa",
        "aaaa",
        "日本{haircut}語",
    ];
    let patterns = ["{haircut}", "aa", "a", "b", "日", "haircut"];
    let withs = ["", "bob", "{haircut}", "aa", "é"];
    for text in texts {
        for pattern in patterns {
            for with in withs {
                assert_eq!(
                    replace_all(text, pattern, with),
                    text.replace(pattern, with),
                    "{:?} {:?} {:?}",
                    text,
                    pattern,
                    with
                );
            }
        }
    }
}

#[test]
fn replace_all_exact_values() {
    assert_eq!(replace_all("a {haircut} b", "{haircut}", "bob"), "a bob b");
    assert_eq!(replace_all("aaa", "aa", "b"), "ba");
    assert_eq!(replace_all("aaaa", "aa", "b"), "bb");
    assert_eq!(replace_all("abc", "abcd", "x"), "abc");
    // an empty pattern occurs nowhere
    assert_eq!(replace_all("abc", "", "x"), "abc");
    assert_eq!(replace_all("", "", "x"), "");
    // what was put in is not read again
    assert_eq!(replace_all("ab", "b", "bb"), "abb");
}

#[test]
fn truncate_counts_characters() {
    assert_eq!(truncate("hello", 3), "hel");
    assert_eq!(truncate("hello", 5), "hello");
    assert_eq!(truncate("hello", 6), "hello");
    assert_eq!(truncate("hello", 0), "");
    assert_eq!(truncate("", 0), "");
    assert_eq!(truncate("", 4), "");
    assert_eq!(truncate("héllo", 2), "hé");
    assert_eq!(truncate("日本語", 1), "日");
    assert_eq!(truncate("abc", usize::MAX), "abc");
}
