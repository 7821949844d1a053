use nullslate::text::{chars_of, replace, starts_with, str_eq};

#[test]
fn str_eq_compares_characters() {
    assert!(str_eq("docs", "docs"));
    assert!(str_eq("", ""));
    assert!(!str_eq("docs", "doc"));
    assert!(!str_eq("doc", "docs"));
    assert!(!str_eq("docs", "dogs"));
    assert!(str_eq("naïve → ok", "naïve → ok"));
    assert!(!str_eq("naïve", "naive"));
    assert!(!str_eq("é", "e\u{301}"));
}

#[test]
fn starts_with_is_a_prefix_test() {
    assert!(starts_with("docs/page.md", "docs"));
    assert!(starts_with("docs", "docs"));
    assert!(starts_with("docs", ""));
    assert!(starts_with("", ""));
    assert!(!starts_with("doc", "docs"));
    assert!(!starts_with("", "d"));
    assert!(!starts_with("xdocs", "docs"));
    assert!(starts_with("éa", "é"));
    assert!(!starts_with("é", "e"));
    assert!(!starts_with("→x", "↑"));
    assert!(starts_with("日本語/a", "日本"));
}

#[test]
fn starts_with_agrees_with_std() {
    let texts = ["", "a", "ab", "abc", "é", "éa", "aé", "日本語", "a/b", "ab/c"];
    for text in texts {
        for prefix in texts {
            assert_eq!(starts_with(text, prefix), text.starts_with(prefix), "{text:?} {prefix:?}");
            assert_eq!(str_eq(text, prefix), text == prefix, "{text:?} {prefix:?}");
        }
    }
}

#[test]
fn chars_of_gives_every_character() {
    assert_eq!(chars_of(""), Vec::<char>::new());
    assert_eq!(chars_of("a→é"), vec!['a', '→', 'é']);
}

#[test]
fn replace_goes_from_left_to_right() {
    assert_eq!(replace("aaaa", "aa", "b"), "bb");
    assert_eq!(replace("aaa", "aa", "b"), "ba");
    assert_eq!(replace("ababab", "aba", "x"), "xbab");
    assert_eq!(replace("日本語", "本", "-"), "日-語");
    assert_eq!(replace("abc", "c", "cc"), "abcc");
    assert_eq!(replace("abc", "", "x"), "abc");
    assert_eq!(replace("", "a", "x"), "");
}

#[test]
fn replace_agrees_with_std_for_a_pattern_that_is_not_empty() {
    let texts = ["", "a", "aa", "aaa", "abab", "ab/ab", "{{x}}{{x}}", "é→é"];
    let patterns = ["a", "aa", "ab", "{{x}}", "é", "→é"];
    for text in texts {
        for pattern in patterns {
            for to in ["", "x", "aa", pattern] {
                assert_eq!(replace(text, pattern, to), text.replace(pattern, to));
            }
        }
    }
}
