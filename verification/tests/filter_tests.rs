use leadforge::filter;
use leadforge::text::{chars_of, contains, to_lowercase};

#[test]
fn no_keyword_passes_everything() {
    assert!(filter(None, None));
    assert!(filter(Some("Anything"), None));
}

#[test]
fn missing_title_fails_a_keyword() {
    assert!(!filter(None, Some("rust")));
}

#[test]
fn keyword_matches_case_insensitively() {
    assert!(filter(Some("Senior RUST Engineer"), Some("rust")));
    assert!(filter(Some("rustacean wanted"), Some("rust")));
    assert!(!filter(Some("Go Developer"), Some("rust")));
}

#[test]
fn keyword_case_is_ignored() {
    assert!(filter(Some("rust"), Some("Rust")));
    assert!(filter(Some("Rust Developer"), Some("RUST")));
    assert!(filter(Some("Rust Developer"), Some("rUsT dEv")));
    assert!(!filter(Some("Go Developer"), Some("RUST")));
}

#[test]
fn ascii_case_forms_match_alike() {
    let titles = ["Rust Developer", "Senior GO engineer", "remote-first", ""];
    let keywords = [None, Some("rust"), Some("RUST"), Some("Go"), Some("remote"), Some("")];
    for t in titles {
        for k in keywords {
            let expected = filter(Some(t), k);
            assert_eq!(filter(Some(&t.to_ascii_uppercase()), k), expected);
            assert_eq!(filter(Some(&t.to_ascii_lowercase()), k), expected);
            if let Some(k) = k {
                assert_eq!(filter(Some(t), Some(&k.to_ascii_uppercase())), expected);
                assert_eq!(filter(Some(t), Some(&k.to_ascii_lowercase())), expected);
            }
        }
    }
}

#[test]
fn empty_keyword_passes_any_title() {
    assert!(filter(Some(""), Some("")));
    assert!(filter(Some("Roboflow"), Some("")));
}

#[test]
fn unicode_titles_are_lowered() {
    assert!(filter(Some("ÜBER Engineering"), Some("über")));
    assert!(filter(Some("ΣΟΦΊΑ"), Some("σοφ")));
    assert!(filter(Some("über Engineering"), Some("ÜBER")));
}

#[test]
fn substring_search() {
    assert!(contains("hello", "ll"));
    assert!(contains("hello", "hello"));
    assert!(contains("hello", ""));
    assert!(contains("", ""));
    assert!(!contains("", "a"));
    assert!(!contains("hello", "hello!"));
    assert!(!contains("hello", "lo!"));
    assert!(contains("aaab", "aab"));
    assert!(contains("日本語の求人", "求人"));
}

#[test]
fn lowercase_is_std_lowercase() {
    assert_eq!(to_lowercase("Hello WORLD"), "hello world");
    assert_ne!(to_lowercase("ABC"), "ABC");
    assert_eq!(to_lowercase("Mixed-Case 123 ~!"), "mixed-case 123 ~!");
}

#[test]
fn characters_of_text() {
    assert_eq!(chars_of("añb"), vec!['a', 'ñ', 'b']);
    assert_eq!(chars_of(""), Vec::<char>::new());
}
