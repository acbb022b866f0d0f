use file_sweep::path::join;
use file_sweep::text::{chars_of, contains, contains_chars, matches_at};

#[test]
fn contains_finds_a_pattern_anywhere_in_the_name() {
    assert!(contains("report.txt", "rep"));
    assert!(contains("report.txt", "port"));
    assert!(contains("report.txt", ".txt"));
    assert!(contains("report.txt", "report.txt"));
}

#[test]
fn contains_rejects_a_pattern_that_is_absent() {
    assert!(!contains("report.txt", "log"));
    assert!(!contains("report.txt", "report.txt.bak"));
    assert!(!contains("b.log", "a"));
    assert!(!contains("aab", "aba"));
}

#[test]
fn contains_is_case_sensitive() {
    assert!(!contains("Report.txt", "report"));
    assert!(contains("Report.txt", "Report"));
}

#[test]
fn contains_takes_wildcards_literally() {
    assert!(!contains("abc", "a.c"));
    assert!(!contains("abc", "*"));
    assert!(contains("a*c", "*"));
    assert!(contains("a.c", "a.c"));
}

#[test]
fn empty_pattern_is_contained_in_every_name() {
    assert!(contains("x", ""));
    assert!(contains("", ""));
    assert!(contains("some file.tar.gz", ""));
}

#[test]
fn nothing_but_the_empty_pattern_is_contained_in_the_empty_name() {
    assert!(!contains("", "a"));
}

#[test]
fn contains_agrees_with_std_on_many_pairs() {
    let texts = ["", "a", "ab", "aab", "abab", "ababc", "naïve.txt", "日本語.log", "a/b", "aaa"];
    let patterns = ["", "a", "b", "ab", "ba", "abc", "aa", "ï", "本語", "語.", "/", "aaaa"];
    for t in texts.iter() {
        for p in patterns.iter() {
            assert_eq!(contains(t, p), t.contains(p), "text {:?}, pattern {:?}", t, p);
        }
    }
}

#[test]
fn contains_backs_up_after_a_partial_match() {
    assert!(contains("aaab", "aab"));
    assert!(contains("abababc", "ababc"));
}

#[test]
fn chars_of_gives_the_characters_in_order() {
    assert_eq!(chars_of("añb"), vec!['a', 'ñ', 'b']);
    assert_eq!(chars_of(""), Vec::<char>::new());
}

#[test]
fn matches_at_tests_one_position() {
    let text = chars_of("abcabc");
    let pattern = chars_of("bc");
    assert!(!matches_at(&text, &pattern, 0));
    assert!(matches_at(&text, &pattern, 1));
    assert!(matches_at(&text, &pattern, 4));
    assert!(matches_at(&text, &chars_of(""), 6));
}

#[test]
fn contains_chars_finds_a_match_at_the_last_position() {
    assert!(contains_chars(&chars_of("xxab"), &chars_of("ab")));
    assert!(!contains_chars(&chars_of("xxa"), &chars_of("ab")));
}

#[test]
fn join_puts_one_separator_between_directory_and_name() {
    assert_eq!(join("root", "a.txt"), "root/a.txt");
    assert_eq!(join("root/sub", "a.txt"), "root/sub/a.txt");
    assert_eq!(join(".", "a.txt"), "./a.txt");
}

#[test]
fn join_adds_no_separator_after_one() {
    assert_eq!(join("out/", "a.txt"), "out/a.txt");
    assert_eq!(join("/", "a.txt"), "/a.txt");
}

#[test]
fn join_with_the_empty_directory_is_the_name() {
    assert_eq!(join("", "a.txt"), "a.txt");
}

#[test]
fn join_agrees_with_std_paths_on_base_names() {
    let dirs = ["", ".", "root", "root/", "/", "/tmp/x", "a b/ç"];
    let names = ["a.txt", "x", "ün.log", ".hidden"];
    for d in dirs.iter() {
        for n in names.iter() {
            let expected = std::path::Path::new(d).join(n);
            assert_eq!(join(d, n), expected.to_str().unwrap());
        }
    }
}
