use anime_cli::text::{
    begins_with, chars_of, has_at, holds, position_of, same_text, string_of, string_of_range,
    stripped, trimmed_ends_with, trimmed_length,
};

fn chars(s: &str) -> Vec<char> {
    s.chars().collect()
}

#[test]
fn converts_both_ways() {
    assert_eq!(chars_of("a\u{e9}\u{1f600}z"), vec!['a', '\u{e9}', '\u{1f600}', 'z']);
    assert_eq!(chars_of(""), Vec::<char>::new());
    assert_eq!(string_of(&chars("h\u{e9}llo")), "h\u{e9}llo");
    assert_eq!(string_of_range(&chars("abcdef"), 2, 4), "cd");
    assert_eq!(string_of_range(&chars("abcdef"), 3, 3), "");
}

#[test]
fn finds_the_first_occurrence() {
    assert_eq!(position_of(&chars("abcabc"), &chars("bc")), Some(1));
    assert_eq!(position_of(&chars("abcabc"), &chars("abc")), Some(0));
    assert_eq!(position_of(&chars("abcabc"), &chars("cab")), Some(2));
    assert_eq!(position_of(&chars("abc"), &chars("abcd")), None);
    assert_eq!(position_of(&chars("abc"), &chars("x")), None);
    assert_eq!(position_of(&chars("abc"), &chars("")), Some(0));
    assert_eq!(position_of(&chars(""), &chars("")), Some(0));
    assert_eq!(position_of(&chars("aab"), &chars("ab")), Some(1));
}

#[test]
fn tests_for_a_pattern_at_an_index() {
    assert!(has_at(&chars("hello"), &chars("ell"), 1));
    assert!(!has_at(&chars("hello"), &chars("ell"), 2));
    assert!(!has_at(&chars("hello"), &chars("lo"), 4));
    assert!(has_at(&chars("hello"), &chars(""), 5));
    assert!(!has_at(&chars("hello"), &chars(""), 6));
    assert!(holds(&chars("x JOIN :#nibl"), &chars("JOIN :#")));
    assert!(!holds(&chars("x JOIN #nibl"), &chars("JOIN :#")));
    assert!(begins_with(&chars("PING :x"), &chars("PING :")));
    assert!(!begins_with(&chars(" PING :x"), &chars("PING :")));
}

#[test]
fn trims_trailing_blanks_only() {
    assert_eq!(trimmed_length(&chars("abc \t\r\n")), 3);
    assert_eq!(trimmed_length(&chars("  abc")), 5);
    assert_eq!(trimmed_length(&chars(" \n")), 0);
    assert_eq!(trimmed_length(&chars("")), 0);
    assert!(trimmed_ends_with(&chars("say hi\r\n"), &chars(" hi")));
    assert!(!trimmed_ends_with(&chars("say hi!\r\n"), &chars(" hi")));
    assert!(!trimmed_ends_with(&chars("hi"), &chars(" hi")));
    assert!(trimmed_ends_with(&chars("hi"), &chars("")));
}

#[test]
fn strips_a_character_at_both_ends() {
    assert_eq!(stripped(&chars("\"ep1.mkv\""), '"'), "ep1.mkv");
    assert_eq!(stripped(&chars("ep1.mkv\""), '"'), "ep1.mkv");
    assert_eq!(stripped(&chars("ep1.mkv"), '"'), "ep1.mkv");
    assert_eq!(stripped(&chars("\"\"a\"b\"\""), '"'), "a\"b");
    assert_eq!(stripped(&chars("\"\"\""), '"'), "");
    assert_eq!(stripped(&chars(""), '"'), "");
}

#[test]
fn tells_equal_texts() {
    assert!(same_text("OK", "OK"));
    assert!(!same_text("OK", "ok"));
    assert!(!same_text("OK", "OKK"));
    assert!(!same_text("OKK", "OK"));
    assert!(same_text("", ""));
}
