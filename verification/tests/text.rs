use vmc::text::{
    chars_of, cutoff_prefix, find_char, replace_char, same_text, split, starts_with,
};

#[test]
fn chars_of_keeps_every_character() {
    assert_eq!(chars_of("aé%"), vec!['a', 'é', '%']);
    assert_eq!(chars_of(""), vec![]);
}

#[test]
fn same_text_compares_characters() {
    assert!(same_text("", ""));
    assert!(same_text("alpha", "alpha"));
    assert!(!same_text("alpha", "alphb"));
    assert!(!same_text("alpha", "alph"));
}

#[test]
fn starts_with_tests_the_start() {
    assert!(starts_with("192.168.1.5/24", "192.168."));
    assert!(starts_with("abc", ""));
    assert!(starts_with("abc", "abc"));
    assert!(!starts_with("abc", "abcd"));
    assert!(!starts_with("abc", "b"));
}

#[test]
fn find_char_gives_the_first_place() {
    assert_eq!(find_char("fe80::1%eth0%x", '%'), Some(7));
    assert_eq!(find_char("%", '%'), Some(0));
    assert_eq!(find_char("fe80::1", '%'), None);
    assert_eq!(find_char("", '%'), None);
    assert_eq!(find_char("é%", '%'), Some(1));
}

#[test]
fn split_keeps_empty_pieces() {
    assert_eq!(split("a b", ' '), vec!["a", "b"]);
    assert_eq!(split("  a  b ", ' '), vec!["", "", "a", "", "b", ""]);
    assert_eq!(split("", ' '), vec![""]);
    assert_eq!(split("abc", ' '), vec!["abc"]);
    assert_eq!(split(" ", ' '), vec!["", ""]);
}

#[test]
fn split_agrees_with_std() {
    for text in ["inet 10.0.0.7/24 brd 10.0.0.255 scope global eth0\n", "x\ny\n\nz", "é è"] {
        for sep in [' ', '\n'] {
            let expected: Vec<String> = text.split(sep).map(|s| s.to_string()).collect();
            assert_eq!(split(text, sep), expected);
        }
    }
}

#[test]
fn replace_char_replaces_each_occurrence() {
    assert_eq!(replace_char("a/b//c", '/', "\\"), "a\\b\\\\c");
    assert_eq!(replace_char("/", '/', "xy"), "xy");
    assert_eq!(replace_char("abc", '/', "\\"), "abc");
    assert_eq!(replace_char("", '/', "\\"), "");
    assert_eq!(replace_char("~/a~", '~', "/home/u"), "/home/u/a/home/u");
    assert_eq!(replace_char("a/b", '/', ""), "ab");
}

#[test]
fn cutoff_prefix_strips_only_a_prefix() {
    assert_eq!(cutoff_prefix("/mnt/share/a/b", "/mnt/share"), "/a/b");
    assert_eq!(cutoff_prefix("/mnt/share", "/mnt/share"), "");
    assert_eq!(cutoff_prefix("/other/a", "/mnt/share"), "/other/a");
    assert_eq!(cutoff_prefix("abc", ""), "abc");
    assert_eq!(cutoff_prefix("ab", "abc"), "ab");
}
