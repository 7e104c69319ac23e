use guessfs_indexer::text::{
    chars_end_with, chars_equal, chars_start_with, from_chars, join, lower_char, lower_chars,
    same_text, split, to_chars,
};

fn text_strings(items: &[&str]) -> Vec<String> {
    items.iter().map(|s| s.to_string()).collect()
}

#[test]
fn chars_round_trip() {
    let chars = to_chars("aé日");
    assert_eq!(chars, vec!['a', 'é', '日']);
    assert_eq!(from_chars(&chars), "aé日");
    assert_eq!(from_chars(&Vec::new()), "");
}

#[test]
fn prefix_and_suffix_of_characters() {
    let text = to_chars("hello");
    assert!(chars_start_with(&text, &to_chars("he")));
    assert!(!chars_start_with(&text, &to_chars("lo")));
    assert!(chars_end_with(&text, &to_chars("lo")));
    assert!(!chars_end_with(&text, &to_chars("he")));
    assert!(chars_start_with(&text, &to_chars("")));
    assert!(chars_end_with(&text, &to_chars("")));
    assert!(chars_start_with(&text, &text));
    assert!(chars_end_with(&text, &text));
    assert!(!chars_start_with(&text, &to_chars("hello!")));
    assert!(!chars_end_with(&text, &to_chars("!hello")));
    assert!(chars_start_with(&to_chars("日本語"), &to_chars("日")));
    assert!(chars_end_with(&to_chars("日本語"), &to_chars("語")));
    assert!(chars_equal(&text, &to_chars("hello")));
    assert!(!chars_equal(&text, &to_chars("hellO")));
    assert!(!chars_equal(&text, &to_chars("hell")));
}

#[test]
fn ascii_case_folding() {
    assert_eq!(lower_char('A'), 'a');
    assert_eq!(lower_char('Z'), 'z');
    assert_eq!(lower_char('a'), 'a');
    assert_eq!(lower_char('['), '[');
    assert_eq!(lower_char('@'), '@');
    assert_eq!(lower_char('É'), 'É');
    assert_eq!(lower_chars(&to_chars("TeMp.TMP")), to_chars("temp.tmp"));
}

#[test]
fn joining_puts_the_separator_between_neighbours() {
    assert_eq!(join(&text_strings(&[]), ","), "");
    assert_eq!(join(&text_strings(&["files"]), ","), "files");
    assert_eq!(join(&text_strings(&["files", "dirs"]), ","), "files,dirs");
    assert_eq!(join(&text_strings(&["a", "", "c"]), ", "), "a, , c");
}

#[test]
fn splitting_cuts_at_every_separator() {
    assert_eq!(split("", ','), text_strings(&[""]));
    assert_eq!(split("files", ','), text_strings(&["files"]));
    assert_eq!(split("files,dirs", ','), text_strings(&["files", "dirs"]));
    assert_eq!(split(",a,,b,", ','), text_strings(&["", "a", "", "b", ""]));
}

#[test]
fn split_then_join_gives_the_text_back() {
    for text in ["", "a", "a,b", ",,", "hidden,system,temp"] {
        assert_eq!(join(&split(text, ','), ","), text);
    }
}

#[test]
fn same_text_compares_characters() {
    assert!(same_text("", ""));
    assert!(same_text("secret", "secret"));
    assert!(!same_text("secret", "Secret"));
    assert!(!same_text("secret", "secrets"));
}
