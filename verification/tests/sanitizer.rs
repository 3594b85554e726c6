use tuleap2gitlab::strings::{chars_of, decimal_string, replace, same_text, string_of};
use tuleap2gitlab::text::sanitize;

fn replaced(text: &str, pat: &str, to: &str) -> String {
    string_of(&replace(&chars_of(text), &chars_of(pat), &chars_of(to)))
}

#[test]
fn escapes_each_markup_control_character() {
    assert_eq!(sanitize("a#b*c_d~e^f"), "a\\#b\\*c\\_d\\~e\\^f");
}

#[test]
fn escapes_every_occurrence() {
    assert_eq!(sanitize("##"), "\\#\\#");
    assert_eq!(sanitize("**bold** and __under__"), "\\*\\*bold\\*\\* and \\_\\_under\\_\\_");
}

#[test]
fn leaves_plain_text_alone() {
    assert_eq!(sanitize(""), "");
    assert_eq!(sanitize("plain text, nothing else."), "plain text, nothing else.");
    assert_eq!(sanitize("r\u{e9}sum\u{e9} \u{2603}"), "r\u{e9}sum\u{e9} \u{2603}");
}

#[test]
fn turns_encoded_line_breaks_into_hard_breaks() {
    assert_eq!(sanitize("one\\r\\ntwo"), "one  \ntwo");
    assert_eq!(sanitize("one\\ntwo"), "one  \ntwo");
    assert_eq!(sanitize("one\\n\\ntwo"), "one  \ntwo");
    assert_eq!(sanitize("one\\n\\n\\ntwo"), "one  \n  \ntwo");
}

#[test]
fn turns_an_encoded_tab_into_a_tab() {
    assert_eq!(sanitize("a\\tb"), "a\tb");
}

#[test]
fn decodes_quotes_and_the_apostrophe_entity() {
    assert_eq!(sanitize("say \\\"hi\\\""), "say \"hi\"");
    assert_eq!(sanitize("it\\'s"), "it's");
    assert_eq!(sanitize("it&#39;s"), "it's");
}

#[test]
fn decodes_before_it_escapes() {
    assert_eq!(sanitize("\\n#"), "  \n\\#");
    assert_eq!(sanitize("a\\t*b*"), "a\t\\*b\\*");
}

#[test]
fn a_second_pass_escapes_again() {
    let once = sanitize("#");
    assert_eq!(once, "\\#");
    assert_eq!(sanitize(&once), "\\\\#");
}

#[test]
fn hands_on_a_backslash_that_encodes_nothing() {
    assert_eq!(sanitize("a\\b"), "a\\b");
    assert_eq!(sanitize("c:\\dir"), "c:\\dir");
}

#[test]
fn actual_line_breaks_are_not_encoded_ones() {
    assert_eq!(sanitize("one\ntwo"), "one\ntwo");
}

#[test]
fn replace_takes_occurrences_from_the_left_without_overlap() {
    assert_eq!(replaced("aaa", "aa", "b"), "ba");
    assert_eq!(replaced("aaaa", "aa", "b"), "bb");
    assert_eq!(replaced("abcabc", "bc", "-"), "a-a-");
}

#[test]
fn replace_does_not_search_what_it_put_in() {
    assert_eq!(replaced("ab", "a", "aa"), "aab");
    assert_eq!(replaced("xx", "x", "xx"), "xxxx");
}

#[test]
fn replace_with_an_absent_or_empty_pattern_changes_nothing() {
    assert_eq!(replaced("hello", "xyz", "!"), "hello");
    assert_eq!(replaced("hello", "", "!"), "hello");
    assert_eq!(replaced("", "a", "b"), "");
    assert_eq!(replaced("ab", "abc", "!"), "ab");
}

#[test]
fn replace_can_delete() {
    assert_eq!(replaced("a-b-c", "-", ""), "abc");
}

#[test]
fn characters_round_trip() {
    let text = "h\u{e9}llo \u{2603} #1";
    assert_eq!(string_of(&chars_of(text)), text);
    assert_eq!(chars_of("ab"), vec!['a', 'b']);
}

#[test]
fn writes_numbers_in_base_ten() {
    assert_eq!(decimal_string(0), "0");
    assert_eq!(decimal_string(7), "7");
    assert_eq!(decimal_string(10), "10");
    assert_eq!(decimal_string(1234567890), "1234567890");
    assert_eq!(decimal_string(u64::MAX), "18446744073709551615");
}

#[test]
fn compares_texts() {
    assert!(same_text("Done", "Done"));
    assert!(!same_text("Done", "done"));
    assert!(!same_text("Done", "Done "));
    assert!(same_text("", ""));
}
