use edge_proxy::pattern::segments_of;
use edge_proxy::text::{chars_of, join_with_slash, push_decimal, split_on_slash};

fn decimal_of(n: u64) -> String {
    let mut out = String::new();
    push_decimal(&mut out, n);
    out
}

fn strings(items: &[&str]) -> Vec<String> {
    items.iter().map(|s| s.to_string()).collect()
}

#[test]
fn decimal_of_zero_is_one_digit() {
    assert_eq!(decimal_of(0), "0");
}

#[test]
fn decimal_of_single_digits() {
    assert_eq!(decimal_of(7), "7");
    assert_eq!(decimal_of(9), "9");
}

#[test]
fn decimal_of_round_numbers() {
    assert_eq!(decimal_of(10), "10");
    assert_eq!(decimal_of(100), "100");
    assert_eq!(decimal_of(1000), "1000");
}

#[test]
fn decimal_of_largest_value() {
    assert_eq!(decimal_of(u64::MAX), "18446744073709551615");
}

#[test]
fn decimal_agrees_with_std_formatting() {
    for n in [1u64, 12, 123, 4096, 65535, 99999, 1234567890, 9007199254740993] {
        assert_eq!(decimal_of(n), n.to_string());
    }
}

#[test]
fn push_decimal_appends_to_what_is_there() {
    let mut out = String::from("n=");
    push_decimal(&mut out, 42);
    assert_eq!(out, "n=42");
}

#[test]
fn chars_of_keeps_order_and_unicode() {
    assert_eq!(chars_of("a/ж"), vec!['a', '/', 'ж']);
    assert_eq!(chars_of(""), Vec::<char>::new());
}

#[test]
fn split_of_empty_text_is_one_empty_piece() {
    assert_eq!(split_on_slash(""), strings(&[""]));
}

#[test]
fn split_keeps_empty_pieces() {
    let text = "/a//b/";
    assert_eq!(split_on_slash(text), strings(&["", "a", "", "b", ""]));
}

#[test]
fn split_of_text_without_slash_is_the_text() {
    assert_eq!(split_on_slash("users"), strings(&["users"]));
}

#[test]
fn split_of_plain_path() {
    assert_eq!(split_on_slash("/users/42"), strings(&["", "users", "42"]));
}

#[test]
fn split_counts_characters_not_bytes() {
    assert_eq!(split_on_slash("/жук/é"), strings(&["", "жук", "é"]));
}

#[test]
fn join_puts_one_slash_between_pieces() {
    assert_eq!(join_with_slash(&strings(&["a", "b", "c"])), "a/b/c");
    assert_eq!(join_with_slash(&strings(&["c"])), "c");
    assert_eq!(join_with_slash(&strings(&[])), "");
}

#[test]
fn join_keeps_empty_pieces() {
    let pieces = strings(&["", "a", "", ""]);
    assert_eq!(join_with_slash(&pieces), "/a//");
}

#[test]
fn join_undoes_split() {
    for text in ["", "/", "a", "/a/b", "a//b/", "///", "/users/42/test"] {
        let pieces = split_on_slash(text);
        assert_eq!(join_with_slash(&pieces), text);
    }
}

#[test]
fn split_undoes_join() {
    let pieces = strings(&["users", "42", "test"]);
    let joined = join_with_slash(&pieces);
    assert_eq!(split_on_slash(&joined), pieces);
}

#[test]
fn segments_of_root_are_none_at_all() {
    assert_eq!(segments_of("/"), Some(Vec::<String>::new()));
}

#[test]
fn segments_of_plain_path() {
    assert_eq!(segments_of("/users/42"), Some(strings(&["users", "42"])));
}

#[test]
fn segments_ignore_one_trailing_slash() {
    assert_eq!(segments_of("/users/42/"), Some(strings(&["users", "42"])));
    assert_eq!(segments_of("/users/42//"), Some(strings(&["users", "42", ""])));
}

#[test]
fn segments_keep_empty_middle_segment() {
    assert_eq!(segments_of("/users//test"), Some(strings(&["users", "", "test"])));
    assert_eq!(segments_of("//"), Some(strings(&[""])));
}

#[test]
fn segments_need_a_leading_slash() {
    assert_eq!(segments_of(""), None);
    assert_eq!(segments_of("users/42"), None);
    assert_eq!(segments_of("*"), None);
}
