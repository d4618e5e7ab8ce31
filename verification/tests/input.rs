use game_of_life::input::{read_coords, read_time};
use game_of_life::utils::{from_simple, str_repeat};
use game_of_life::{parse_time, parse_to_tuple, time_of_args};
use std::time::Duration;

fn args(list: &[&str]) -> std::vec::IntoIter<String> {
    let owned: Vec<String> = list.iter().map(|s| s.to_string()).collect();
    owned.into_iter()
}

#[test]
fn seed_line_parses_to_a_position() {
    assert_eq!(parse_to_tuple("3,4"), Some((3, 4)));
}

#[test]
fn seed_line_that_is_no_position() {
    assert_eq!(parse_to_tuple("abc"), None);
    assert_eq!(parse_to_tuple(""), None);
    assert_eq!(parse_to_tuple("   "), None);
    assert_eq!(parse_to_tuple(","), None);
    assert_eq!(parse_to_tuple("3"), None);
    assert_eq!(parse_to_tuple("3,"), None);
    assert_eq!(parse_to_tuple(",4"), None);
    assert_eq!(parse_to_tuple("-3,4"), None);
    assert_eq!(parse_to_tuple("3.5,4"), None);
}

#[test]
fn seed_line_is_trimmed() {
    assert_eq!(parse_to_tuple("3,4\n"), Some((3, 4)));
    assert_eq!(parse_to_tuple("  12,0\r\n"), Some((12, 0)));
    assert_eq!(parse_to_tuple("\t7,8 "), Some((7, 8)));
    assert_eq!(parse_to_tuple("\u{3000}7,8\u{a0}"), Some((7, 8)));
}

#[test]
fn untrimmed_text_is_no_position() {
    assert_eq!(read_coords("3,4"), Some((3, 4)));
    assert_eq!(read_coords(" 3,4"), None);
    assert_eq!(read_coords("3,4\n"), None);
}

#[test]
fn whitespace_inside_the_line_is_not_trimmed() {
    assert_eq!(parse_to_tuple("3, 4"), None);
    assert_eq!(parse_to_tuple("3 ,4"), None);
}

#[test]
fn line_of_another_form_is_no_position() {
    assert_eq!(parse_to_tuple("x,3,4"), None);
    assert_eq!(parse_to_tuple("3,4,5"), None);
    assert_eq!(parse_to_tuple("a,3,4"), None);
    assert_eq!(parse_to_tuple("3,,4"), None);
    assert_eq!(parse_to_tuple("3,x,4,y,5"), None);
    assert_eq!(parse_to_tuple(",,1,,2,,"), None);
    assert_eq!(parse_to_tuple("3,4,"), None);
    assert_eq!(parse_to_tuple(",3,4"), None);
    assert_eq!(parse_to_tuple("3,x"), None);
    assert_eq!(parse_to_tuple("x,4"), None);
    assert_eq!(read_coords("x,3,4"), None);
    assert_eq!(read_coords("3,4,5"), None);
}

#[test]
fn numbers_may_carry_a_plus_and_leading_zeros() {
    assert_eq!(parse_to_tuple("+3,004"), Some((3, 4)));
    assert_eq!(parse_to_tuple("+,4"), None);
    assert_eq!(parse_to_tuple("++3,4"), None);
    assert_eq!(parse_to_tuple("3+,4"), None);
    assert_eq!(parse_to_tuple("0,0"), Some((0, 0)));
}

#[test]
fn numbers_up_to_the_largest_usize() {
    let largest = usize::MAX.to_string();
    assert_eq!(parse_to_tuple(&format!("{},1", largest)), Some((usize::MAX, 1)));
    assert_eq!(parse_to_tuple("340282366920938463463374607431768211456,1"), None);
    assert_eq!(parse_to_tuple("340282366920938463463374607431768211456,1,2"), None);
    assert_eq!(parse_to_tuple("1,340282366920938463463374607431768211456"), None);
}

#[test]
fn time_is_the_second_argument_in_milliseconds() {
    assert_eq!(parse_time(args(&["life", "250"])), Some(Duration::from_millis(250)));
    assert_eq!(parse_time(args(&["life", "0"])), Some(Duration::from_millis(0)));
    assert_eq!(parse_time(args(&["life", "1500", "7"])), Some(Duration::from_millis(1500)));
    assert_eq!(parse_time(args(&["life", "+20"])), Some(Duration::from_millis(20)));
    assert_eq!(
        parse_time(args(&["life", "18446744073709551615"])),
        Some(Duration::from_millis(u64::MAX))
    );
}

fn list(items: &[&str]) -> Vec<String> {
    items.iter().map(|s| s.to_string()).collect()
}

#[test]
fn time_from_a_list_of_arguments() {
    assert_eq!(time_of_args(&list(&["life", "250"])), Some(Duration::from_millis(250)));
    assert_eq!(time_of_args(&list(&["life", "1500", "7"])), Some(Duration::from_millis(1500)));
    assert_eq!(time_of_args(&list(&[])), None);
    assert_eq!(time_of_args(&list(&["life"])), None);
    assert_eq!(time_of_args(&list(&["life", "soon"])), None);
    assert_eq!(time_of_args(&list(&["250", "life"])), None);
    assert_eq!(time_of_args(&list(&["life", "18446744073709551616"])), None);
}

#[test]
fn text_names_a_span_of_time() {
    assert_eq!(read_time("250"), Some(Duration::from_millis(250)));
    assert_eq!(read_time("007"), Some(Duration::from_millis(7)));
    assert_eq!(read_time("1000"), Some(Duration::from_secs(1)));
    assert_eq!(read_time(""), None);
    assert_eq!(read_time("+"), None);
    assert_eq!(read_time("25 0"), None);
    assert_eq!(read_time("250ms"), None);
    assert_eq!(read_time("1_000"), None);
}

#[test]
fn time_is_absent_without_a_number() {
    assert_eq!(parse_time(args(&[])), None);
    assert_eq!(parse_time(args(&["life"])), None);
    assert_eq!(parse_time(args(&["life", "soon"])), None);
    assert_eq!(parse_time(args(&["life", ""])), None);
    assert_eq!(parse_time(args(&["life", "-5"])), None);
    assert_eq!(parse_time(args(&["life", " 5"])), None);
    assert_eq!(parse_time(args(&["life", "1.5"])), None);
    assert_eq!(parse_time(args(&["250", "life"])), None);
    assert_eq!(parse_time(args(&["life", "18446744073709551616"])), None);
}

#[test]
fn str_repeat_writes_the_base_once_more_than_asked() {
    assert_eq!(str_repeat("ab", 0), "ab");
    assert_eq!(str_repeat("ab", 2), "ababab");
    assert_eq!(str_repeat("-", 4), "-----");
    assert_eq!(str_repeat("", 3), "");
}

#[test]
fn from_simple_divides_the_index() {
    assert_eq!(from_simple(0, 3), (0, 0));
    assert_eq!(from_simple(7, 3), (2, 1));
    assert_eq!(from_simple(8, 3), (2, 2));
    assert_eq!(from_simple(9, 3), (3, 0));
    assert_eq!(from_simple(5, 1), (5, 0));
    assert_eq!(from_simple(usize::MAX, usize::MAX), (1, 0));
}
