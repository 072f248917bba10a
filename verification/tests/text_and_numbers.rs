use ts_query_client::numbers::{format_i64, parse_i32, parse_i64};
use ts_query_client::query::{escape_chars, unescape_chars};
use ts_query_client::text::{chars_string, find_sub, split_lines, str_chars, trim_chars};

fn strings_of(vs: Vec<Vec<char>>) -> Vec<String> {
    let mut out: Vec<String> = Vec::new();
    for v in vs.iter() {
        out.push(chars_string(v));
    }
    out
}

#[test]
fn lines_split_and_strip_carriage_returns() {
    let ls = strings_of(split_lines(&str_chars("foo\r\nbar\n\nbaz\r")));
    assert_eq!(ls, vec!["foo", "bar", "", "baz\r"]);
}

#[test]
fn lines_of_status_frame() {
    let ls = strings_of(split_lines(&str_chars("error id=0 msg=ok\n\r")));
    assert_eq!(ls, vec!["error id=0 msg=ok", "\r"]);
}

#[test]
fn lines_of_empty_text() {
    assert!(split_lines(&str_chars("")).is_empty());
}

#[test]
fn trim_removes_protocol_whitespace() {
    assert_eq!(chars_string(&trim_chars(&str_chars("  \ta b\r\n"))), "a b");
    assert_eq!(chars_string(&trim_chars(&str_chars(" \r\n\t "))), "");
}

#[test]
fn find_sub_first_occurrence() {
    let hay = str_chars("one error id= two error id=");
    let needle = str_chars("error id=");
    assert_eq!(find_sub(&hay, &needle, 0), Some(4));
    assert_eq!(find_sub(&hay, &needle, 5), Some(18));
    assert_eq!(find_sub(&hay, &str_chars("zzz"), 0), None);
}

#[test]
fn escape_round_trip() {
    let s = "a b\\c/d";
    let esc = escape_chars(&str_chars(s));
    assert_eq!(chars_string(&esc), "a\\sb\\\\c\\/d");
    let back = unescape_chars(&esc);
    assert_eq!(chars_string(&back), s);
}

#[test]
fn unescape_keeps_unknown_pairs() {
    assert_eq!(chars_string(&unescape_chars(&str_chars("a\\qb\\"))), "a\\qb\\");
}

#[test]
fn parse_decimal_integers() {
    assert_eq!(parse_i64(&str_chars("-42")), Some(-42));
    assert_eq!(parse_i64(&str_chars("0")), Some(0));
    assert_eq!(parse_i64(&str_chars("9223372036854775807")), Some(i64::MAX));
    assert_eq!(parse_i64(&str_chars("9223372036854775808")), None);
    assert_eq!(parse_i64(&str_chars("12a")), None);
    assert_eq!(parse_i64(&str_chars("")), None);
    assert_eq!(parse_i64(&str_chars("-")), None);
}

#[test]
fn parse_i32_respects_range() {
    assert_eq!(parse_i32(&str_chars("2147483647")), Some(i32::MAX));
    assert_eq!(parse_i32(&str_chars("2147483648")), None);
    assert_eq!(parse_i32(&str_chars("-2147483648")), Some(i32::MIN));
    assert_eq!(parse_i32(&str_chars("-2147483649")), None);
}

#[test]
fn parse_i64_full_range() {
    assert_eq!(parse_i64(&str_chars("-9223372036854775808")), Some(i64::MIN));
    assert_eq!(parse_i64(&str_chars("-9223372036854775809")), None);
}

#[test]
fn format_decimal_integers() {
    assert_eq!(chars_string(&format_i64(0)), "0");
    assert_eq!(chars_string(&format_i64(-307)), "-307");
    assert_eq!(chars_string(&format_i64(i64::MAX)), "9223372036854775807");
    assert_eq!(chars_string(&format_i64(i64::MIN)), "-9223372036854775808");
}
