use nttp::block::{parse_header_block, parse_header_text, to_wide_string};
use nttp::error::Error;

fn wide(text: &str) -> Vec<u16> {
    text.encode_utf16().collect()
}

#[test]
fn wide_string_ends_in_zero() {
    assert_eq!(to_wide_string("nttp"), vec![110, 116, 116, 112, 0]);
    assert_eq!(to_wide_string(""), vec![0]);
    assert_eq!(to_wide_string("\u{e4}"), vec![0xe4, 0]);
    assert_eq!(to_wide_string("\u{1f370}"), vec![0xd83c, 0xdf70, 0]);
}

#[test]
fn block_of_the_scenario() {
    let raw = wide(
        "HTTP/1.1 404 NOT FOUND\r\nHead-Res: response\r\nHeader: res\r\nContent-Length: 3\r\n\r\n\0",
    );
    let headers = parse_header_block(&raw).unwrap();
    assert_eq!(headers.len(), 3);
    assert_eq!(headers.get("Head-Res"), Some("response"));
    assert_eq!(headers.get("Header"), Some("res"));
    assert_eq!(headers.get("Content-Length"), Some("3"));
}

#[test]
fn status_line_is_passed_over_even_with_a_separator() {
    let headers = parse_header_text("A: b\r\nC: d\r\n").unwrap();
    assert_eq!(headers.len(), 1);
    assert_eq!(headers.get("C"), Some("d"));
    assert_eq!(headers.get("A"), None);
}

#[test]
fn empty_block_has_no_headers() {
    assert_eq!(parse_header_text("").unwrap().len(), 0);
    assert_eq!(parse_header_text("HTTP/1.1 200 OK").unwrap().len(), 0);
    assert_eq!(parse_header_text("HTTP/1.1 200 OK\r\n\r\n").unwrap().len(), 0);
    assert_eq!(parse_header_block(&[]).unwrap().len(), 0);
}

#[test]
fn line_without_separator_makes_the_block_invalid() {
    assert_eq!(
        parse_header_text("HTTP/1.1 200 OK\r\nA: b\r\ngarbage\r\nC: d\r\n").unwrap_err(),
        Error::InvalidHeader
    );
    assert_eq!(
        parse_header_text("HTTP/1.1 200 OK\r\nA:b\r\n").unwrap_err(),
        Error::InvalidHeader
    );
    assert_eq!(
        parse_header_text("HTTP/1.1 200 OK\r\n\0\0\r\n").unwrap_err(),
        Error::InvalidHeader
    );
}

#[test]
fn ill_formed_units_make_the_block_invalid() {
    let mut raw = wide("HTTP/1.1 200 OK\r\nA: b");
    raw.push(0xd800);
    raw.extend(wide("\r\n"));
    assert_eq!(parse_header_block(&raw).unwrap_err(), Error::InvalidHeader);
    assert_eq!(parse_header_block(&[0xdc00]).unwrap_err(), Error::InvalidHeader);
}

#[test]
fn bare_line_feeds_end_lines_too() {
    let headers = parse_header_text("HTTP/1.1 200 OK\nA: b\nC: d").unwrap();
    assert_eq!(headers.len(), 2);
    assert_eq!(headers.get("A"), Some("b"));
    assert_eq!(headers.get("C"), Some("d"));
}

#[test]
fn carriage_return_without_line_feed_stays_in_the_value() {
    let headers = parse_header_text("HTTP/1.1 200 OK\r\nA: b\r").unwrap();
    assert_eq!(headers.get("A"), Some("b\r"));
}

#[test]
fn block_values_keep_their_text() {
    let raw = wide("HTTP/1.1 200 OK\r\nStra\u{df}e: K\u{e4}se \u{1f370}\r\nA: x: y\r\nA: z\r\n");
    let headers = parse_header_block(&raw).unwrap();
    assert_eq!(headers.get("Stra\u{df}e"), Some("K\u{e4}se \u{1f370}"));
    assert_eq!(headers.get("A"), Some("z"));
    assert_eq!(headers.len(), 2);
}
