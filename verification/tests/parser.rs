use es_wifi::parser::{
    close_response, connect_response, ends_with, find, is_framed, join_response, only_digits,
    read_response, starts_with, write_response, ReadResponse, WriteResponse, CONNECT_HEAD, CRLF,
    DONE, FAILED, JOIN_HEAD, JOIN_TAIL, MINUS_ONE,
};
use es_wifi::protocol::Response;

fn joined(reply: &[u8]) -> Option<Vec<u8>> {
    match join_response(reply) {
        Some(Response::Joined(name)) => Some(name.as_bytes().to_vec()),
        _ => None,
    }
}

fn is_error(response: Option<Response>) -> bool {
    matches!(response, Some(Response::Error()))
}

fn is_success(response: Option<Response>) -> bool {
    matches!(response, Some(Response::Success()))
}

fn written(reply: &[u8]) -> Option<usize> {
    match write_response(reply) {
        Some(WriteResponse::Written(count)) => Some(count),
        _ => None,
    }
}

fn data(reply: &[u8]) -> Option<Vec<u8>> {
    match read_response(reply) {
        Some(ReadResponse::Data(bytes)) => Some(bytes.to_vec()),
        _ => None,
    }
}

#[test]
fn tags_spell_their_text() {
    assert_eq!(&CRLF, b"\r\n");
    assert_eq!(&DONE, b"\r\nOK\r\n> ");
    assert_eq!(&FAILED, b"ERROR\r\n> ");
    assert_eq!(&JOIN_HEAD, b"\r\n[JOIN   ] ");
    assert_eq!(&JOIN_TAIL, b",0,0\r\nOK\r\n> ");
    assert_eq!(&CONNECT_HEAD, b"\r\n[TCP  RC] Connecting to ");
    assert_eq!(&MINUS_ONE, b"-1");
}

#[test]
fn join_ok_yields_the_ssid() {
    let reply = b"\r\n[JOIN   ] myssid,1.2.3.4,0,0\r\nOK\r\n> ";
    assert_eq!(joined(reply), Some(b"myssid".to_vec()));
}

#[test]
fn join_ok_with_another_network() {
    let reply = b"\r\n[JOIN   ] drogue,192.168.1.174,0,0\r\nOK\r\n> ";
    assert_eq!(joined(reply), Some(b"drogue".to_vec()));
}

#[test]
fn join_ok_with_empty_fields() {
    assert_eq!(joined(b"\r\n[JOIN   ] ,,0,0\r\nOK\r\n> "), Some(Vec::new()));
}

#[test]
fn join_error_before_the_prompt() {
    assert!(is_error(join_response(b"\r\n[JOIN   ] myssid\r\n[JOIN   ] Failed\r\nERROR\r\n> ")));
    assert!(is_error(join_response(b"\r\nERROR\r\n> ")));
    assert!(is_error(join_response(b"ERROR\r\n> ")));
}

#[test]
fn join_reply_that_matches_nothing() {
    assert!(join_response(b"").is_none());
    assert!(join_response(b"\r\nOK\r\n> ").is_none());
    assert!(join_response(b"\r\n[JOIN   ] myssid,1.2.3.4,0,0\r\nOK\r\n").is_none());
    assert!(join_response(b"\r\n[JOIN   ] myssid,1.2.3.4,0,1\r\nOK\r\n> ").is_none());
    assert!(join_response(b"\r\n[JOIN   ] myssid\r\nOK\r\n> ").is_none());
    assert!(join_response(b"[JOIN   ] myssid,1.2.3.4,0,0\r\nOK\r\n> ").is_none());
    assert!(join_response(b"\r\nERROR\r\n").is_none());
}

#[test]
fn join_reply_with_too_many_fields() {
    assert!(join_response(b"\r\n[JOIN   ] a,b,c,0,0\r\nOK\r\n> ").is_none());
}

#[test]
fn join_reply_with_bytes_after_the_prompt() {
    assert!(join_response(b"\r\n[JOIN   ] myssid,1.2.3.4,0,0\r\nOK\r\n> x").is_none());
}

#[test]
fn join_takes_no_other_success_for_joined() {
    assert!(join_response(b"\r\n\r\nOK\r\n> ").is_none());
    assert!(join_response(b"\r\n[TCP  RC] Connecting to 1.2.3.4\r\nOK\r\n> ").is_none());
}

#[test]
fn connect_ok() {
    assert!(is_success(connect_response(
        b"\r\n[TCP  RC] Connecting to 192.168.1.220\r\nOK\r\n> "
    )));
    assert!(is_success(connect_response(b"\r\n[TCP  RC] Connecting to \r\nOK\r\n> ")));
}

#[test]
fn connect_error() {
    assert!(is_error(connect_response(b"\r\n[TCP  RC] Failed\r\nERROR\r\n> ")));
    assert!(is_error(connect_response(b"ERROR\r\n> ")));
}

#[test]
fn connect_reply_that_matches_nothing() {
    assert!(connect_response(b"\r\nOK\r\n> ").is_none());
    assert!(connect_response(b"\r\n[TCP  RC] Connecting to 1.2.3.4\r\nOK\r\n").is_none());
    assert!(connect_response(b"").is_none());
}

#[test]
fn close_ok_is_the_empty_success() {
    assert!(is_success(close_response(b"\r\n\r\nOK\r\n> ")));
}

#[test]
fn close_error() {
    assert!(is_error(close_response(b"\r\nERROR\r\n> ")));
    assert!(is_error(close_response(b"\r\nsomething\r\nERROR\r\n> ")));
}

#[test]
fn close_reply_that_matches_nothing() {
    assert!(close_response(b"\r\nx\r\nOK\r\n> ").is_none());
    assert!(close_response(b"\r\nOK\r\n> ").is_none());
    assert!(close_response(b"").is_none());
}

#[test]
fn write_ok_yields_the_count() {
    assert_eq!(written(b"\r\n1046\r\nOK\r\n> "), Some(1046));
    assert_eq!(written(b"\r\n0\r\nOK\r\n> "), Some(0));
    assert_eq!(written(b"\r\n7\r\nOK\r\n> "), Some(7));
    assert_eq!(written(b"\r\n0012\r\nOK\r\n> "), Some(12));
    assert_eq!(written(b"\r\n999999999\r\nOK\r\n> "), Some(999_999_999));
}

#[test]
fn write_count_of_more_than_nine_digits_is_refused() {
    assert!(write_response(b"\r\n1000000000\r\nOK\r\n> ").is_none());
    assert!(write_response(b"\r\n00000000000000000000000001\r\nOK\r\n> ").is_none());
}

#[test]
fn write_error_is_minus_one() {
    assert!(matches!(write_response(b"\r\n-1\r\nOK\r\n> "), Some(WriteResponse::Error)));
}

#[test]
fn write_reply_that_matches_nothing() {
    assert!(write_response(b"\r\n\r\nOK\r\n> ").is_none());
    assert!(write_response(b"\r\n+5\r\nOK\r\n> ").is_none());
    assert!(write_response(b"\r\n-2\r\nOK\r\n> ").is_none());
    assert!(write_response(b"\r\n 5\r\nOK\r\n> ").is_none());
    assert!(write_response(b"\r\n5x\r\nOK\r\n> ").is_none());
    assert!(write_response(b"\r\n5\r\nOK\r\n").is_none());
    assert!(write_response(b"5\r\nOK\r\n> ").is_none());
    assert!(write_response(b"\r\nERROR\r\n> ").is_none());
    assert!(write_response(b"").is_none());
}

#[test]
fn write_command_length_comes_back() {
    for n in [0usize, 1, 9, 10, 99, 100, 1045, 1046] {
        let mut reply = b"\r\n".to_vec();
        reply.extend_from_slice(&es_wifi::decimal::decimal(n));
        reply.extend_from_slice(b"\r\nOK\r\n> ");
        assert_eq!(written(&reply), Some(n));
    }
}

#[test]
fn read_ok_yields_the_payload() {
    assert_eq!(data(b"\r\nhello\r\nOK\r\n> "), Some(b"hello".to_vec()));
    assert_eq!(data(b"\r\n\r\nOK\r\n> "), Some(Vec::new()));
}

#[test]
fn read_payload_may_hold_any_bytes() {
    let mut reply = b"\r\n".to_vec();
    let payload = [0u8, 0x15, 0x0A, 0x0D, 0xFF, b'O', b'K', b'\r', b'\n', b'>', b' '];
    reply.extend_from_slice(&payload);
    reply.extend_from_slice(b"\r\nOK\r\n> ");
    assert_eq!(data(&reply), Some(payload.to_vec()));
}

#[test]
fn read_payload_may_hold_the_sentinel() {
    assert_eq!(
        data(b"\r\nab\r\nOK\r\n> cd\r\nOK\r\n> "),
        Some(b"ab\r\nOK\r\n> cd".to_vec())
    );
}

#[test]
fn read_minus_one_is_taken_for_data() {
    assert_eq!(data(b"\r\n-1\r\nOK\r\n> "), Some(b"-1".to_vec()));
}

#[test]
fn read_reply_that_matches_nothing() {
    assert!(read_response(b"").is_none());
    assert!(read_response(b"\r\nOK\r\n> ").is_none());
    assert!(read_response(b"\r\nhello\r\nOK\r\n>").is_none());
    assert!(read_response(b"hello\r\nOK\r\n> ").is_none());
    assert!(read_response(b"\r\nERROR\r\n> ").is_none());
}

#[test]
fn helpers_find_tags_and_bytes() {
    assert!(starts_with(b"\r\nOK", b"\r\n"));
    assert!(!starts_with(b"\r", b"\r\n"));
    assert!(starts_with(b"abc", b""));
    assert!(ends_with(b"OK\r\n> ", b"> "));
    assert!(!ends_with(b">", b"> "));
    assert!(is_framed(b"ab", b"cd", b"abcd"));
    assert!(!is_framed(b"ab", b"bc", b"abc"));
    assert_eq!(find(b"a,b,c", b','), 1);
    assert_eq!(find(b"abc", b','), 3);
    assert_eq!(find(b"", b','), 0);
    assert!(only_digits(b"0123456789"));
    assert!(only_digits(b""));
    assert!(!only_digits(b"12a"));
    assert!(!only_digits(b"/"));
    assert!(!only_digits(b":"));
}

#[test]
fn join_name_of_thirty_two_bytes_is_the_longest_that_is_held() {
    let name = "n".repeat(32);
    let reply = format!("\r\n[JOIN   ] {},1.2.3.4,0,0\r\nOK\r\n> ", name);
    assert_eq!(joined(reply.as_bytes()), Some(name.into_bytes()));
    let name = "n".repeat(33);
    let reply = format!("\r\n[JOIN   ] {},1.2.3.4,0,0\r\nOK\r\n> ", name);
    assert!(is_success(join_response(reply.as_bytes())));
}

#[test]
fn join_name_that_is_not_ascii_is_held() {
    let reply = "\r\n[JOIN   ] caf\u{e9},1.2.3.4,0,0\r\nOK\r\n> ";
    assert_eq!(joined(reply.as_bytes()), Some("caf\u{e9}".as_bytes().to_vec()));
}

#[test]
fn join_name_that_is_not_text_is_joined_without_a_name() {
    let mut reply = b"\r\n[JOIN   ] caf".to_vec();
    reply.push(0xE9);
    reply.extend_from_slice(b",1.2.3.4,0,0\r\nOK\r\n> ");
    assert!(is_success(join_response(&reply)));
    let mut cut = b"\r\n[JOIN   ] ".to_vec();
    cut.extend_from_slice(&[0xC3]);
    cut.extend_from_slice(b",1.2.3.4,0,0\r\nOK\r\n> ");
    assert!(is_success(join_response(&cut)));
}
