use simple::files::client_data_file_name;
use simple::model::Request;
use simple::protocol::{request_payload, subscription_payload, subscription_request, subscription_topic};

#[test]
fn topic_names_the_symbol() {
    assert_eq!(subscription_topic("BTCUSD"), "trade.BTCUSD");
}

#[test]
fn subscription_request_has_one_topic() {
    let r = subscription_request("ETHUSD");
    assert_eq!(r.op, "subscribe");
    assert_eq!(r.args, vec!["trade.ETHUSD".to_string()]);
}

#[test]
fn subscription_payload_is_compact_json() {
    assert_eq!(
        subscription_payload("BTCUSD"),
        r#"{"op":"subscribe","args":["trade.BTCUSD"]}"#
    );
}

#[test]
fn payload_escapes_texts() {
    assert_eq!(
        subscription_payload("a\"b\\c"),
        r#"{"op":"subscribe","args":["trade.a\"b\\c"]}"#
    );
}

#[test]
fn payload_escapes_control_characters() {
    let r = Request {
        op: "op".to_string(),
        args: vec!["a\nb\tc\u{1}d\u{1f}é/".to_string()],
    };
    assert_eq!(request_payload(&r), r#"{"op":"op","args":["a\nb\tc\u0001d\u001fé/"]}"#);
}

#[test]
fn payload_lists_every_argument() {
    let r = Request {
        op: "unsubscribe".to_string(),
        args: vec!["x".to_string(), "y".to_string(), "z".to_string()],
    };
    assert_eq!(request_payload(&r), r#"{"op":"unsubscribe","args":["x","y","z"]}"#);
    let empty = Request { op: "ping".to_string(), args: Vec::new() };
    assert_eq!(request_payload(&empty), r#"{"op":"ping","args":[]}"#);
}

#[test]
fn data_file_names_carry_the_client_id() {
    assert_eq!(client_data_file_name(0), "client_0_data.json");
    assert_eq!(client_data_file_name(42), "client_42_data.json");
    assert_eq!(client_data_file_name(u64::MAX), "client_18446744073709551615_data.json");
}

#[test]
fn decimal_text_has_no_leading_zeros() {
    assert_eq!(simple::files::decimal_text(0), "0");
    assert_eq!(simple::files::decimal_text(7), "7");
    assert_eq!(simple::files::decimal_text(10), "10");
    assert_eq!(simple::files::decimal_text(1234567890), "1234567890");
}
