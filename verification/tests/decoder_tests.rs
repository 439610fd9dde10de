//! Exercises the frame decoder on well-formed and malformed inputs.

use json_rpc::Id;
use json_rpc::decoder::decode;
use json_rpc::messages::IncomingMessage;
use json_rpc::messages::RawResult;

fn decode_response(text: &str) -> json_rpc::messages::Response {
    match decode(text) {
        Ok(IncomingMessage::Response(r)) => r,
        other => panic!("expected a response from {:?}, got {:?}", text, other),
    }
}

fn decode_notification(text: &str) -> json_rpc::messages::Notification {
    match decode(text) {
        Ok(IncomingMessage::Notification(n)) => n,
        other => panic!("expected a notification from {:?}, got {:?}", text, other),
    }
}

fn success_payload(r: &json_rpc::messages::Response) -> &str {
    match &r.res {
        RawResult::Success(s) => &s.result,
        RawResult::Error(e) => panic!("expected success, got error {:?}", e),
    }
}

#[test]
fn success_response_decodes() {
    let r = decode_response("{\"jsonrpc\":\"2.0\",\"id\":0,\"result\":{\"result\":64}}");
    assert_eq!(r.id, Id(0));
    assert_eq!(success_payload(&r), "{\"result\":64}");
}

#[test]
fn error_response_decodes() {
    let r = decode_response(
        "{\"jsonrpc\":\"2.0\",\"id\":3,\"error\":{\"code\":5,\"message\":\"wrong!\",\"data\":null}}",
    );
    assert_eq!(r.id, Id(3));
    match r.res {
        RawResult::Error(e) => {
            assert_eq!(e.code, 5);
            assert_eq!(e.message, "wrong!");
            assert_eq!(e.data, None);
        }
        other => panic!("expected error outcome, got {:?}", other),
    }
}

#[test]
fn error_data_variants() {
    // absent data reads as none
    let r = decode_response("{\"id\":1,\"error\":{\"code\":-2,\"message\":\"m\"}}");
    match r.res {
        RawResult::Error(e) => {
            assert_eq!(e.code, -2);
            assert_eq!(e.data, None);
        }
        other => panic!("expected error outcome, got {:?}", other),
    }
    // attached data is carried along as its text
    let r = decode_response(
        "{\"id\":1,\"error\":{\"code\":2,\"message\":\"m\",\"data\":{\"x\":[1,2]}}}",
    );
    match r.res {
        RawResult::Error(e) => assert_eq!(e.data.as_deref(), Some("{\"x\":[1,2]}")),
        other => panic!("expected error outcome, got {:?}", other),
    }
}

#[test]
fn notification_decodes() {
    let n = decode_notification("{\"jsonrpc\":\"2.0\",\"method\":\"update\",\"params\":[1,2,3]}");
    assert_eq!(n.method, "update");
    assert_eq!(n.params.as_deref(), Some("[1,2,3]"));

    // params may be omitted
    let n = decode_notification("{\"jsonrpc\":\"2.0\",\"method\":\"ping\"}");
    assert_eq!(n.method, "ping");
    assert_eq!(n.params, None);
}

#[test]
fn surrounding_whitespace_is_tolerated() {
    let r = decode_response("  {\n\t\"id\" : 2 , \"result\" : [ 1 , 2 ]  }  ");
    assert_eq!(r.id, Id(2));
    assert_eq!(success_payload(&r), "[ 1 , 2 ]");
}

#[test]
fn repeated_members_keep_the_last() {
    let r = decode_response("{\"id\":1,\"id\":2,\"result\":0,\"result\":9}");
    assert_eq!(r.id, Id(2));
    assert_eq!(success_payload(&r), "9");
}

#[test]
fn escapes_decode_in_strings() {
    let n = decode_notification("{\"method\":\"\\u0041b\\n\\\"\\\\\\t\"}");
    assert_eq!(n.method, "Ab\n\"\\\t");
}

#[test]
fn surrogate_pairs_decode() {
    let n = decode_notification("{\"method\":\"\\ud83d\\ude00\"}");
    assert_eq!(n.method, "\u{1F600}");
}

#[test]
fn lone_surrogates_are_rejected() {
    assert!(decode("{\"method\":\"\\ud83d\"}").is_err());
    assert!(decode("{\"method\":\"\\ude00x\"}").is_err());
}

#[test]
fn id_bounds_are_respected() {
    let r = decode_response("{\"id\":9223372036854775807,\"result\":0}");
    assert_eq!(r.id, Id(i64::MAX));
    let r = decode_response("{\"id\":-9223372036854775808,\"result\":0}");
    assert_eq!(r.id, Id(i64::MIN));
    // one past the range is no valid response, and without a method the
    // frame matches nothing
    assert!(decode("{\"id\":9223372036854775808,\"result\":0}").is_err());
}

#[test]
fn shapes_matching_neither_are_rejected() {
    // not JSON at all
    assert!(decode("hello, nice to meet you").is_err());
    // valid JSON, but not an object
    assert!(decode("[1,2,3]").is_err());
    assert!(decode("\"pow\"").is_err());
    // an object with neither a usable id nor a method
    assert!(decode("{}").is_err());
    assert!(decode("{\"id\":0}").is_err());
    assert!(decode("{\"id\":1.5,\"result\":3}").is_err());
    assert!(decode("{\"id\":\"0\",\"result\":3}").is_err());
    // a method that is not a string
    assert!(decode("{\"method\":5}").is_err());
    // trailing garbage after the frame
    assert!(decode("{\"method\":\"m\"} x").is_err());
    // malformed payloads poison the whole frame
    assert!(decode("{\"id\":0,\"result\":{\"a\":}}").is_err());
    assert!(decode("{\"id\":0,\"result\":01}").is_err());
}

#[test]
fn escaped_keys_count_as_their_decoded_text() {
    let r = decode_response("{\"\\u0069d\":4,\"result\":1}");
    assert_eq!(r.id, Id(4));
}

#[test]
fn payload_spans_are_taken_verbatim() {
    // a string payload containing a brace does not derail the scanner
    let r = decode_response("{\"id\":0,\"result\":\"}\"}");
    assert_eq!(success_payload(&r), "\"}\"");
    // numbers with fraction and exponent pass through as their text
    let r = decode_response("{\"id\":0,\"result\":-1.5e10}");
    assert_eq!(success_payload(&r), "-1.5e10");
    // nested structures are delimited correctly
    let r = decode_response("{\"id\":0,\"result\":{\"a\":[{\"b\":\"]\"},2]}}");
    assert_eq!(success_payload(&r), "{\"a\":[{\"b\":\"]\"},2]}");
}

#[test]
fn extra_members_are_ignored() {
    let r = decode_response(
        "{\"jsonrpc\":\"2.0\",\"extra\":[true,null],\"id\":0,\"error\":{\"code\":1,\"message\":\"m\",\"more\":{}}}",
    );
    match r.res {
        RawResult::Error(e) => {
            assert_eq!(e.code, 1);
            assert_eq!(e.message, "m");
        }
        other => panic!("expected error outcome, got {:?}", other),
    }
}

#[test]
fn response_shape_wins_over_notification_shape() {
    // both an id/result pair and a method: the frame answers a call
    let r = decode_response("{\"id\":4,\"method\":\"m\",\"result\":1}");
    assert_eq!(r.id, Id(4));
    // an id alone does not make a response; the method still counts
    let n = decode_notification("{\"id\":4,\"method\":\"m\"}");
    assert_eq!(n.method, "m");
}
