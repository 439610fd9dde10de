//! Exercises the request envelope serialization.

use json_rpc::Id;
use json_rpc::encoder::serialize_request;
use json_rpc::messages::Message;
use json_rpc::messages::MethodCall;
use json_rpc::messages::Request;
use json_rpc::messages::Version;

fn request_text(id: i64, method: &str, params: &str) -> String {
    let message = Message::new(Request {
        id: Id(id),
        method: MethodCall {
            method: String::from(method),
            input: String::from(params),
        },
    });
    serialize_request(&message)
}

#[test]
fn happy_path_envelope_is_exact() {
    assert_eq!(
        request_text(0, "pow", "{\"i\":8}"),
        "{\"jsonrpc\":\"2.0\",\"id\":0,\"method\":\"pow\",\"params\":{\"i\":8}}"
    );
}

#[test]
fn ids_render_in_decimal() {
    assert_eq!(
        request_text(1234567890123, "m", "null"),
        "{\"jsonrpc\":\"2.0\",\"id\":1234567890123,\"method\":\"m\",\"params\":null}"
    );
    assert_eq!(
        request_text(-7, "m", "null"),
        "{\"jsonrpc\":\"2.0\",\"id\":-7,\"method\":\"m\",\"params\":null}"
    );
    assert_eq!(
        request_text(i64::MIN, "m", "null"),
        "{\"jsonrpc\":\"2.0\",\"id\":-9223372036854775808,\"method\":\"m\",\"params\":null}"
    );
}

#[test]
fn method_names_are_escaped() {
    assert_eq!(
        request_text(0, "a\"b\\c\nd\u{1}", "1"),
        "{\"jsonrpc\":\"2.0\",\"id\":0,\"method\":\"a\\\"b\\\\c\\nd\\u0001\",\"params\":1}"
    );
}

#[test]
fn serialized_requests_parse_as_json() {
    let text = request_text(3, "write", "{\"path\":\"./Main.luna\",\"contents\":\"Hello\"}");
    let v: serde_json::Value = serde_json::from_str(&text).unwrap();
    assert_eq!(v.get("jsonrpc").unwrap().as_str().unwrap(), "2.0");
    assert_eq!(v.get("id").unwrap().as_i64().unwrap(), 3);
    assert_eq!(v.get("method").unwrap().as_str().unwrap(), "write");
    assert_eq!(
        v.get("params").unwrap().get("path").unwrap().as_str().unwrap(),
        "./Main.luna"
    );
}

#[test]
fn version_tags_round_trip() {
    assert_eq!(Version::V2.as_text(), "2.0");
    assert_eq!(Version::V1.as_text(), "1.0");
    assert_eq!(Version::from_text(Version::V2.as_text()), Some(Version::V2));
    assert_eq!(Version::from_text(Version::V1.as_text()), Some(Version::V1));
    assert_eq!(Version::from_text("3.0"), None);
}

#[test]
fn message_new_wraps_with_the_supported_version() {
    let m = Message::new(5);
    assert_eq!(m.jsonrpc, Version::V2);
    assert_eq!(m.payload, 5);
}
