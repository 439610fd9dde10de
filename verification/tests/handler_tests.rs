//! Exercises the handler over a mock transport: the full round trip of a
//! call, remote errors, undecodable frames, disconnection, and the event
//! queue.

use json_rpc::Handler;
use json_rpc::Id;
use json_rpc::error::HandlingError;
use json_rpc::error::RpcError;
use json_rpc::handler::Event;
use json_rpc::handler::decode_result;
use json_rpc::messages::Error;
use json_rpc::messages::RawResult;
use json_rpc::messages::Success;
use json_rpc::transport::mock::MockTransport;

fn setup() -> Handler<MockTransport> {
    Handler::new(MockTransport::new())
}

fn pow_request(fm: &mut Handler<MockTransport>, i: i64) -> Id {
    fm.open_request(String::from("pow"), format!("{{\"i\":{}}}", i))
        .expect("open transport should accept the request")
}

#[test]
fn test_success_call() {
    let mut fm = setup();
    let call_input: i64 = 8;
    let id = pow_request(&mut fm, call_input);
    let expected_first_request_id = Id(0);
    assert_eq!(id, expected_first_request_id);

    // validate request sent
    let req_text = fm.transport.expect_message_text();
    let req: serde_json::Value = serde_json::from_str(&req_text).unwrap();
    assert_eq!(req.get("id").unwrap().as_i64().unwrap(), 0);
    assert_eq!(req.get("method").unwrap().as_str().unwrap(), "pow");
    assert_eq!(
        req.get("params").unwrap().get("i").unwrap().as_i64().unwrap(),
        call_input
    );
    assert_eq!(req.get("jsonrpc").unwrap().as_str().unwrap(), "2.0");

    assert!(fm.reply_for(id).is_none()); // no reply

    // let's reply
    let reply = format!(
        "{{\"jsonrpc\":\"2.0\",\"id\":{},\"result\":{{\"result\":{}}}}}",
        0,
        call_input * call_input
    );
    fm.process_incoming_message(reply);

    // the response resolved the call and left nothing on the event queue
    assert!(fm.next_event().is_none());
    let reply = fm.reply_for(id).expect("result should be present");
    let raw = reply.clone().expect("result should be a success");
    let payload = match raw {
        RawResult::Success(s) => s.result,
        RawResult::Error(_) => panic!("result should be a success"),
    };
    let value: serde_json::Value = serde_json::from_str(&payload).unwrap();
    let result = value.get("result").unwrap().as_i64().unwrap();
    assert_eq!(result, 8 * 8);
}

#[test]
fn test_error_call() {
    let mut fm = setup();
    let id = pow_request(&mut fm, 8);
    assert!(fm.reply_for(id).is_none()); // no reply

    // reply with error
    let req_text = fm.transport.expect_message_text();
    let req: serde_json::Value = serde_json::from_str(&req_text).unwrap();
    let error_code = 5;
    let error_description = "wrong!";
    let error_data: Option<String> = None;
    let error_msg = format!(
        "{{\"jsonrpc\":\"2.0\",\"id\":{},\"error\":{{\"code\":{},\"message\":\"{}\",\"data\":null}}}}",
        req.get("id").unwrap().as_i64().unwrap(),
        error_code,
        error_description
    );
    fm.process_incoming_message(error_msg);

    // receive error
    let reply = fm.reply_for(id).expect("result should be present");
    let raw = reply.clone().expect("the protocol reply should have arrived");
    let result = decode_result(raw).expect_err("result should be a failure");
    if let RpcError::RemoteError(e) = result {
        assert_eq!(e.code, error_code);
        assert_eq!(e.data, error_data);
        assert_eq!(e.message, error_description);
    } else {
        panic!("Expected an error to be RemoteError");
    }
}

#[test]
fn test_garbage_reply_error() {
    let mut fm = setup();
    let id = pow_request(&mut fm, 8);
    assert!(fm.reply_for(id).is_none()); // no reply
    fm.process_incoming_message(String::from("hello, nice to meet you"));
    assert!(fm.reply_for(id).is_none()); // no valid reply
    let internal_error = match fm.next_event() {
        Some(Event::Error(err)) => err,
        other => panic!("no error event, while expected one: {:?}", other),
    };
    if let HandlingError::InvalidMessage(_) = internal_error {
    } else {
        panic!("Expected an error to be InvalidMessage");
    }
}

#[test]
fn test_disconnect_error() {
    let mut fm = setup();
    let id = pow_request(&mut fm, 8);
    assert!(fm.reply_for(id).is_none()); // no reply
    fm.transport.mock_connection_closed();
    assert!(fm.reply_for(id).is_none()); // no reply
    fm.on_transport_closed();
    let reply = fm.reply_for(id).expect("result should be present");
    let result = reply.clone().expect_err("result should be a failure");
    if let RpcError::LostConnection = result {
    } else {
        panic!("Expected an error to be LostConnection");
    }
}

#[test]
fn test_sending_while_disconnected() {
    let mut fm = setup();
    fm.transport.mock_connection_closed();
    let result = fm.open_request(String::from("pow"), String::from("{\"i\":8}"));
    assert!(result.is_err())
}

fn test_notification(method: &str, params_json: &str) {
    let mut fm = setup();
    let message = format!(
        "{{\"jsonrpc\":\"2.0\",\"method\":\"{}\",\"params\":{}}}",
        method, params_json
    );
    assert!(fm.next_event().is_none());
    fm.process_incoming_message(message);
    match fm.next_event() {
        Some(Event::Notification(n)) => {
            assert_eq!(n.method, method);
            assert_eq!(n.params.as_deref(), Some(params_json));
        }
        other => panic!("expected notification event, encountered: {:?}", other),
    }
    assert!(fm.next_event().is_none());
}

#[test]
fn test_recognizing_notifications() {
    test_notification("Meow", "{\"text\":\"meow!\"}");
    test_notification("Bark", "{\"text\":\"woof!\"}");
}

#[test]
fn sequential_ids_strictly_increasing() {
    let mut fm = setup();
    let a = pow_request(&mut fm, 1);
    let b = pow_request(&mut fm, 2);
    let c = pow_request(&mut fm, 3);
    assert_eq!((a, b, c), (Id(0), Id(1), Id(2)));
    assert!(a < b && b < c);
    assert!(a != b && b != c && a != c);
}

#[test]
fn resolution_at_most_once() {
    let mut fm = setup();
    let id = pow_request(&mut fm, 8);
    fm.process_incoming_message(String::from(
        "{\"jsonrpc\":\"2.0\",\"id\":0,\"result\":{\"result\":64}}",
    ));
    let first = fm.reply_for(id).expect("resolved").clone();
    assert!(fm.next_event().is_none());

    // a second response to the same id does not touch the resolved call:
    // it only yields an unexpected-response event
    fm.process_incoming_message(String::from(
        "{\"jsonrpc\":\"2.0\",\"id\":0,\"result\":{\"result\":65}}",
    ));
    let second = fm.reply_for(id).expect("still resolved").clone();
    assert_eq!(first, second);
    match fm.next_event() {
        Some(Event::Error(HandlingError::UnexpectedResponse(r))) => assert_eq!(r.id, Id(0)),
        other => panic!("expected unexpected-response event, got {:?}", other),
    }
}

#[test]
fn unexpected_response_reported() {
    let mut fm = setup();
    fm.process_incoming_message(String::from(
        "{\"jsonrpc\":\"2.0\",\"id\":7,\"result\":{\"result\":1}}",
    ));
    match fm.next_event() {
        Some(Event::Error(HandlingError::UnexpectedResponse(r))) => assert_eq!(r.id, Id(7)),
        other => panic!("expected unexpected-response event, got {:?}", other),
    }
}

#[test]
fn disconnect_cascades_to_all_pending_calls() {
    let mut fm = setup();
    let a = pow_request(&mut fm, 2);
    let b = pow_request(&mut fm, 3);
    assert!(fm.reply_for(a).is_none());
    assert!(fm.reply_for(b).is_none());

    fm.on_transport_closed();
    for id in [a, b] {
        let reply = fm.reply_for(id).expect("resolved by the disconnect");
        assert_eq!(reply.clone().expect_err("failure"), RpcError::LostConnection);
    }

    // a call made after closure fails at once and sends nothing
    let sent_before = fm.transport.sent_msgs.len();
    let c = fm
        .open_request(String::from("pow"), String::from("{\"i\":4}"))
        .expect("a closed handler still hands out an id");
    let reply = fm.reply_for(c).expect("already resolved");
    assert_eq!(reply.clone().expect_err("failure"), RpcError::LostConnection);
    assert_eq!(fm.transport.sent_msgs.len(), sent_before);
}

#[test]
fn transport_closure_is_idempotent() {
    let mut fm = setup();
    let id = pow_request(&mut fm, 8);
    fm.on_transport_closed();
    let after_first = fm.reply_for(id).expect("resolved").clone();
    fm.on_transport_closed();
    let after_second = fm.reply_for(id).expect("still resolved").clone();
    assert_eq!(after_first, after_second);
    assert!(fm.next_event().is_none());
}

#[test]
fn notifications_keep_arrival_order() {
    let mut fm = setup();
    fm.process_incoming_message(String::from(
        "{\"jsonrpc\":\"2.0\",\"method\":\"first\",\"params\":1}",
    ));
    fm.process_incoming_message(String::from(
        "{\"jsonrpc\":\"2.0\",\"method\":\"second\",\"params\":2}",
    ));
    let names: Vec<String> = [fm.next_event(), fm.next_event()]
        .into_iter()
        .map(|e| match e {
            Some(Event::Notification(n)) => n.method,
            other => panic!("expected notification, got {:?}", other),
        })
        .collect();
    assert_eq!(names, vec![String::from("first"), String::from("second")]);
    assert!(fm.next_event().is_none());
}

#[test]
fn decode_result_maps_both_outcomes() {
    let ok = RawResult::Success(Success {
        result: String::from("{\"result\":64}"),
    });
    assert_eq!(decode_result(ok).unwrap(), "{\"result\":64}");

    let err = RawResult::Error(Error {
        code: 5,
        message: String::from("wrong!"),
        data: None,
    });
    match decode_result(err) {
        Err(RpcError::RemoteError(e)) => {
            assert_eq!(e.code, 5);
            assert_eq!(e.message, "wrong!");
            assert_eq!(e.data, None);
        }
        other => panic!("expected a remote error, got {:?}", other),
    }
}
