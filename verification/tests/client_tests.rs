//! Drives the handler through the request/response cycle of a file-manager
//! style method catalog: the methods are ordinary calls to the engine, the
//! payloads ordinary JSON texts.

use json_rpc::Handler;
use json_rpc::messages::RawResult;
use json_rpc::transport::mock::MockTransport;

/// Makes one request through a fresh handler and checks the cycle:
/// * the sent envelope carries `expected_method` and `input_json`;
/// * mocks the peer answering with `result_json`;
/// * checks that the call resolves with exactly that payload.
fn test_request(expected_method: &str, input_json: &str, result_json: &str) {
    let mut fm = Handler::new(MockTransport::new());
    let id = fm
        .open_request(String::from(expected_method), String::from(input_json))
        .expect("open transport should accept the request");

    let request: serde_json::Value =
        serde_json::from_str(&fm.transport.expect_message_text()).unwrap();
    assert_eq!(request.get("method").unwrap().as_str().unwrap(), expected_method);
    let expected_input: serde_json::Value = serde_json::from_str(input_json).unwrap();
    assert_eq!(request.get("params").unwrap(), &expected_input);

    let response = format!(
        "{{\"jsonrpc\":\"2.0\",\"id\":{},\"result\":{}}}",
        request.get("id").unwrap().as_i64().unwrap(),
        result_json
    );
    fm.process_incoming_message(response);

    let reply = fm.reply_for(id).expect("result should be present");
    let raw = reply.clone().expect("result should be a success");
    let payload = match raw {
        RawResult::Success(s) => s.result,
        RawResult::Error(e) => panic!("result should be a success, got {:?}", e),
    };
    let got: serde_json::Value = serde_json::from_str(&payload).unwrap();
    let want: serde_json::Value = serde_json::from_str(result_json).unwrap();
    assert_eq!(got, want);
}

#[test]
fn version_serialization_and_deserialization() {
    let path_main = "{\"path\":\"./Main.luna\"}";
    let from_main_to_target = "{\"from\":\"./Main.luna\",\"to\":\"./Target.luna\"}";
    let unit_json = "null";

    test_request("copyDirectory", from_main_to_target, unit_json);
    test_request("copyFile", from_main_to_target, unit_json);
    test_request("deleteFile", path_main, unit_json);
    test_request("exists", path_main, "true");
    test_request("list", path_main, "[\"Bar.luna\",\"Foo.luna\"]");
    test_request("moveDirectory", from_main_to_target, unit_json);
    test_request("moveFile", from_main_to_target, unit_json);
    test_request("read", path_main, "\"Hello world!\"");

    let sample_attributes_json = "{\"creationTime\":\"2020-01-07T21:25:26Z\",\"lastAccessTime\":\"2020-01-21T22:16:51.123994500+00:00\",\"lastModifiedTime\":\"2020-01-07T21:25:26Z\",\"fileKind\":\"RegularFile\",\"sizeInBytes\":125125}";
    test_request("status", path_main, sample_attributes_json);
    test_request("touch", path_main, unit_json);
    test_request(
        "write",
        "{\"path\":\"./Main.luna\",\"contents\":\"Hello world!\"}",
        unit_json,
    );

    let uuid_json = "\"02723954-fbb0-4641-af53-cec0883f260a\"";
    test_request("createWatch", path_main, uuid_json);
    test_request(
        "deleteWatch",
        "{\"watchId\":\"02723954-fbb0-4641-af53-cec0883f260a\"}",
        unit_json,
    );
}
