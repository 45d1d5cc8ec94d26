use mcp_router::json::Json;
use mcp_router::json_rpc::{
    decode, encode, encode_line, line_of, DecodeError, JsonRpcError, JsonRpcErrorResponse, JsonRpcMessage,
    JsonRpcNotification, JsonRpcRequest, JsonRpcResponse,
};

fn request() -> JsonRpcMessage {
    JsonRpcMessage::Request(JsonRpcRequest {
        jsonrpc: "2.0".to_string(),
        id: Json::string("r-1"),
        method: "tools/call".to_string(),
        params: Some(Json::Object(vec![("name".to_string(), Json::string("echo"))])),
    })
}

#[test]
fn a_message_with_method_and_id_is_a_request() {
    let text = "{\"jsonrpc\":\"2.0\",\"id\":\"r-1\",\"method\":\"tools/call\",\"params\":{\"name\":\"echo\"}}";
    assert_eq!(decode(text), Ok(request()));
}

#[test]
fn a_message_with_method_and_no_id_is_a_notification() {
    let text = "{\"jsonrpc\":\"2.0\",\"method\":\"notifications/initialized\"}";
    assert_eq!(
        decode(text),
        Ok(JsonRpcMessage::Notification(JsonRpcNotification {
            jsonrpc: "2.0".to_string(),
            method: "notifications/initialized".to_string(),
            params: None,
        }))
    );
}

#[test]
fn a_message_with_id_and_result_is_a_response() {
    let text = "{\"jsonrpc\":\"2.0\",\"id\":7,\"result\":{\"ok\":true}}";
    assert_eq!(
        decode(text),
        Ok(JsonRpcMessage::Response(JsonRpcResponse {
            jsonrpc: "2.0".to_string(),
            id: Json::integer(7),
            result: Some(Json::Object(vec![("ok".to_string(), Json::Bool(true))])),
            error: None,
        }))
    );
}

#[test]
fn a_message_with_id_and_error_is_a_response() {
    let text = "{\"jsonrpc\":\"2.0\",\"id\":\"x\",\"error\":{\"code\":-32601,\"message\":\"no such method\",\"data\":[1]}}";
    assert_eq!(
        decode(text),
        Ok(JsonRpcMessage::Response(JsonRpcResponse {
            jsonrpc: "2.0".to_string(),
            id: Json::string("x"),
            result: None,
            error: Some(JsonRpcError {
                code: -32601,
                message: "no such method".to_string(),
                data: Some(Json::Array(vec![Json::integer(1)])),
            }),
        }))
    );
}

#[test]
fn a_null_result_is_a_result() {
    let text = "{\"jsonrpc\":\"2.0\",\"id\":\"x\",\"result\":null}";
    assert_eq!(
        decode(text),
        Ok(JsonRpcMessage::Response(JsonRpcResponse {
            jsonrpc: "2.0".to_string(),
            id: Json::string("x"),
            result: Some(Json::Null),
            error: None,
        }))
    );
}

#[test]
fn anything_else_is_malformed() {
    assert_eq!(decode("{\"jsonrpc\":\"2.0\",\"id\":1}"), Err(DecodeError::Malformed));
    assert_eq!(decode("{\"jsonrpc\":\"2.0\",\"result\":1}"), Err(DecodeError::Malformed));
    assert_eq!(
        decode("{\"jsonrpc\":\"2.0\",\"error\":{\"code\":1,\"message\":\"m\"}}"),
        Err(DecodeError::Malformed)
    );
    assert_eq!(decode("{\"id\":1,\"method\":\"m\"}"), Err(DecodeError::Malformed));
    assert_eq!(decode("{\"jsonrpc\":\"2.0\",\"id\":1,\"method\":5}"), Err(DecodeError::Malformed));
    assert_eq!(decode("{\"jsonrpc\":2,\"id\":1,\"method\":\"m\"}"), Err(DecodeError::Malformed));
    assert_eq!(
        decode("{\"jsonrpc\":\"2.0\",\"id\":1,\"error\":{\"code\":1.5,\"message\":\"m\"}}"),
        Err(DecodeError::Malformed)
    );
    assert_eq!(
        decode("{\"jsonrpc\":\"2.0\",\"id\":1,\"error\":{\"code\":1}}"),
        Err(DecodeError::Malformed)
    );
    assert_eq!(decode("[1,2]"), Err(DecodeError::Malformed));
    assert_eq!(decode("\"text\""), Err(DecodeError::Malformed));
}

#[test]
fn what_is_no_json_is_invalid() {
    assert_eq!(decode("not json at all"), Err(DecodeError::InvalidJson));
    assert_eq!(decode("{\"jsonrpc\":"), Err(DecodeError::InvalidJson));
    assert_eq!(decode(""), Err(DecodeError::InvalidJson));
}

#[test]
fn encode_writes_the_members_that_are_present() {
    assert_eq!(
        encode(&request()),
        Some(
            "{\"id\":\"r-1\",\"jsonrpc\":\"2.0\",\"method\":\"tools/call\",\"params\":{\"name\":\"echo\"}}"
                .to_string()
        )
    );
    let note = JsonRpcMessage::Notification(JsonRpcNotification {
        jsonrpc: "2.0".to_string(),
        method: "ping".to_string(),
        params: None,
    });
    assert_eq!(encode(&note), Some("{\"jsonrpc\":\"2.0\",\"method\":\"ping\"}".to_string()));
    let bare = JsonRpcMessage::Error(JsonRpcErrorResponse {
        jsonrpc: "2.0".to_string(),
        id: None,
        error: JsonRpcError { code: -32700, message: "parse error".to_string(), data: None },
    });
    assert_eq!(
        encode(&bare),
        Some(
            "{\"error\":{\"code\":-32700,\"message\":\"parse error\"},\"jsonrpc\":\"2.0\"}"
                .to_string()
        )
    );
}

#[test]
fn encode_line_ends_with_one_line_feed() {
    let line = encode_line(&request()).expect("a line");
    assert!(line.ends_with('\n'));
    assert_eq!(line.matches('\n').count(), 1);
    assert_eq!(Some(line[..line.len() - 1].to_string()), encode(&request()));
}

#[test]
fn decode_gives_back_what_encode_was_given() {
    let messages = vec![
        request(),
        JsonRpcMessage::Request(JsonRpcRequest {
            jsonrpc: "2.0".to_string(),
            id: Json::Null,
            method: "m".to_string(),
            params: None,
        }),
        JsonRpcMessage::Notification(JsonRpcNotification {
            jsonrpc: "2.0".to_string(),
            method: "n".to_string(),
            params: Some(Json::Array(vec![Json::integer(1), Json::Null])),
        }),
        JsonRpcMessage::Response(JsonRpcResponse {
            jsonrpc: "2.0".to_string(),
            id: Json::integer(3),
            result: Some(Json::string("done")),
            error: None,
        }),
        JsonRpcMessage::Response(JsonRpcResponse {
            jsonrpc: "2.0".to_string(),
            id: Json::string("e"),
            result: None,
            error: Some(JsonRpcError { code: 5, message: "bad".to_string(), data: None }),
        }),
    ];
    for m in messages {
        let text = encode(&m).expect("a text");
        assert_eq!(decode(&text), Ok(m));
    }
}

#[test]
fn an_error_with_an_id_reads_back_as_a_response() {
    let error = JsonRpcError { code: 1, message: "m".to_string(), data: None };
    let sent = JsonRpcMessage::Error(JsonRpcErrorResponse {
        jsonrpc: "2.0".to_string(),
        id: Some(Json::integer(9)),
        error: error.clone(),
    });
    let text = encode(&sent).expect("a text");
    assert_eq!(
        decode(&text),
        Ok(JsonRpcMessage::Response(JsonRpcResponse {
            jsonrpc: "2.0".to_string(),
            id: Json::integer(9),
            result: None,
            error: Some(error),
        }))
    );
}

#[test]
fn to_json_and_from_json_agree() {
    let m = request();
    assert_eq!(JsonRpcMessage::from_json(&m.to_json()), Ok(m));
    let e = JsonRpcError { code: -1, message: "x".to_string(), data: Some(Json::Bool(false)) };
    assert_eq!(JsonRpcError::from_json(&e.to_json()), Some(e));
    assert_eq!(JsonRpcError::from_json(&Json::Null), None);
}

#[test]
fn line_of_closes_a_text_by_one_line_feed() {
    assert_eq!(line_of("{}".to_string()), "{}\n");
    assert_eq!(line_of(String::new()), "\n");
    assert_eq!(
        encode_line(&request()),
        encode(&request()).map(line_of)
    );
}
