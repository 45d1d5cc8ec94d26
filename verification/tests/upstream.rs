use mcp_router::client::CallError;
use mcp_router::handler::DispatchError;
use mcp_router::json::Json;
use mcp_router::json_rpc::{JsonRpcError, JsonRpcRequest, JsonRpcResponse};
use mcp_router::upstream::{
    call_failure, dispatch_failure, respond, upstream_call, upstream_failure, UpstreamCall,
    UpstreamError, INVALID_PARAMS, METHOD_NOT_FOUND, SERVER_ERROR,
};

fn request(method: &str, params: Option<Json>) -> JsonRpcRequest {
    JsonRpcRequest {
        jsonrpc: "2.0".to_string(),
        id: Json::integer(1),
        method: method.to_string(),
        params,
    }
}

#[test]
fn tools_list_asks_for_the_catalog() {
    assert_eq!(upstream_call(&request("tools/list", None)), Ok(UpstreamCall::ListTools));
    assert_eq!(
        upstream_call(&request("tools/list", Some(Json::Object(vec![])))),
        Ok(UpstreamCall::ListTools)
    );
}

#[test]
fn tools_call_asks_for_a_tool_by_name() {
    let args = Json::Object(vec![("text".to_string(), Json::string("hi"))]);
    let params = Json::Object(vec![
        ("name".to_string(), Json::string("svc1__echo")),
        ("arguments".to_string(), args.clone()),
    ]);
    assert_eq!(
        upstream_call(&request("tools/call", Some(params))),
        Ok(UpstreamCall::CallTool { name: "svc1__echo".to_string(), arguments: args })
    );
    let bare = Json::Object(vec![("name".to_string(), Json::string("svc1__echo"))]);
    assert_eq!(
        upstream_call(&request("tools/call", Some(bare))),
        Ok(UpstreamCall::CallTool { name: "svc1__echo".to_string(), arguments: Json::Null })
    );
}

#[test]
fn tools_call_without_a_name_has_invalid_parameters() {
    assert_eq!(upstream_call(&request("tools/call", None)), Err(UpstreamError::InvalidParams));
    assert_eq!(
        upstream_call(&request("tools/call", Some(Json::Object(vec![])))),
        Err(UpstreamError::InvalidParams)
    );
    let numbered = Json::Object(vec![("name".to_string(), Json::integer(3))]);
    assert_eq!(
        upstream_call(&request("tools/call", Some(numbered))),
        Err(UpstreamError::InvalidParams)
    );
}

#[test]
fn any_other_method_is_not_found() {
    assert_eq!(upstream_call(&request("resources/list", None)), Err(UpstreamError::MethodNotFound));
    assert_eq!(upstream_call(&request("", None)), Err(UpstreamError::MethodNotFound));
}

#[test]
fn a_response_carries_the_result_or_the_error() {
    assert_eq!(
        respond(Json::integer(1), Ok(Json::Bool(true))),
        JsonRpcResponse {
            jsonrpc: "2.0".to_string(),
            id: Json::integer(1),
            result: Some(Json::Bool(true)),
            error: None,
        }
    );
    let error = JsonRpcError { code: 7, message: "m".to_string(), data: None };
    assert_eq!(
        respond(Json::string("x"), Err(error.clone())),
        JsonRpcResponse {
            jsonrpc: "2.0".to_string(),
            id: Json::string("x"),
            result: None,
            error: Some(error),
        }
    );
}

#[test]
fn a_downstream_error_goes_on_as_it_came() {
    let error = JsonRpcError {
        code: -32001,
        message: "tool failed".to_string(),
        data: Some(Json::string("why")),
    };
    assert_eq!(call_failure(CallError::Downstream(error.clone())), error);
}

#[test]
fn each_failure_has_its_error_object() {
    let plain = |code: i64, message: &str| JsonRpcError {
        code,
        message: message.to_string(),
        data: None,
    };
    assert_eq!(METHOD_NOT_FOUND, -32601);
    assert_eq!(INVALID_PARAMS, -32602);
    assert_eq!(SERVER_ERROR, -32000);
    assert_eq!(call_failure(CallError::Timeout), plain(-32000, "call timed out"));
    assert_eq!(call_failure(CallError::ConnectionClosed), plain(-32000, "connection closed"));
    assert_eq!(call_failure(CallError::NotConnected), plain(-32000, "downstream not connected"));
    assert_eq!(call_failure(CallError::DuplicateId), plain(-32000, "request identifier in use"));
    assert_eq!(dispatch_failure(DispatchError::MalformedName), plain(-32602, "malformed tool name"));
    assert_eq!(
        dispatch_failure(DispatchError::UnknownDownstream),
        plain(-32602, "unknown downstream")
    );
    assert_eq!(dispatch_failure(DispatchError::ConnectionClosed), plain(-32000, "connection closed"));
    assert_eq!(
        dispatch_failure(DispatchError::DuplicateId),
        plain(-32000, "request identifier in use")
    );
    assert_eq!(dispatch_failure(DispatchError::NoMatchingTool), plain(-32602, "no matching tool"));
    assert_eq!(dispatch_failure(DispatchError::RouterFailed), plain(-32000, "router failed"));
    assert_eq!(upstream_failure(UpstreamError::MethodNotFound), plain(-32601, "method not found"));
    assert_eq!(upstream_failure(UpstreamError::InvalidParams), plain(-32602, "invalid params"));
}
