use mcp_router::client::{CallError, DownstreamClient, Dropped, Inbound, Settlement};
use mcp_router::json::Json;
use mcp_router::json_rpc::{DecodeError, JsonRpcError, JsonRpcMessage, JsonRpcRequest, JsonRpcResponse};

fn open_with(id: &str, waiter: u64) -> DownstreamClient {
    let mut c = DownstreamClient::new("svc".to_string());
    c.begin_call(id.to_string(), waiter, "tools/list", None).expect("a request");
    c
}

#[test]
fn a_new_connection_is_open_and_idle() {
    let c = DownstreamClient::new("svc".to_string());
    assert_eq!(c.id(), "svc");
    assert!(c.accepts_calls());
    assert_eq!(c.waiter_of("r1"), None);
}

#[test]
fn begin_call_enters_the_call_and_builds_the_request() {
    let mut c = DownstreamClient::new("svc".to_string());
    let request = c.begin_call("r1".to_string(), 11, "tools/call", Some(Json::Bool(true)));
    assert_eq!(
        request,
        Ok(JsonRpcRequest {
            jsonrpc: "2.0".to_string(),
            id: Json::string("r1"),
            method: "tools/call".to_string(),
            params: Some(Json::Bool(true)),
        })
    );
    assert_eq!(c.waiter_of("r1"), Some(11));
    assert_eq!(c.waiter_of("r2"), None);
}

#[test]
fn two_calls_in_flight_cannot_share_an_identifier() {
    let mut c = open_with("r1", 11);
    assert_eq!(c.begin_call("r1".to_string(), 12, "tools/list", None), Err(CallError::DuplicateId));
    assert_eq!(c.waiter_of("r1"), Some(11));
}

#[test]
fn a_response_settles_its_call_with_the_result() {
    let mut c = open_with("r1", 11);
    let got = c.on_line("{\"jsonrpc\":\"2.0\",\"id\":\"r1\",\"result\":{\"tools\":[]}}");
    assert_eq!(
        got,
        Inbound::Settled(Settlement {
            request_id: "r1".to_string(),
            waiter: 11,
            outcome: Ok(Json::Object(vec![("tools".to_string(), Json::Array(vec![]))])),
        })
    );
    assert_eq!(c.waiter_of("r1"), None);
}

#[test]
fn a_response_with_an_error_fails_its_call() {
    let mut c = open_with("r1", 11);
    let got = c.on_line("{\"jsonrpc\":\"2.0\",\"id\":\"r1\",\"error\":{\"code\":-5,\"message\":\"no\"}}");
    assert_eq!(
        got,
        Inbound::Settled(Settlement {
            request_id: "r1".to_string(),
            waiter: 11,
            outcome: Err(CallError::Downstream(JsonRpcError {
                code: -5,
                message: "no".to_string(),
                data: None,
            })),
        })
    );
}

#[test]
fn a_response_without_a_result_settles_with_null() {
    let mut c = open_with("r1", 11);
    let got = c.on_message(JsonRpcMessage::Response(JsonRpcResponse {
        jsonrpc: "2.0".to_string(),
        id: Json::string("r1"),
        result: None,
        error: None,
    }));
    assert_eq!(
        got,
        Inbound::Settled(Settlement { request_id: "r1".to_string(), waiter: 11, outcome: Ok(Json::Null) })
    );
}

#[test]
fn a_call_is_settled_once() {
    let mut c = open_with("r1", 11);
    let line = "{\"jsonrpc\":\"2.0\",\"id\":\"r1\",\"result\":1}";
    assert!(matches!(c.on_line(line), Inbound::Settled(_)));
    assert_eq!(c.on_line(line), Inbound::Dropped(Dropped::NotPending));
}

#[test]
fn what_settles_no_call_is_dropped_and_changes_nothing() {
    let mut c = open_with("r1", 11);
    assert_eq!(
        c.on_line("garbage"),
        Inbound::Dropped(Dropped::Undecodable(DecodeError::InvalidJson))
    );
    assert_eq!(
        c.on_line("{\"jsonrpc\":\"2.0\"}"),
        Inbound::Dropped(Dropped::Undecodable(DecodeError::Malformed))
    );
    assert_eq!(
        c.on_line("{\"jsonrpc\":\"2.0\",\"method\":\"log\"}"),
        Inbound::Dropped(Dropped::NotAResponse)
    );
    assert_eq!(
        c.on_line("{\"jsonrpc\":\"2.0\",\"id\":\"r1\",\"method\":\"sample\"}"),
        Inbound::Dropped(Dropped::NotAResponse)
    );
    assert_eq!(
        c.on_line("{\"jsonrpc\":\"2.0\",\"id\":\"other\",\"result\":1}"),
        Inbound::Dropped(Dropped::NotPending)
    );
    assert_eq!(
        c.on_line("{\"jsonrpc\":\"2.0\",\"id\":5,\"result\":1}"),
        Inbound::Dropped(Dropped::NotPending)
    );
    assert_eq!(c.waiter_of("r1"), Some(11));
    assert!(matches!(
        c.on_line("{\"jsonrpc\":\"2.0\",\"id\":\"r1\",\"result\":1}"),
        Inbound::Settled(_)
    ));
}

#[test]
fn only_message_events_carry_a_line() {
    let mut c = open_with("r1", 11);
    let data = "{\"jsonrpc\":\"2.0\",\"id\":\"r1\",\"result\":1}";
    assert_eq!(c.on_event("endpoint", data), Inbound::Dropped(Dropped::OtherEvent));
    assert_eq!(c.waiter_of("r1"), Some(11));
    assert!(matches!(c.on_event("message", data), Inbound::Settled(_)));
    assert_eq!(c.waiter_of("r1"), None);
}

#[test]
fn a_timeout_takes_the_call_out_of_the_table() {
    let mut c = open_with("r1", 11);
    assert_eq!(
        c.expire("r1"),
        Some(Settlement { request_id: "r1".to_string(), waiter: 11, outcome: Err(CallError::Timeout) })
    );
    assert_eq!(c.waiter_of("r1"), None);
    assert_eq!(c.expire("r1"), None);
    assert_eq!(
        c.on_line("{\"jsonrpc\":\"2.0\",\"id\":\"r1\",\"result\":1}"),
        Inbound::Dropped(Dropped::NotPending)
    );
}

#[test]
fn a_timeout_after_the_response_finds_nothing() {
    let mut c = open_with("r1", 11);
    assert!(matches!(
        c.on_line("{\"jsonrpc\":\"2.0\",\"id\":\"r1\",\"result\":1}"),
        Inbound::Settled(_)
    ));
    assert_eq!(c.expire("r1"), None);
}

#[test]
fn teardown_fails_every_call_in_flight() {
    let mut c = DownstreamClient::new("svc".to_string());
    for (id, waiter) in [("a", 1u64), ("b", 2), ("c", 3)] {
        c.begin_call(id.to_string(), waiter, "tools/list", None).expect("a request");
    }
    let mut closed = c.close();
    closed.sort_by(|x, y| x.request_id.cmp(&y.request_id));
    assert_eq!(
        closed,
        vec![
            Settlement { request_id: "a".to_string(), waiter: 1, outcome: Err(CallError::ConnectionClosed) },
            Settlement { request_id: "b".to_string(), waiter: 2, outcome: Err(CallError::ConnectionClosed) },
            Settlement { request_id: "c".to_string(), waiter: 3, outcome: Err(CallError::ConnectionClosed) },
        ]
    );
    assert!(!c.accepts_calls());
    assert_eq!(c.waiter_of("a"), None);
    assert_eq!(c.close(), vec![]);
}

#[test]
fn a_closed_connection_takes_no_call() {
    let mut c = DownstreamClient::new("svc".to_string());
    c.close();
    assert_eq!(
        c.begin_call("r1".to_string(), 1, "tools/list", None),
        Err(CallError::ConnectionClosed)
    );
    assert_eq!(c.waiter_of("r1"), None);
}
