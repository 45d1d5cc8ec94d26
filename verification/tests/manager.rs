use mcp_router::client::{CallError, Dropped, Inbound, Settlement};
use mcp_router::json::Json;
use mcp_router::manager::{ClientManager, ConnectionError};

#[test]
fn a_started_process_is_registered() {
    let mut m = ClientManager::new();
    assert_eq!(m.list_clients(), Vec::<String>::new());
    assert_eq!(m.spawn_client("svc1".to_string(), true), Ok(vec![]));
    assert_eq!(m.spawn_client("svc2".to_string(), true), Ok(vec![]));
    assert_eq!(m.list_clients(), vec!["svc1".to_string(), "svc2".to_string()]);
    assert_eq!(m.find("svc2"), Some(1));
    assert_eq!(m.find("svc3"), None);
}

#[test]
fn a_process_that_did_not_start_registers_nothing() {
    let mut m = ClientManager::new();
    assert_eq!(m.spawn_client("svc1".to_string(), true), Ok(vec![]));
    assert_eq!(m.spawn_client("svc2".to_string(), false), Err(ConnectionError::SpawnFailed));
    assert_eq!(m.list_clients(), vec!["svc1".to_string()]);
}

#[test]
fn a_handshake_without_success_registers_nothing() {
    let mut m = ClientManager::new();
    assert_eq!(m.spawn_sse_client("a".to_string(), None), Err(ConnectionError::ConnectFailed));
    assert_eq!(
        m.spawn_sse_client("a".to_string(), Some(404)),
        Err(ConnectionError::HandshakeRejected(404))
    );
    assert_eq!(
        m.spawn_sse_client("a".to_string(), Some(199)),
        Err(ConnectionError::HandshakeRejected(199))
    );
    assert_eq!(
        m.spawn_sse_client("a".to_string(), Some(300)),
        Err(ConnectionError::HandshakeRejected(300))
    );
    assert_eq!(m.list_clients(), Vec::<String>::new());
    assert_eq!(m.spawn_sse_client("a".to_string(), Some(200)), Ok(vec![]));
    assert_eq!(m.spawn_sse_client("b".to_string(), Some(299)), Ok(vec![]));
    assert_eq!(m.list_clients(), vec!["a".to_string(), "b".to_string()]);
}

#[test]
fn registering_again_replaces_the_connection_and_fails_its_calls() {
    let mut m = ClientManager::new();
    m.register("svc1".to_string());
    m.register("svc2".to_string());
    m.begin_call("svc1", "r1".to_string(), 5, "tools/list", None).expect("a request");
    assert_eq!(
        m.register("svc1".to_string()),
        vec![Settlement {
            request_id: "r1".to_string(),
            waiter: 5,
            outcome: Err(CallError::ConnectionClosed),
        }]
    );
    assert_eq!(m.list_clients(), vec!["svc1".to_string(), "svc2".to_string()]);
    assert!(m.begin_call("svc1", "r1".to_string(), 6, "tools/list", None).is_ok());
}

#[test]
fn list_tools_asks_under_a_fresh_identifier() {
    let mut m = ClientManager::new();
    m.register("svc1".to_string());
    let first = m.list_tools("svc1", 1).expect("a request");
    let second = m.list_tools("svc1", 2).expect("a request");
    assert_eq!(first.jsonrpc, "2.0");
    assert_eq!(first.method, "tools/list");
    assert_eq!(first.params, None);
    let id = first.id.as_str().expect("a string").to_string();
    assert_eq!(id.len(), 36);
    assert_ne!(first.id, second.id);
    let line = format!("{{\"jsonrpc\":\"2.0\",\"id\":\"{}\",\"result\":7}}", id);
    assert_eq!(
        m.on_line("svc1", &line),
        Some(Inbound::Settled(Settlement { request_id: id, waiter: 1, outcome: Ok(Json::integer(7)) }))
    );
}

#[test]
fn call_tool_names_the_tool_and_passes_the_arguments() {
    let mut m = ClientManager::new();
    m.register("svc1".to_string());
    let arguments = Json::Object(vec![("text".to_string(), Json::string("hi"))]);
    let request = m.call_tool("svc1", "echo", arguments.clone(), 1).expect("a request");
    assert_eq!(request.method, "tools/call");
    assert_eq!(
        request.params,
        Some(Json::Object(vec![
            ("name".to_string(), Json::string("echo")),
            ("arguments".to_string(), arguments.clone()),
        ]))
    );
    let fixed = m
        .call_tool_as("svc1", "echo", arguments.clone(), "r-9".to_string(), 2)
        .expect("a request");
    assert_eq!(fixed.id, Json::string("r-9"));
    assert_eq!(fixed.params, request.params);
}

#[test]
fn a_call_to_an_unregistered_downstream_fails() {
    let mut m = ClientManager::new();
    m.register("svc1".to_string());
    assert_eq!(m.list_tools("ghost", 1), Err(CallError::NotConnected));
    assert_eq!(m.call_tool("ghost", "echo", Json::Null, 1), Err(CallError::NotConnected));
    assert_eq!(m.on_line("ghost", "{}"), None);
    assert_eq!(m.on_event("ghost", "message", "{}"), None);
    assert_eq!(m.expire("ghost", "r1"), None);
    assert_eq!(m.close_client("ghost"), vec![]);
}

#[test]
fn a_torn_down_connection_stays_registered_and_fails_calls() {
    let mut m = ClientManager::new();
    m.register("svc1".to_string());
    m.begin_call("svc1", "r1".to_string(), 5, "tools/list", None).expect("a request");
    assert_eq!(
        m.close_client("svc1"),
        vec![Settlement {
            request_id: "r1".to_string(),
            waiter: 5,
            outcome: Err(CallError::ConnectionClosed),
        }]
    );
    assert_eq!(m.list_clients(), vec!["svc1".to_string()]);
    assert_eq!(m.list_tools("svc1", 6), Err(CallError::ConnectionClosed));
    assert_eq!(
        m.begin_call("svc1", "r2".to_string(), 6, "tools/list", None),
        Err(CallError::ConnectionClosed)
    );
}

#[test]
fn a_timeout_is_kept_to_its_connection() {
    let mut m = ClientManager::new();
    m.register("svc1".to_string());
    m.register("svc2".to_string());
    m.begin_call("svc1", "r1".to_string(), 5, "tools/list", None).expect("a request");
    m.begin_call("svc2", "r1".to_string(), 6, "tools/list", None).expect("a request");
    assert_eq!(
        m.expire("svc1", "r1"),
        Some(Settlement { request_id: "r1".to_string(), waiter: 5, outcome: Err(CallError::Timeout) })
    );
    assert_eq!(m.expire("svc1", "r1"), None);
    assert_eq!(
        m.on_event("svc2", "message", "{\"jsonrpc\":\"2.0\",\"id\":\"r1\",\"result\":null}"),
        Some(Inbound::Settled(Settlement { request_id: "r1".to_string(), waiter: 6, outcome: Ok(Json::Null) }))
    );
    assert_eq!(
        m.on_event("svc2", "ping", ""),
        Some(Inbound::Dropped(Dropped::OtherEvent))
    );
}

#[test]
fn a_duplicate_identifier_is_refused() {
    let mut m = ClientManager::new();
    m.register("svc1".to_string());
    m.begin_call("svc1", "r1".to_string(), 5, "tools/list", None).expect("a request");
    assert_eq!(
        m.begin_call("svc1", "r1".to_string(), 6, "tools/list", None),
        Err(CallError::DuplicateId)
    );
}
