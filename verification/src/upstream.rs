//! What a client of the gateway asks for, and what it is answered.

use vstd::prelude::*;
use crate::client::{CallError, CallErrorView};
use crate::handler::DispatchError;
use crate::json::{Json, JsonValue};
use crate::json_rpc::{
    member_copy, ErrorView, JsonRpcError, JsonRpcRequest, JsonRpcResponse, RequestView,
    ResponseView,
};

verus! {

/// The code of JSON-RPC 2.0 for a method that does not exist.
pub const METHOD_NOT_FOUND: i64 = -32601;

/// The code of JSON-RPC 2.0 for parameters that do not fit the method.
pub const INVALID_PARAMS: i64 = -32602;

/// The first of the codes that JSON-RPC 2.0 leaves to the server.
pub const SERVER_ERROR: i64 = -32000;

/// One of the two operations that the gateway offers its clients.
#[derive(Debug, PartialEq)]
pub enum UpstreamCall {
    /// `tools/list`: the merged catalog.
    ListTools,
    /// `tools/call`: a call of the tool under the namespaced `name`.
    CallTool { name: String, arguments: Json },
}

pub ghost enum UpstreamCallView {
    ListTools,
    CallTool { name: Seq<char>, arguments: JsonValue },
}

impl View for UpstreamCall {
    type V = UpstreamCallView;

    open spec fn view(&self) -> UpstreamCallView {
        match self {
            UpstreamCall::ListTools => UpstreamCallView::ListTools,
            UpstreamCall::CallTool { name, arguments } => UpstreamCallView::CallTool {
                name: name@,
                arguments: arguments@,
            },
        }
    }
}

/// Why a request asks for neither operation.
#[derive(Debug, Clone, Copy, PartialEq, Eq, Structural)]
pub enum UpstreamError {
    /// The method is neither `tools/list` nor `tools/call`.
    MethodNotFound,
    /// The parameters of `tools/call` hold no string under `name`.
    InvalidParams,
}

/// What a request asks for. `tools/call` takes the tool's name from the
/// string under `name` of its parameters, and the arguments from what is
/// under `arguments`, `null` where nothing is.
pub open spec fn upstream_call_of(request: RequestView) -> Result<UpstreamCallView, UpstreamError> {
    if request.method == "tools/list"@ {
        Ok(UpstreamCallView::ListTools)
    } else if request.method == "tools/call"@ {
        match request.params {
            Some(params) => match params.member("name"@) {
                Some(JsonValue::Str(name)) => Ok(
                    UpstreamCallView::CallTool {
                        name,
                        arguments: match params.member("arguments"@) {
                            Some(arguments) => arguments,
                            None => JsonValue::Null,
                        },
                    },
                ),
                _ => Err(UpstreamError::InvalidParams),
            },
            None => Err(UpstreamError::InvalidParams),
        }
    } else {
        Err(UpstreamError::MethodNotFound)
    }
}

/// The response to the request `id`: the result where the outcome is one,
/// the error where it is none.
pub open spec fn response_of(id: JsonValue, outcome: Result<JsonValue, ErrorView>) -> ResponseView {
    ResponseView {
        jsonrpc: "2.0"@,
        id,
        result: match outcome {
            Ok(v) => Some(v),
            Err(_) => None,
        },
        error: match outcome {
            Ok(_) => None,
            Err(e) => Some(e),
        },
    }
}

/// The error object that tells a client why its call failed. An error of the
/// downstream server goes on as it came; the others get a code of the server.
pub open spec fn call_failure_of(e: CallErrorView) -> ErrorView {
    match e {
        CallErrorView::Downstream(error) => error,
        CallErrorView::NotConnected => ErrorView {
            code: SERVER_ERROR,
            message: "downstream not connected"@,
            data: None,
        },
        CallErrorView::ConnectionClosed => ErrorView {
            code: SERVER_ERROR,
            message: "connection closed"@,
            data: None,
        },
        CallErrorView::DuplicateId => ErrorView {
            code: SERVER_ERROR,
            message: "request identifier in use"@,
            data: None,
        },
        CallErrorView::Timeout => ErrorView {
            code: SERVER_ERROR,
            message: "call timed out"@,
            data: None,
        },
    }
}

/// The error object that tells a client why its call was not dispatched.
pub open spec fn dispatch_failure_of(e: DispatchError) -> ErrorView {
    match e {
        DispatchError::MalformedName => ErrorView {
            code: INVALID_PARAMS,
            message: "malformed tool name"@,
            data: None,
        },
        DispatchError::UnknownDownstream => ErrorView {
            code: INVALID_PARAMS,
            message: "unknown downstream"@,
            data: None,
        },
        DispatchError::ConnectionClosed => call_failure_of(CallErrorView::ConnectionClosed),
        DispatchError::DuplicateId => call_failure_of(CallErrorView::DuplicateId),
        DispatchError::NoMatchingTool => ErrorView {
            code: INVALID_PARAMS,
            message: "no matching tool"@,
            data: None,
        },
        DispatchError::RouterFailed => ErrorView {
            code: SERVER_ERROR,
            message: "router failed"@,
            data: None,
        },
    }
}

/// The error object that tells a client why its request asks for nothing.
pub open spec fn upstream_failure_of(e: UpstreamError) -> ErrorView {
    match e {
        UpstreamError::MethodNotFound => ErrorView {
            code: METHOD_NOT_FOUND,
            message: "method not found"@,
            data: None,
        },
        UpstreamError::InvalidParams => ErrorView {
            code: INVALID_PARAMS,
            message: "invalid params"@,
            data: None,
        },
    }
}

/// The view of an outcome.
pub open spec fn outcome_view(outcome: Result<Json, JsonRpcError>) -> Result<JsonValue, ErrorView> {
    match outcome {
        Ok(v) => Ok(v@),
        Err(e) => Err(e@),
    }
}

/// An error object with no data.
pub fn plain_error(code: i64, message: &str) -> (r: JsonRpcError)
    ensures
        r@ == (ErrorView { code, message: message@, data: None }),
{
    JsonRpcError { code, message: message.to_owned(), data: None }
}

/// What a request asks for.
pub fn upstream_call(request: &JsonRpcRequest) -> (r: Result<UpstreamCall, UpstreamError>)
    ensures
        match r {
            Ok(call) => upstream_call_of(request@) == Ok::<UpstreamCallView, UpstreamError>(call@),
            Err(e) => upstream_call_of(request@) == Err::<UpstreamCallView, UpstreamError>(e),
        },
{
    if request.method == "tools/list".to_owned() {
        Ok(UpstreamCall::ListTools)
    } else if request.method == "tools/call".to_owned() {
        match &request.params {
            Some(params) => {
                let name = match params.get("name") {
                    Some(Json::Str(name)) => name.clone(),
                    _ => {
                        return Err(UpstreamError::InvalidParams);
                    },
                };
                let arguments = match member_copy(params, "arguments") {
                    Some(arguments) => arguments,
                    None => Json::Null,
                };
                Ok(UpstreamCall::CallTool { name, arguments })
            },
            None => Err(UpstreamError::InvalidParams),
        }
    } else {
        Err(UpstreamError::MethodNotFound)
    }
}

/// The response to the request `id`.
pub fn respond(id: Json, outcome: Result<Json, JsonRpcError>) -> (r: JsonRpcResponse)
    ensures
        r@ == response_of(id@, outcome_view(outcome)),
{
    match outcome {
        Ok(v) => JsonRpcResponse { jsonrpc: "2.0".to_owned(), id, result: Some(v), error: None },
        Err(e) => JsonRpcResponse { jsonrpc: "2.0".to_owned(), id, result: None, error: Some(e) },
    }
}

/// The error object that tells a client why its call failed.
pub fn call_failure(e: CallError) -> (r: JsonRpcError)
    ensures
        r@ == call_failure_of(e@),
{
    match e {
        CallError::Downstream(error) => error,
        CallError::NotConnected => plain_error(SERVER_ERROR, "downstream not connected"),
        CallError::ConnectionClosed => plain_error(SERVER_ERROR, "connection closed"),
        CallError::DuplicateId => plain_error(SERVER_ERROR, "request identifier in use"),
        CallError::Timeout => plain_error(SERVER_ERROR, "call timed out"),
    }
}

/// The error object that tells a client why its call was not dispatched.
pub fn dispatch_failure(e: DispatchError) -> (r: JsonRpcError)
    ensures
        r@ == dispatch_failure_of(e),
{
    match e {
        DispatchError::MalformedName => plain_error(INVALID_PARAMS, "malformed tool name"),
        DispatchError::UnknownDownstream => plain_error(INVALID_PARAMS, "unknown downstream"),
        DispatchError::ConnectionClosed => call_failure(CallError::ConnectionClosed),
        DispatchError::DuplicateId => call_failure(CallError::DuplicateId),
        DispatchError::NoMatchingTool => plain_error(INVALID_PARAMS, "no matching tool"),
        DispatchError::RouterFailed => plain_error(SERVER_ERROR, "router failed"),
    }
}

/// The error object that tells a client why its request asks for nothing.
pub fn upstream_failure(e: UpstreamError) -> (r: JsonRpcError)
    ensures
        r@ == upstream_failure_of(e),
{
    match e {
        UpstreamError::MethodNotFound => plain_error(METHOD_NOT_FOUND, "method not found"),
        UpstreamError::InvalidParams => plain_error(INVALID_PARAMS, "invalid params"),
    }
}

} // verus!
