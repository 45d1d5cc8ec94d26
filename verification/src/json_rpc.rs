//! The JSON-RPC messages that the gateway exchanges, and the rule that tells
//! their four shapes apart on the wire.

use vstd::prelude::*;
use vstd::string::StringExecFns;
use crate::json::{Json, JsonValue, NumberValue, members_of};
use crate::json_text::{parse, parsed_json, print, printed_json};

verus! {

/// The error object of a response.
#[derive(Debug, Clone, PartialEq)]
pub struct JsonRpcError {
    pub code: i64,
    pub message: String,
    pub data: Option<Json>,
}

/// A call that expects a response under the same `id`.
#[derive(Debug, Clone, PartialEq)]
pub struct JsonRpcRequest {
    pub jsonrpc: String,
    pub id: Json,
    pub method: String,
    pub params: Option<Json>,
}

/// The answer to a request: a result, an error, or both.
#[derive(Debug, Clone, PartialEq)]
pub struct JsonRpcResponse {
    pub jsonrpc: String,
    pub id: Json,
    pub result: Option<Json>,
    pub error: Option<JsonRpcError>,
}

/// A call that expects no response.
#[derive(Debug, Clone, PartialEq)]
pub struct JsonRpcNotification {
    pub jsonrpc: String,
    pub method: String,
    pub params: Option<Json>,
}

/// An error that may belong to no request.
#[derive(Debug, Clone, PartialEq)]
pub struct JsonRpcErrorResponse {
    pub jsonrpc: String,
    pub id: Option<Json>,
    pub error: JsonRpcError,
}

/// A message in one of its four shapes.
#[derive(Debug, Clone, PartialEq)]
pub enum JsonRpcMessage {
    Request(JsonRpcRequest),
    Response(JsonRpcResponse),
    Notification(JsonRpcNotification),
    Error(JsonRpcErrorResponse),
}

/// Why a text is no message.
#[derive(Debug, Clone, Copy, PartialEq, Eq, Structural)]
pub enum DecodeError {
    /// The text is no JSON document.
    InvalidJson,
    /// The document has none of the shapes that decoding tells apart.
    Malformed,
}

pub ghost struct ErrorView {
    pub code: i64,
    pub message: Seq<char>,
    pub data: Option<JsonValue>,
}

pub ghost struct RequestView {
    pub jsonrpc: Seq<char>,
    pub id: JsonValue,
    pub method: Seq<char>,
    pub params: Option<JsonValue>,
}

pub ghost struct ResponseView {
    pub jsonrpc: Seq<char>,
    pub id: JsonValue,
    pub result: Option<JsonValue>,
    pub error: Option<ErrorView>,
}

pub ghost struct NotificationView {
    pub jsonrpc: Seq<char>,
    pub method: Seq<char>,
    pub params: Option<JsonValue>,
}

pub ghost struct ErrorResponseView {
    pub jsonrpc: Seq<char>,
    pub id: Option<JsonValue>,
    pub error: ErrorView,
}

pub ghost enum MessageView {
    Request(RequestView),
    Response(ResponseView),
    Notification(NotificationView),
    Error(ErrorResponseView),
}

/// The value of an optional document.
pub open spec fn opt_view(j: Option<Json>) -> Option<JsonValue> {
    match j {
        Some(j) => Some(j@),
        None => None,
    }
}

impl View for JsonRpcError {
    type V = ErrorView;

    open spec fn view(&self) -> ErrorView {
        ErrorView { code: self.code, message: self.message@, data: opt_view(self.data) }
    }
}

impl View for JsonRpcRequest {
    type V = RequestView;

    open spec fn view(&self) -> RequestView {
        RequestView {
            jsonrpc: self.jsonrpc@,
            id: self.id@,
            method: self.method@,
            params: opt_view(self.params),
        }
    }
}

impl View for JsonRpcResponse {
    type V = ResponseView;

    open spec fn view(&self) -> ResponseView {
        ResponseView {
            jsonrpc: self.jsonrpc@,
            id: self.id@,
            result: opt_view(self.result),
            error: match self.error {
                Some(e) => Some(e@),
                None => None,
            },
        }
    }
}

impl View for JsonRpcNotification {
    type V = NotificationView;

    open spec fn view(&self) -> NotificationView {
        NotificationView {
            jsonrpc: self.jsonrpc@,
            method: self.method@,
            params: opt_view(self.params),
        }
    }
}

impl View for JsonRpcErrorResponse {
    type V = ErrorResponseView;

    open spec fn view(&self) -> ErrorResponseView {
        ErrorResponseView { jsonrpc: self.jsonrpc@, id: opt_view(self.id), error: self.error@ }
    }
}

impl View for JsonRpcMessage {
    type V = MessageView;

    open spec fn view(&self) -> MessageView {
        match self {
            JsonRpcMessage::Request(r) => MessageView::Request(r@),
            JsonRpcMessage::Response(r) => MessageView::Response(r@),
            JsonRpcMessage::Notification(n) => MessageView::Notification(n@),
            JsonRpcMessage::Error(e) => MessageView::Error(e@),
        }
    }
}

/// `m` with `value` under `key` where there is a value, else `m`.
pub open spec fn with_optional(
    m: Map<Seq<char>, JsonValue>,
    key: Seq<char>,
    value: Option<JsonValue>,
) -> Map<Seq<char>, JsonValue> {
    match value {
        Some(v) => m.insert(key, v),
        None => m,
    }
}

impl ErrorView {
    /// The object that stands for this error on the wire: `code`, `message`
    /// and, where there is one, `data`.
    pub open spec fn to_json(self) -> JsonValue {
        JsonValue::Object(
            with_optional(
                Map::empty().insert("code"@, JsonValue::Number(NumberValue::Int(self.code as int)))
                    .insert("message"@, JsonValue::Str(self.message)),
                "data"@,
                self.data,
            ),
        )
    }

    /// The error that an object stands for: its `code` is an integer in 64
    /// signed bits and its `message` a string; `data` is taken where present.
    pub open spec fn from_json(v: JsonValue) -> Option<ErrorView> {
        match (v.member("code"@), v.member("message"@)) {
            (Some(code), Some(message)) => match (code.integer(), message.text()) {
                (Some(code), Some(message)) => Some(
                    ErrorView { code, message, data: v.member("data"@) },
                ),
                _ => None,
            },
            _ => None,
        }
    }
}

impl MessageView {
    /// Whether the message has a shape that can be told from the others: a
    /// response carries a result or an error.
    pub open spec fn wf(self) -> bool {
        match self {
            MessageView::Response(r) => r.result is Some || r.error is Some,
            _ => true,
        }
    }

    /// The object that stands for this message on the wire. A field that is
    /// absent has no member.
    pub open spec fn to_json(self) -> JsonValue {
        match self {
            MessageView::Request(r) => JsonValue::Object(
                with_optional(
                    Map::empty().insert("jsonrpc"@, JsonValue::Str(r.jsonrpc)).insert("id"@, r.id)
                        .insert("method"@, JsonValue::Str(r.method)),
                    "params"@,
                    r.params,
                ),
            ),
            MessageView::Response(r) => JsonValue::Object(
                with_optional(
                    with_optional(
                        Map::empty().insert("jsonrpc"@, JsonValue::Str(r.jsonrpc)).insert(
                            "id"@,
                            r.id,
                        ),
                        "result"@,
                        r.result,
                    ),
                    "error"@,
                    match r.error {
                        Some(e) => Some(e.to_json()),
                        None => None,
                    },
                ),
            ),
            MessageView::Notification(n) => JsonValue::Object(
                with_optional(
                    Map::empty().insert("jsonrpc"@, JsonValue::Str(n.jsonrpc)).insert(
                        "method"@,
                        JsonValue::Str(n.method),
                    ),
                    "params"@,
                    n.params,
                ),
            ),
            MessageView::Error(e) => JsonValue::Object(
                with_optional(
                    Map::empty().insert("jsonrpc"@, JsonValue::Str(e.jsonrpc)),
                    "id"@,
                    e.id,
                ).insert("error"@, e.error.to_json()),
            ),
        }
    }

    /// The message that a document stands for. With `method` and `id` it is
    /// a request; with `method` and no `id`, a notification; with `id`, no
    /// `method`, and `result` or `error`, a response; anything else is
    /// malformed. `jsonrpc` and `method` are strings, and `error` an error
    /// object.
    pub open spec fn from_json(v: JsonValue) -> Result<MessageView, DecodeError> {
        match v.member("jsonrpc"@) {
            Some(JsonValue::Str(jsonrpc)) => match v.member("method"@) {
                Some(JsonValue::Str(method)) => match v.member("id"@) {
                    Some(id) => Ok(
                        MessageView::Request(
                            RequestView { jsonrpc, id, method, params: v.member("params"@) },
                        ),
                    ),
                    None => Ok(
                        MessageView::Notification(
                            NotificationView { jsonrpc, method, params: v.member("params"@) },
                        ),
                    ),
                },
                Some(_) => Err(DecodeError::Malformed),
                None => match v.member("id"@) {
                    Some(id) => match v.member("error"@) {
                        Some(e) => match ErrorView::from_json(e) {
                            Some(error) => Ok(
                                MessageView::Response(
                                    ResponseView {
                                        jsonrpc,
                                        id,
                                        result: v.member("result"@),
                                        error: Some(error),
                                    },
                                ),
                            ),
                            None => Err(DecodeError::Malformed),
                        },
                        None => match v.member("result"@) {
                            Some(result) => Ok(
                                MessageView::Response(
                                    ResponseView {
                                        jsonrpc,
                                        id,
                                        result: Some(result),
                                        error: None,
                                    },
                                ),
                            ),
                            None => Err(DecodeError::Malformed),
                        },
                    },
                    None => Err(DecodeError::Malformed),
                },
            },
            _ => Err(DecodeError::Malformed),
        }
    }
}

/// What decoding a text gives: the message of the document it holds.
pub open spec fn decode_spec(text: Seq<char>) -> Result<MessageView, DecodeError> {
    match parsed_json(text) {
        Some(v) => MessageView::from_json(v),
        None => Err(DecodeError::InvalidJson),
    }
}

/// What encoding a message gives: the text that the JSON library writes for
/// the object that stands for it, or nothing where it writes none.
pub open spec fn encode_spec(m: MessageView) -> Option<Seq<char>> {
    printed_json(m.to_json())
}

/// What encoding a message as a line gives: its text, closed by a line feed.
pub open spec fn encode_line_spec(m: MessageView) -> Option<Seq<char>> {
    match encode_spec(m) {
        Some(text) => Some(text + "\n"@),
        None => None,
    }
}

/// Puts `value` behind the pairs of an object under construction.
pub fn push_member(pairs: &mut Vec<(String, Json)>, key: &str, value: Json)
    ensures
        members_of(final(pairs)@) == members_of(old(pairs)@).insert(key@, value@),
{
    let ghost before = pairs@;
    pairs.push((key.to_owned(), value));
    assert(pairs@.drop_last() == before);
}

/// Puts a copy of `value` behind the pairs of an object under construction,
/// where there is a value.
pub fn push_optional(pairs: &mut Vec<(String, Json)>, key: &str, value: &Option<Json>)
    ensures
        members_of(final(pairs)@) == with_optional(
            members_of(old(pairs)@),
            key@,
            opt_view(*value),
        ),
{
    match value {
        Some(v) => push_member(pairs, key, v.clone()),
        None => {},
    }
}

/// A copy of the member under `key`, where `j` is an object that has one.
pub fn member_copy(j: &Json, key: &str) -> (r: Option<Json>)
    ensures
        opt_view(r) == j@.member(key@),
{
    match j.get(key) {
        Some(v) => Some(v.clone()),
        None => None,
    }
}

impl JsonRpcError {
    /// The object that stands for this error on the wire.
    pub fn to_json(&self) -> (r: Json)
        ensures
            r@ == self@.to_json(),
    {
        let mut pairs: Vec<(String, Json)> = Vec::new();
        assert(members_of(pairs@) =~= Map::empty());
        push_member(&mut pairs, "code", Json::integer(self.code));
        push_member(&mut pairs, "message", Json::string(self.message.as_str()));
        push_optional(&mut pairs, "data", &self.data);
        Json::Object(pairs)
    }

    /// The error that a document stands for, if it stands for one.
    pub fn from_json(j: &Json) -> (r: Option<JsonRpcError>)
        ensures
            r matches Some(e) ==> ErrorView::from_json(j@) == Some(e@),
            r is None <==> ErrorView::from_json(j@) is None,
    {
        let code = match j.get("code") {
            Some(c) => c.as_i64(),
            None => None,
        };
        let message = match j.get("message") {
            Some(m) => m.as_str(),
            None => None,
        };
        match (code, message) {
            (Some(code), Some(message)) => Some(
                JsonRpcError { code, message: message.to_owned(), data: member_copy(j, "data") },
            ),
            _ => None,
        }
    }
}

impl JsonRpcMessage {
    /// The object that stands for this message on the wire.
    pub fn to_json(&self) -> (r: Json)
        ensures
            r@ == self@.to_json(),
    {
        let mut pairs: Vec<(String, Json)> = Vec::new();
        assert(members_of(pairs@) =~= Map::empty());
        match self {
            JsonRpcMessage::Request(r) => {
                push_member(&mut pairs, "jsonrpc", Json::string(r.jsonrpc.as_str()));
                push_member(&mut pairs, "id", r.id.clone());
                push_member(&mut pairs, "method", Json::string(r.method.as_str()));
                push_optional(&mut pairs, "params", &r.params);
            },
            JsonRpcMessage::Response(r) => {
                push_member(&mut pairs, "jsonrpc", Json::string(r.jsonrpc.as_str()));
                push_member(&mut pairs, "id", r.id.clone());
                push_optional(&mut pairs, "result", &r.result);
                match &r.error {
                    Some(e) => push_member(&mut pairs, "error", e.to_json()),
                    None => {},
                }
            },
            JsonRpcMessage::Notification(n) => {
                push_member(&mut pairs, "jsonrpc", Json::string(n.jsonrpc.as_str()));
                push_member(&mut pairs, "method", Json::string(n.method.as_str()));
                push_optional(&mut pairs, "params", &n.params);
            },
            JsonRpcMessage::Error(e) => {
                push_member(&mut pairs, "jsonrpc", Json::string(e.jsonrpc.as_str()));
                push_optional(&mut pairs, "id", &e.id);
                push_member(&mut pairs, "error", e.error.to_json());
            },
        }
        Json::Object(pairs)
    }

    /// The message that a document stands for, or why it stands for none.
    pub fn from_json(j: &Json) -> (r: Result<JsonRpcMessage, DecodeError>)
        ensures
            match r {
                Ok(m) => MessageView::from_json(j@) == Ok::<MessageView, DecodeError>(m@),
                Err(e) => MessageView::from_json(j@) == Err::<MessageView, DecodeError>(e),
            },
    {
        let jsonrpc = match j.get("jsonrpc") {
            Some(Json::Str(s)) => s.clone(),
            _ => {
                return Err(DecodeError::Malformed);
            },
        };
        match j.get("method") {
            Some(Json::Str(method)) => {
                let method = method.clone();
                let params = member_copy(j, "params");
                match j.get("id") {
                    Some(id) => Ok(
                        JsonRpcMessage::Request(
                            JsonRpcRequest { jsonrpc, id: id.clone(), method, params },
                        ),
                    ),
                    None => Ok(
                        JsonRpcMessage::Notification(
                            JsonRpcNotification { jsonrpc, method, params },
                        ),
                    ),
                }
            },
            Some(_) => Err(DecodeError::Malformed),
            None => {
                let id = match j.get("id") {
                    Some(id) => id.clone(),
                    None => {
                        return Err(DecodeError::Malformed);
                    },
                };
                let result = member_copy(j, "result");
                match j.get("error") {
                    Some(e) => match JsonRpcError::from_json(e) {
                        Some(error) => Ok(
                            JsonRpcMessage::Response(
                                JsonRpcResponse { jsonrpc, id, result, error: Some(error) },
                            ),
                        ),
                        None => Err(DecodeError::Malformed),
                    },
                    None => match result {
                        Some(result) => Ok(
                            JsonRpcMessage::Response(
                                JsonRpcResponse { jsonrpc, id, result: Some(result), error: None },
                            ),
                        ),
                        None => Err(DecodeError::Malformed),
                    },
                }
            },
        }
    }
}

/// Decodes one message from `text`.
pub fn decode(text: &str) -> (r: Result<JsonRpcMessage, DecodeError>)
    ensures
        match r {
            Ok(m) => decode_spec(text@) == Ok::<MessageView, DecodeError>(m@),
            Err(e) => decode_spec(text@) == Err::<MessageView, DecodeError>(e),
        },
{
    match parse(text) {
        Some(j) => JsonRpcMessage::from_json(&j),
        None => Err(DecodeError::InvalidJson),
    }
}

/// Encodes a message as one line of text, without a line end: what the JSON
/// library writes for the object that stands for the message, a text or
/// nothing.
pub fn encode(message: &JsonRpcMessage) -> (r: Option<String>)
    ensures
        r matches Some(s) ==> encode_spec(message@) == Some(s@),
        r is None <==> encode_spec(message@) is None,
{
    print(&message.to_json())
}

/// Closes a text by a single line feed.
pub fn line_of(text: String) -> (r: String)
    ensures
        r@ == text@ + "\n"@,
{
    let mut line = text;
    line.append("\n");
    line
}

/// Encodes a message as one line of text, closed by a single line feed, as
/// it goes over a stream of lines: a line where encoding gives a text,
/// nothing where it gives none.
pub fn encode_line(message: &JsonRpcMessage) -> (r: Option<String>)
    ensures
        r matches Some(s) ==> encode_line_spec(message@) == Some(s@),
        r is None <==> encode_line_spec(message@) is None,
{
    match encode(message) {
        Some(text) => Some(line_of(text)),
        None => None,
    }
}

/// The keys of a message and of an error object differ from one another.
pub proof fn lemma_keys_distinct()
    ensures
        "jsonrpc"@ != "id"@,
        "jsonrpc"@ != "method"@,
        "jsonrpc"@ != "params"@,
        "jsonrpc"@ != "result"@,
        "jsonrpc"@ != "error"@,
        "id"@ != "method"@,
        "id"@ != "params"@,
        "id"@ != "result"@,
        "id"@ != "error"@,
        "method"@ != "params"@,
        "method"@ != "result"@,
        "method"@ != "error"@,
        "params"@ != "result"@,
        "params"@ != "error"@,
        "result"@ != "error"@,
        "code"@ != "message"@,
        "code"@ != "data"@,
        "message"@ != "data"@,
{
    reveal_strlit("jsonrpc");
    reveal_strlit("id");
    reveal_strlit("method");
    reveal_strlit("params");
    reveal_strlit("result");
    reveal_strlit("error");
    reveal_strlit("code");
    reveal_strlit("message");
    reveal_strlit("data");
    assert("jsonrpc"@.len() == 7);
    assert("id"@.len() == 2);
    assert("method"@.len() == 6 && "method"@[0] == 'm');
    assert("params"@.len() == 6 && "params"@[0] == 'p');
    assert("result"@.len() == 6 && "result"@[0] == 'r');
    assert("error"@.len() == 5);
    assert("code"@.len() == 4 && "code"@[0] == 'c');
    assert("message"@.len() == 7);
    assert("data"@.len() == 4 && "data"@[0] == 'd');
}

/// An error object read back from the object that stands for it is the same.
pub proof fn lemma_error_round_trip(e: ErrorView)
    ensures
        ErrorView::from_json(e.to_json()) == Some(e),
{
    lemma_keys_distinct();
}

/// Reading the object that stands for a message gives the message back,
/// where the message is well formed and not of the error shape (whose
/// object, with an `id`, is that of a response, and without one has neither
/// `method` nor `id`).
pub proof fn lemma_from_json_to_json(m: MessageView)
    requires
        m.wf(),
        !(m is Error),
    ensures
        MessageView::from_json(m.to_json()) == Ok::<MessageView, DecodeError>(m),
{
    lemma_keys_distinct();
    match m {
        MessageView::Response(r) => {
            if let Some(e) = r.error {
                lemma_error_round_trip(e);
            }
        },
        _ => {},
    }
}

/// Decoding the text of a message gives the message back, where the message
/// is well formed and not of the error shape, encoding gives a text, and the
/// JSON library reads from that text the value it wrote.
pub proof fn lemma_decode_encode(m: MessageView)
    requires
        m.wf(),
        !(m is Error),
    ensures
        encode_spec(m) matches Some(text) ==> (parsed_json(text) == Some(m.to_json())
            ==> decode_spec(text) == Ok::<MessageView, DecodeError>(m)),
{
    lemma_from_json_to_json(m);
}

} // verus!
