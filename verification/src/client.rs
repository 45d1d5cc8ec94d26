//! One connection to a downstream server: the calls in flight on it, and
//! what each inbound line, timeout or teardown does to them.

use vstd::prelude::*;
use crate::json::{Json, JsonValue};
use crate::json_rpc::{
    decode, decode_spec, opt_view, DecodeError, ErrorView, JsonRpcError, JsonRpcMessage,
    JsonRpcRequest, MessageView, RequestView, ResponseView,
};
use crate::pending::{is_listing, table_entries, IdTable};

verus! {

/// How many seconds a call waits for its response, unless the caller says
/// otherwise.
pub const DEFAULT_TIMEOUT_SECS: u64 = 30;

/// Why a call failed.
#[derive(Debug, Clone, PartialEq)]
pub enum CallError {
    /// No downstream server is registered under the identifier.
    NotConnected,
    /// The connection was torn down, before the call or while it was in
    /// flight.
    ConnectionClosed,
    /// A call with the same request identifier is in flight.
    DuplicateId,
    /// No response came in time.
    Timeout,
    /// The downstream server answered with an error.
    Downstream(JsonRpcError),
}

pub ghost enum CallErrorView {
    NotConnected,
    ConnectionClosed,
    DuplicateId,
    Timeout,
    Downstream(ErrorView),
}

impl View for CallError {
    type V = CallErrorView;

    open spec fn view(&self) -> CallErrorView {
        match self {
            CallError::NotConnected => CallErrorView::NotConnected,
            CallError::ConnectionClosed => CallErrorView::ConnectionClosed,
            CallError::DuplicateId => CallErrorView::DuplicateId,
            CallError::Timeout => CallErrorView::Timeout,
            CallError::Downstream(e) => CallErrorView::Downstream(e@),
        }
    }
}

/// The end of one call: what its waiter is to be handed.
#[derive(Debug, PartialEq)]
pub struct Settlement {
    pub request_id: String,
    pub waiter: u64,
    pub outcome: Result<Json, CallError>,
}

pub ghost struct SettlementView {
    pub request_id: Seq<char>,
    pub waiter: u64,
    pub outcome: Result<JsonValue, CallErrorView>,
}

impl View for Settlement {
    type V = SettlementView;

    open spec fn view(&self) -> SettlementView {
        SettlementView {
            request_id: self.request_id@,
            waiter: self.waiter,
            outcome: match self.outcome {
                Ok(v) => Ok(v@),
                Err(e) => Err(e@),
            },
        }
    }
}

/// Why an inbound message settled no call.
#[derive(Debug, Clone, Copy, PartialEq, Eq)]
pub enum Dropped {
    /// The text is no message.
    Undecodable(DecodeError),
    /// The message is a request, a notification or a bare error.
    NotAResponse,
    /// The response belongs to no call in flight.
    NotPending,
    /// The event is not a message event.
    OtherEvent,
}

/// What an inbound message did.
#[derive(Debug, PartialEq)]
pub enum Inbound {
    Settled(Settlement),
    Dropped(Dropped),
}

pub ghost enum InboundView {
    Settled(SettlementView),
    Dropped(Dropped),
}

impl View for Inbound {
    type V = InboundView;

    open spec fn view(&self) -> InboundView {
        match self {
            Inbound::Settled(s) => InboundView::Settled(s@),
            Inbound::Dropped(d) => InboundView::Dropped(*d),
        }
    }
}

/// The request identifier that a message answers: that of a response whose
/// `id` is a string under which a call is in flight.
pub open spec fn answered(pending: Map<Seq<char>, u64>, m: MessageView) -> Option<Seq<char>> {
    match m {
        MessageView::Response(r) => match r.id {
            JsonValue::Str(s) => if pending.contains_key(s) {
                Some(s)
            } else {
                None
            },
            _ => None,
        },
        _ => None,
    }
}

/// What a response hands its caller: a failure built from its error where it
/// has one, else its result, `null` where it has none.
pub open spec fn outcome_of(r: ResponseView) -> Result<JsonValue, CallErrorView> {
    match r.error {
        Some(e) => Err(CallErrorView::Downstream(e)),
        None => Ok(
            match r.result {
                Some(v) => v,
                None => JsonValue::Null,
            },
        ),
    }
}

/// What a message does, given the calls in flight.
pub open spec fn inbound_of(pending: Map<Seq<char>, u64>, m: MessageView) -> InboundView {
    match m {
        MessageView::Response(r) => match answered(pending, m) {
            Some(s) => InboundView::Settled(
                SettlementView { request_id: s, waiter: pending[s], outcome: outcome_of(r) },
            ),
            None => InboundView::Dropped(Dropped::NotPending),
        },
        _ => InboundView::Dropped(Dropped::NotAResponse),
    }
}

/// The calls in flight after a message: the answered call has left.
pub open spec fn pending_after(pending: Map<Seq<char>, u64>, m: MessageView) -> Map<Seq<char>, u64> {
    match answered(pending, m) {
        Some(s) => pending.remove(s),
        None => pending,
    }
}

/// The request that a call puts on the wire.
pub open spec fn request_of(
    request_id: Seq<char>,
    method: Seq<char>,
    params: Option<JsonValue>,
) -> RequestView {
    RequestView { jsonrpc: "2.0"@, id: JsonValue::Str(request_id), method, params }
}

/// Whether `settlements` close every call of `pending`, each once, in some
/// order: each fails its waiter with a closed connection.
pub open spec fn closes_all(settlements: Seq<Settlement>, pending: Map<Seq<char>, u64>) -> bool {
    &&& forall|i: int|
        0 <= i < settlements.len() ==> {
            &&& pending.contains_key((#[trigger] settlements[i]).request_id@)
            &&& pending[settlements[i].request_id@] == settlements[i].waiter
            &&& settlements[i]@.outcome == Err::<JsonValue, CallErrorView>(
                CallErrorView::ConnectionClosed,
            )
        }
    &&& forall|i: int, j: int|
        0 <= i < j < settlements.len() ==> (#[trigger] settlements[i]).request_id@ != (
        #[trigger] settlements[j]).request_id@
    &&& forall|k: Seq<char>|
        pending.contains_key(k) ==> exists|i: int|
            0 <= i < settlements.len() && (#[trigger] settlements[i]).request_id@ == k
}

/// What a connection is, to its callers.
pub ghost struct ClientView {
    /// The identifier under which the downstream server is registered.
    pub id: Seq<char>,
    /// Whether the connection takes calls.
    pub open: bool,
    /// The calls in flight: the waiter under each request identifier.
    pub pending: Map<Seq<char>, u64>,
}

/// The state of one connection to a downstream server.
pub struct DownstreamClient {
    id: String,
    pending_requests: IdTable,
    open: bool,
}

impl View for DownstreamClient {
    type V = ClientView;

    closed spec fn view(&self) -> ClientView {
        ClientView {
            id: self.id@,
            open: self.open,
            pending: table_entries(self.pending_requests),
        }
    }
}

impl DownstreamClient {
    /// The identifier under which the downstream server is registered.
    pub fn id(&self) -> (r: &str)
        ensures
            r@ == self@.id,
    {
        self.id.as_str()
    }

    /// A connection that is open, with no call in flight.
    pub fn new(id: String) -> (r: DownstreamClient)
        ensures
            r@ == (ClientView { id: id@, open: true, pending: Map::empty() }),
    {
        DownstreamClient { id, pending_requests: IdTable::new(), open: true }
    }

    /// Whether the downstream server is registered under `id`.
    pub fn has_id(&self, id: &String) -> (r: bool)
        ensures
            r == (self@.id == id@),
    {
        self.id == *id
    }

    /// Whether the connection takes calls.
    pub fn accepts_calls(&self) -> (r: bool)
        ensures
            r == self@.open,
    {
        self.open
    }

    /// The waiter of the call in flight under `request_id`, if there is one.
    pub fn waiter_of(&self, request_id: &str) -> (r: Option<u64>)
        ensures
            r == (if self@.pending.contains_key(request_id@) {
                Some(self@.pending[request_id@])
            } else {
                None
            }),
    {
        self.pending_requests.get(request_id)
    }

    /// Starts a call: enters it in the table and returns the request to put
    /// on the wire. A closed connection takes no call, and no two calls in
    /// flight share an identifier; either failure leaves the table as it was.
    pub fn begin_call(
        &mut self,
        request_id: String,
        waiter: u64,
        method: &str,
        params: Option<Json>,
    ) -> (r: Result<JsonRpcRequest, CallError>)
        ensures
            final(self)@.id == old(self)@.id,
            final(self)@.open == old(self)@.open,
            match r {
                Ok(request) => {
                    &&& old(self)@.open
                    &&& !old(self)@.pending.contains_key(request_id@)
                    &&& request@ == request_of(request_id@, method@, opt_view(params))
                    &&& final(self)@.pending == old(self)@.pending.insert(request_id@, waiter)
                },
                Err(e) => {
                    &&& final(self)@.pending == old(self)@.pending
                    &&& !old(self)@.open ==> e == CallError::ConnectionClosed
                    &&& old(self)@.open ==> e == CallError::DuplicateId && old(self)@.pending.contains_key(
                        request_id@,
                    )
                },
            },
    {
        if !self.open {
            return Err(CallError::ConnectionClosed);
        }
        if self.pending_requests.get(request_id.as_str()).is_some() {
            return Err(CallError::DuplicateId);
        }
        let id = Json::Str(request_id.clone());
        self.pending_requests.insert(request_id, waiter);
        Ok(JsonRpcRequest { jsonrpc: "2.0".to_owned(), id, method: method.to_owned(), params })
    }

    /// Takes one decoded message from the downstream server. A response to a
    /// call in flight settles that call and takes it out of the table;
    /// anything else is dropped and changes nothing.
    pub fn on_message(&mut self, message: JsonRpcMessage) -> (r: Inbound)
        ensures
            final(self)@.id == old(self)@.id,
            final(self)@.open == old(self)@.open,
            final(self)@.pending == pending_after(old(self)@.pending, message@),
            r@ == inbound_of(old(self)@.pending, message@),
    {
        match message {
            JsonRpcMessage::Response(response) => {
                match response.id {
                    Json::Str(request_id) => {
                        match self.pending_requests.remove(request_id.as_str()) {
                            Some(waiter) => {
                                let outcome = match response.error {
                                    Some(e) => Err(CallError::Downstream(e)),
                                    None => Ok(
                                        match response.result {
                                            Some(v) => v,
                                            None => Json::Null,
                                        },
                                    ),
                                };
                                Inbound::Settled(Settlement { request_id, waiter, outcome })
                            },
                            None => {
                                assert(self@.pending =~= old(self)@.pending);
                                Inbound::Dropped(Dropped::NotPending)
                            },
                        }
                    },
                    _ => Inbound::Dropped(Dropped::NotPending),
                }
            },
            _ => Inbound::Dropped(Dropped::NotAResponse),
        }
    }

    /// Takes one line of text from the downstream server. A line that is no
    /// message is dropped and changes nothing; a message is taken as
    /// `on_message` takes it.
    pub fn on_line(&mut self, line: &str) -> (r: Inbound)
        ensures
            final(self)@.id == old(self)@.id,
            final(self)@.open == old(self)@.open,
            match decode_spec(line@) {
                Ok(m) => {
                    &&& final(self)@.pending == pending_after(old(self)@.pending, m)
                    &&& r@ == inbound_of(old(self)@.pending, m)
                },
                Err(e) => {
                    &&& final(self)@.pending == old(self)@.pending
                    &&& r@ == InboundView::Dropped(Dropped::Undecodable(e))
                },
            },
    {
        match decode(line) {
            Ok(message) => self.on_message(message),
            Err(e) => Inbound::Dropped(Dropped::Undecodable(e)),
        }
    }

    /// Takes one event of an event stream. Only an event named `message`
    /// carries a line; any other is dropped and changes nothing.
    pub fn on_event(&mut self, event: &str, data: &str) -> (r: Inbound)
        ensures
            final(self)@.id == old(self)@.id,
            final(self)@.open == old(self)@.open,
            event@ != "message"@ ==> final(self)@.pending == old(self)@.pending && r@
                == InboundView::Dropped(Dropped::OtherEvent),
            event@ == "message"@ ==> match decode_spec(data@) {
                Ok(m) => {
                    &&& final(self)@.pending == pending_after(old(self)@.pending, m)
                    &&& r@ == inbound_of(old(self)@.pending, m)
                },
                Err(e) => {
                    &&& final(self)@.pending == old(self)@.pending
                    &&& r@ == InboundView::Dropped(Dropped::Undecodable(e))
                },
            },
    {
        if event.to_owned() == "message".to_owned() {
            self.on_line(data)
        } else {
            Inbound::Dropped(Dropped::OtherEvent)
        }
    }

    /// Ends the wait for a response. Where the call is still in flight it
    /// leaves the table and fails with a timeout; where a response settled it
    /// first, nothing is left to do. Either way the table no longer holds the
    /// identifier.
    pub fn expire(&mut self, request_id: &str) -> (r: Option<Settlement>)
        ensures
            final(self)@.id == old(self)@.id,
            final(self)@.open == old(self)@.open,
            final(self)@.pending == old(self)@.pending.remove(request_id@),
            !final(self)@.pending.contains_key(request_id@),
            match r {
                Some(s) => {
                    &&& old(self)@.pending.contains_key(request_id@)
                    &&& s@ == SettlementView {
                        request_id: request_id@,
                        waiter: old(self)@.pending[request_id@],
                        outcome: Err(CallErrorView::Timeout),
                    }
                },
                None => !old(self)@.pending.contains_key(request_id@),
            },
    {
        match self.pending_requests.remove(request_id) {
            Some(waiter) => Some(
                Settlement {
                    request_id: request_id.to_owned(),
                    waiter,
                    outcome: Err(CallError::Timeout),
                },
            ),
            None => None,
        }
    }

    /// Tears the connection down: it takes no further call, and every call
    /// in flight leaves the table and fails with a closed connection.
    pub fn close(&mut self) -> (r: Vec<Settlement>)
        ensures
            final(self)@.id == old(self)@.id,
            !final(self)@.open,
            final(self)@.pending == Map::<Seq<char>, u64>::empty(),
            closes_all(r@, old(self)@.pending),
    {
        self.open = false;
        let entries = self.pending_requests.take_all();
        let mut out: Vec<Settlement> = Vec::new();
        let mut i: usize = 0;
        while i < entries.len()
            invariant
                i <= entries.len(),
                out@.len() == i,
                forall|j: int|
                    0 <= j < i ==> {
                        &&& (#[trigger] out@[j]).request_id@ == entries@[j].0@
                        &&& out@[j].waiter == entries@[j].1
                        &&& out@[j]@.outcome == Err::<JsonValue, CallErrorView>(
                            CallErrorView::ConnectionClosed,
                        )
                    },
            decreases entries.len() - i,
        {
            out.push(
                Settlement {
                    request_id: entries[i].0.clone(),
                    waiter: entries[i].1,
                    outcome: Err(CallError::ConnectionClosed),
                },
            );
            i = i + 1;
        }
        proof {
            let pending = old(self)@.pending;
            assert(is_listing(entries@, pending));
            assert forall|k: Seq<char>| pending.contains_key(k) implies exists|i: int|
                0 <= i < out@.len() && (#[trigger] out@[i]).request_id@ == k by {
                let i = choose|i: int| 0 <= i < entries@.len() && (#[trigger] entries@[i]).0@ == k;
                assert(out@[i].request_id@ == k);
            }
            assert forall|i: int, j: int| 0 <= i < j < out@.len() implies (
            #[trigger] out@[i]).request_id@ != (#[trigger] out@[j]).request_id@ by {
                assert(entries@[i].0@ != entries@[j].0@);
            }
            assert forall|i: int| 0 <= i < out@.len() implies pending.contains_key(
                (#[trigger] out@[i]).request_id@,
            ) && pending[out@[i].request_id@] == out@[i].waiter by {
                assert(pending.contains_key(entries@[i].0@));
            }
        }
        out
    }
}

/// A call is settled once: the response that settled it, coming again, is
/// dropped, and so is any other response under its identifier.
pub proof fn lemma_settled_once(pending: Map<Seq<char>, u64>, m: MessageView, again: ResponseView)
    requires
        answered(pending, m) matches Some(s) && again.id == JsonValue::Str(s),
    ensures
        inbound_of(pending_after(pending, m), m) == InboundView::Dropped(Dropped::NotPending),
        inbound_of(pending_after(pending, m), MessageView::Response(again)) == InboundView::Dropped(
            Dropped::NotPending,
        ),
        pending_after(pending_after(pending, m), m) == pending_after(pending, m),
{
}

/// A response that comes after its call timed out is dropped and changes
/// nothing.
pub proof fn lemma_stale_response(pending: Map<Seq<char>, u64>, request_id: Seq<char>, late: ResponseView)
    requires
        late.id == JsonValue::Str(request_id),
    ensures
        inbound_of(pending.remove(request_id), MessageView::Response(late)) == InboundView::Dropped(
            Dropped::NotPending,
        ),
        pending_after(pending.remove(request_id), MessageView::Response(late)) == pending.remove(
            request_id,
        ),
{
}

/// A message settles at most the call it answers: every other call stays in
/// flight with its waiter.
pub proof fn lemma_others_stay(pending: Map<Seq<char>, u64>, m: MessageView, other: Seq<char>)
    requires
        pending.contains_key(other),
        answered(pending, m) != Some(other),
    ensures
        pending_after(pending, m).contains_key(other),
        pending_after(pending, m)[other] == pending[other],
{
}

} // verus!
