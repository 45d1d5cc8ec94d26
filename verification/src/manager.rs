//! The registry of connections: every downstream server under its
//! identifier, in the order of registration.

use vstd::prelude::*;
use crate::client::{
    closes_all, inbound_of, pending_after, request_of, CallError, CallErrorView, ClientView,
    DownstreamClient, Dropped, Inbound, InboundView, Settlement, SettlementView,
};
use crate::json::{members_of, Json, JsonValue};
use crate::json_rpc::{decode_spec, opt_view, push_member, JsonRpcRequest, RequestView};

verus! {

/// Why a downstream server could not be connected.
#[derive(Debug, Clone, Copy, PartialEq, Eq, Structural)]
pub enum ConnectionError {
    /// The process could not be started.
    SpawnFailed,
    /// The event stream could not be reached.
    ConnectFailed,
    /// The event stream answered the handshake with this status, which is no
    /// success.
    HandshakeRejected(u16),
}

/// `uuid::Uuid::new_v4`, written by its `Display`: a random identifier.
/// Nothing is claimed of it.
#[verifier::external_body]
pub(crate) fn fresh_request_id() -> (r: String) {
    uuid::Uuid::new_v4().to_string()
}

/// Whether `i` is the place of the first connection registered under `id`.
pub open spec fn is_slot_of(clients: Seq<ClientView>, id: Seq<char>, i: int) -> bool {
    &&& 0 <= i < clients.len()
    &&& clients[i].id == id
    &&& forall|j: int| 0 <= j < i ==> (#[trigger] clients[j]).id != id
}

/// The place of the connection registered under `id`, if there is one.
pub open spec fn slot_of(clients: Seq<ClientView>, id: Seq<char>) -> Option<int> {
    if exists|i: int| is_slot_of(clients, id, i) {
        Some(choose|i: int| is_slot_of(clients, id, i))
    } else {
        None
    }
}

/// A connection as it is on registration: open, with no call in flight.
pub open spec fn fresh_client(id: Seq<char>) -> ClientView {
    ClientView { id, open: true, pending: Map::empty() }
}

/// The registry after a registration under `id`: the new connection takes
/// the place of the one that had the identifier, or the last place.
pub open spec fn registered(clients: Seq<ClientView>, id: Seq<char>) -> Seq<ClientView> {
    match slot_of(clients, id) {
        Some(i) => clients.update(i, fresh_client(id)),
        None => clients.push(fresh_client(id)),
    }
}

/// The registry with other calls in flight on the connection at place `i`.
pub open spec fn with_pending(
    clients: Seq<ClientView>,
    i: int,
    pending: Map<Seq<char>, u64>,
) -> Seq<ClientView> {
    clients.update(i, ClientView { pending, ..clients[i] })
}

/// What starting a call does: the registry afterwards, and the request to
/// put on the wire or the reason why there is none. The call fails where no
/// connection has the identifier, where the connection is closed, and where a
/// call with the same request identifier is in flight on it.
pub open spec fn call_response(
    clients: Seq<ClientView>,
    server_id: Seq<char>,
    request_id: Seq<char>,
    waiter: u64,
    method: Seq<char>,
    params: Option<JsonValue>,
) -> (Seq<ClientView>, Result<RequestView, CallErrorView>) {
    match slot_of(clients, server_id) {
        None => (clients, Err(CallErrorView::NotConnected)),
        Some(i) => if !clients[i].open {
            (clients, Err(CallErrorView::ConnectionClosed))
        } else if clients[i].pending.contains_key(request_id) {
            (clients, Err(CallErrorView::DuplicateId))
        } else {
            (
                with_pending(clients, i, clients[i].pending.insert(request_id, waiter)),
                Ok(request_of(request_id, method, params)),
            )
        },
    }
}

/// The view of what starting a call returns.
pub open spec fn call_view(r: Result<JsonRpcRequest, CallError>) -> Result<
    RequestView,
    CallErrorView,
> {
    match r {
        Ok(request) => Ok(request@),
        Err(e) => Err(e@),
    }
}

/// The parameters of a `tools/call` request: the tool's own name and the
/// arguments.
pub open spec fn tool_call_params(tool_name: Seq<char>, arguments: JsonValue) -> JsonValue {
    JsonValue::Object(
        Map::empty().insert("name"@, JsonValue::Str(tool_name)).insert("arguments"@, arguments),
    )
}

/// The first connection under an identifier is the only first one.
pub proof fn lemma_slot(clients: Seq<ClientView>, id: Seq<char>, i: int)
    requires
        is_slot_of(clients, id, i),
    ensures
        slot_of(clients, id) == Some(i),
{
    let k = choose|k: int| is_slot_of(clients, id, k);
    if k < i {
        assert(clients[k].id != id);
    } else if i < k {
        assert(clients[i].id != id);
    }
}

/// No two connections are registered under the same identifier.
pub open spec fn distinct_ids(clients: Seq<ClientView>) -> bool {
    forall|i: int, j: int|
        0 <= i < j < clients.len() ==> (#[trigger] clients[i]).id != (#[trigger] clients[j]).id
}

/// Where an identifier has no first connection, no connection is registered
/// under it.
pub proof fn lemma_no_slot(clients: Seq<ClientView>, id: Seq<char>, i: int)
    requires
        slot_of(clients, id) is None,
        0 <= i < clients.len(),
    ensures
        clients[i].id != id,
    decreases i,
{
    if clients[i].id == id {
        if forall|j: int| 0 <= j < i ==> (#[trigger] clients[j]).id != id {
            assert(is_slot_of(clients, id, i));
        } else {
            let j = choose|j: int| 0 <= j < i && (#[trigger] clients[j]).id == id;
            lemma_no_slot(clients, id, j);
        }
    }
}

/// A registration keeps the identifiers of the registry distinct: a
/// connection that had the identifier is replaced, not joined.
pub proof fn lemma_registered_distinct(clients: Seq<ClientView>, id: Seq<char>)
    requires
        distinct_ids(clients),
    ensures
        distinct_ids(registered(clients, id)),
{
    let after = registered(clients, id);
    match slot_of(clients, id) {
        Some(s) => {
            assert(is_slot_of(clients, id, s));
            assert forall|i: int, j: int| 0 <= i < j < after.len() implies (#[trigger] after[i]).id
                != (#[trigger] after[j]).id by {
                assert(after[i].id == clients[i].id);
                assert(after[j].id == clients[j].id);
            }
        },
        None => {
            assert forall|i: int, j: int| 0 <= i < j < after.len() implies (#[trigger] after[i]).id
                != (#[trigger] after[j]).id by {
                assert(after[i] == clients[i]);
                if j < clients.len() {
                    assert(after[j] == clients[j]);
                } else {
                    lemma_no_slot(clients, id, i);
                }
            }
        },
    }
}

/// A call, a message, a timeout or a teardown changes no identifier: what
/// changes the calls in flight or closes a connection keeps the identifiers
/// of the registry as they were, and so keeps them distinct.
pub proof fn lemma_ids_kept(clients: Seq<ClientView>, i: int, open: bool, pending: Map<Seq<char>, u64>)
    requires
        0 <= i < clients.len(),
        distinct_ids(clients),
    ensures
        distinct_ids(with_pending(clients, i, pending)),
        distinct_ids(clients.update(i, ClientView { open, pending, ..clients[i] })),
{
    let a = with_pending(clients, i, pending);
    let b = clients.update(i, ClientView { open, pending, ..clients[i] });
    assert forall|x: int, y: int| 0 <= x < y < a.len() implies (#[trigger] a[x]).id != (
    #[trigger] a[y]).id by {
        assert(a[x].id == clients[x].id && a[y].id == clients[y].id);
    }
    assert forall|x: int, y: int| 0 <= x < y < b.len() implies (#[trigger] b[x]).id != (
    #[trigger] b[y]).id by {
        assert(b[x].id == clients[x].id && b[y].id == clients[y].id);
    }
}

/// Starting a call keeps the identifiers of the registry distinct.
pub proof fn lemma_call_distinct(
    clients: Seq<ClientView>,
    server_id: Seq<char>,
    request_id: Seq<char>,
    waiter: u64,
    method: Seq<char>,
    params: Option<JsonValue>,
)
    requires
        distinct_ids(clients),
    ensures
        distinct_ids(call_response(clients, server_id, request_id, waiter, method, params).0),
{
    match slot_of(clients, server_id) {
        Some(i) => {
            assert(is_slot_of(clients, server_id, i));
            lemma_ids_kept(clients, i, true, clients[i].pending.insert(request_id, waiter));
        },
        None => {},
    }
}

/// The registry of connections.
pub struct ClientManager {
    clients: Vec<DownstreamClient>,
}

impl View for ClientManager {
    type V = Seq<ClientView>;

    closed spec fn view(&self) -> Seq<ClientView> {
        self.clients@.map_values(|c: DownstreamClient| c@)
    }
}

impl ClientManager {
    /// A registry with no connection.
    pub fn new() -> (r: ClientManager)
        ensures
            r@ == Seq::<ClientView>::empty(),
    {
        let r = ClientManager { clients: Vec::new() };
        assert(r@ =~= Seq::<ClientView>::empty());
        r
    }

    /// The place of the connection registered under `id`, if there is one.
    pub fn find(&self, id: &str) -> (r: Option<usize>)
        ensures
            match r {
                Some(i) => slot_of(self@, id@) == Some(i as int),
                None => slot_of(self@, id@) is None,
            },
    {
        let owned = id.to_owned();
        let mut i: usize = 0;
        while i < self.clients.len()
            invariant
                i <= self.clients.len(),
                owned@ == id@,
                forall|j: int| 0 <= j < i ==> (#[trigger] self@[j]).id != id@,
            decreases self.clients.len() - i,
        {
            assert(self@[i as int] == self.clients@[i as int]@);
            if self.clients[i].has_id(&owned) {
                proof {
                    lemma_slot(self@, id@, i as int);
                }
                return Some(i);
            }
            i = i + 1;
        }
        None
    }

    /// The identifiers of the registered downstream servers, in the order
    /// of registration.
    pub fn list_clients(&self) -> (r: Vec<String>)
        ensures
            r@.len() == self@.len(),
            forall|i: int| 0 <= i < r@.len() ==> (#[trigger] r@[i])@ == self@[i].id,
    {
        let mut out: Vec<String> = Vec::new();
        let mut i: usize = 0;
        while i < self.clients.len()
            invariant
                i <= self.clients.len(),
                out@.len() == i,
                forall|j: int| 0 <= j < i ==> (#[trigger] out@[j])@ == self@[j].id,
            decreases self.clients.len() - i,
        {
            assert(self@[i as int] == self.clients@[i as int]@);
            out.push(self.clients[i].id().to_owned());
            i = i + 1;
        }
        out
    }

    /// Registers a connection under `id`. Where a connection had the
    /// identifier, it is torn down and replaced: what comes back fails its
    /// calls in flight.
    pub fn register(&mut self, id: String) -> (r: Vec<Settlement>)
        ensures
            final(self)@ == registered(old(self)@, id@),
            match slot_of(old(self)@, id@) {
                Some(i) => closes_all(r@, old(self)@[i].pending),
                None => r@.len() == 0,
            },
    {
        match self.find(id.as_str()) {
            Some(i) => {
                assert(old(self)@[i as int] == self.clients@[i as int]@);
                let orphans = self.clients[i].close();
                self.clients.set(i, DownstreamClient::new(id));
                assert(self@ =~= registered(old(self)@, id@));
                orphans
            },
            None => {
                self.clients.push(DownstreamClient::new(id));
                assert(self@ =~= registered(old(self)@, id@));
                Vec::new()
            },
        }
    }

    /// Registers the connection to a process under `id`, where the process
    /// was started. A process that could not be started registers nothing.
    pub fn spawn_client(&mut self, id: String, started: bool) -> (r: Result<
        Vec<Settlement>,
        ConnectionError,
    >)
        ensures
            match r {
                Ok(orphans) => {
                    &&& started
                    &&& final(self)@ == registered(old(self)@, id@)
                    &&& match slot_of(old(self)@, id@) {
                        Some(i) => closes_all(orphans@, old(self)@[i].pending),
                        None => orphans@.len() == 0,
                    }
                },
                Err(e) => !started && e == ConnectionError::SpawnFailed && final(self)@ == old(
                    self,
                )@,
            },
    {
        if started {
            Ok(self.register(id))
        } else {
            Err(ConnectionError::SpawnFailed)
        }
    }

    /// Registers the connection to an event stream under `id`, where the
    /// handshake was answered with a success status, one from 200 to 299. A
    /// stream that could not be reached (no status) or that answered with
    /// another status registers nothing.
    pub fn spawn_sse_client(&mut self, id: String, status: Option<u16>) -> (r: Result<
        Vec<Settlement>,
        ConnectionError,
    >)
        ensures
            match r {
                Ok(orphans) => {
                    &&& status matches Some(s) && 200 <= s < 300
                    &&& final(self)@ == registered(old(self)@, id@)
                    &&& match slot_of(old(self)@, id@) {
                        Some(i) => closes_all(orphans@, old(self)@[i].pending),
                        None => orphans@.len() == 0,
                    }
                },
                Err(e) => {
                    &&& final(self)@ == old(self)@
                    &&& match status {
                        None => e == ConnectionError::ConnectFailed,
                        Some(s) => !(200 <= s < 300) && e == ConnectionError::HandshakeRejected(s),
                    }
                },
            },
    {
        match status {
            None => Err(ConnectionError::ConnectFailed),
            Some(s) => if 200 <= s && s < 300 {
                Ok(self.register(id))
            } else {
                Err(ConnectionError::HandshakeRejected(s))
            },
        }
    }

    /// Starts a call on the connection registered under `server_id`, under a
    /// request identifier of the caller's choice, and returns the request to
    /// put on the wire.
    pub fn begin_call(
        &mut self,
        server_id: &str,
        request_id: String,
        waiter: u64,
        method: &str,
        params: Option<Json>,
    ) -> (r: Result<JsonRpcRequest, CallError>)
        ensures
            (final(self)@, call_view(r)) == call_response(
                old(self)@,
                server_id@,
                request_id@,
                waiter,
                method@,
                opt_view(params),
            ),
    {
        match self.find(server_id) {
            None => Err(CallError::NotConnected),
            Some(i) => {
                assert(old(self)@[i as int] == self.clients@[i as int]@);
                let r = self.clients[i].begin_call(request_id, waiter, method, params);
                proof {
                    let before = old(self)@;
                    match r {
                        Ok(_) => {
                            assert(self@ =~= with_pending(
                                before,
                                i as int,
                                before[i as int].pending.insert(request_id@, waiter),
                            ));
                        },
                        Err(_) => {
                            assert(self.clients@[i as int]@ == before[i as int]);
                            assert(self@ =~= before);
                        },
                    }
                }
                r
            },
        }
    }

    /// Starts a `tools/list` call on the connection registered under
    /// `server_id`, under a fresh random request identifier.
    pub fn list_tools(&mut self, server_id: &str, waiter: u64) -> (r: Result<
        JsonRpcRequest,
        CallError,
    >)
        ensures
            exists|request_id: Seq<char>|
                (final(self)@, call_view(r)) == #[trigger] call_response(
                    old(self)@,
                    server_id@,
                    request_id,
                    waiter,
                    "tools/list"@,
                    None,
                ),
    {
        let request_id = fresh_request_id();
        self.begin_call(server_id, request_id, waiter, "tools/list", None)
    }

    /// Starts a `tools/call` call for the tool `tool_name` on the connection
    /// registered under `server_id`, under a fresh random request identifier.
    pub fn call_tool(&mut self, server_id: &str, tool_name: &str, arguments: Json, waiter: u64) -> (r:
        Result<JsonRpcRequest, CallError>)
        ensures
            exists|request_id: Seq<char>|
                (final(self)@, call_view(r)) == #[trigger] call_response(
                    old(self)@,
                    server_id@,
                    request_id,
                    waiter,
                    "tools/call"@,
                    Some(tool_call_params(tool_name@, arguments@)),
                ),
    {
        let request_id = fresh_request_id();
        self.call_tool_as(server_id, tool_name, arguments, request_id, waiter)
    }

    /// Starts a `tools/call` call for the tool `tool_name` on the connection
    /// registered under `server_id`, under a request identifier of the
    /// caller's choice.
    pub fn call_tool_as(
        &mut self,
        server_id: &str,
        tool_name: &str,
        arguments: Json,
        request_id: String,
        waiter: u64,
    ) -> (r: Result<JsonRpcRequest, CallError>)
        ensures
            (final(self)@, call_view(r)) == call_response(
                old(self)@,
                server_id@,
                request_id@,
                waiter,
                "tools/call"@,
                Some(tool_call_params(tool_name@, arguments@)),
            ),
    {
        let mut pairs: Vec<(String, Json)> = Vec::new();
        assert(members_of(pairs@) =~= Map::empty());
        push_member(&mut pairs, "name", Json::string(tool_name));
        push_member(&mut pairs, "arguments", arguments);
        self.begin_call(server_id, request_id, waiter, "tools/call", Some(Json::Object(pairs)))
    }

    /// Hands one line from the downstream server registered under
    /// `server_id` to its connection. Nothing comes back where no connection
    /// has the identifier.
    pub fn on_line(&mut self, server_id: &str, line: &str) -> (r: Option<Inbound>)
        ensures
            match slot_of(old(self)@, server_id@) {
                None => r is None && final(self)@ == old(self)@,
                Some(i) => r matches Some(inbound) && match decode_spec(line@) {
                    Ok(m) => {
                        &&& final(self)@ == with_pending(
                            old(self)@,
                            i,
                            pending_after(old(self)@[i].pending, m),
                        )
                        &&& inbound@ == inbound_of(old(self)@[i].pending, m)
                    },
                    Err(e) => {
                        &&& final(self)@ == old(self)@
                        &&& inbound@ == InboundView::Dropped(Dropped::Undecodable(e))
                    },
                },
            },
    {
        match self.find(server_id) {
            None => None,
            Some(i) => {
                assert(old(self)@[i as int] == self.clients@[i as int]@);
                let inbound = self.clients[i].on_line(line);
                proof {
                    let before = old(self)@;
                    assert(self@ =~= with_pending(
                        before,
                        i as int,
                        self.clients@[i as int]@.pending,
                    ));
                    assert(with_pending(before, i as int, before[i as int].pending) =~= before);
                }
                Some(inbound)
            },
        }
    }

    /// Hands one event of the event stream of the downstream server
    /// registered under `server_id` to its connection. Nothing comes back
    /// where no connection has the identifier.
    pub fn on_event(&mut self, server_id: &str, event: &str, data: &str) -> (r: Option<Inbound>)
        ensures
            match slot_of(old(self)@, server_id@) {
                None => r is None && final(self)@ == old(self)@,
                Some(i) => r matches Some(inbound) && if event@ != "message"@ {
                    &&& final(self)@ == old(self)@
                    &&& inbound@ == InboundView::Dropped(Dropped::OtherEvent)
                } else {
                    match decode_spec(data@) {
                        Ok(m) => {
                            &&& final(self)@ == with_pending(
                                old(self)@,
                                i,
                                pending_after(old(self)@[i].pending, m),
                            )
                            &&& inbound@ == inbound_of(old(self)@[i].pending, m)
                        },
                        Err(e) => {
                            &&& final(self)@ == old(self)@
                            &&& inbound@ == InboundView::Dropped(Dropped::Undecodable(e))
                        },
                    }
                },
            },
    {
        match self.find(server_id) {
            None => None,
            Some(i) => {
                assert(old(self)@[i as int] == self.clients@[i as int]@);
                let inbound = self.clients[i].on_event(event, data);
                proof {
                    let before = old(self)@;
                    assert(self@ =~= with_pending(
                        before,
                        i as int,
                        self.clients@[i as int]@.pending,
                    ));
                    assert(with_pending(before, i as int, before[i as int].pending) =~= before);
                }
                Some(inbound)
            },
        }
    }

    /// Ends the wait for the response to the call `request_id` on the
    /// connection registered under `server_id`. Where the call was still in
    /// flight it fails with a timeout; afterwards the connection no longer
    /// holds the identifier.
    pub fn expire(&mut self, server_id: &str, request_id: &str) -> (r: Option<Settlement>)
        ensures
            match slot_of(old(self)@, server_id@) {
                None => r is None && final(self)@ == old(self)@,
                Some(i) => {
                    &&& final(self)@ == with_pending(
                        old(self)@,
                        i,
                        old(self)@[i].pending.remove(request_id@),
                    )
                    &&& match r {
                        Some(s) => {
                            &&& old(self)@[i].pending.contains_key(request_id@)
                            &&& s@ == SettlementView {
                                request_id: request_id@,
                                waiter: old(self)@[i].pending[request_id@],
                                outcome: Err(CallErrorView::Timeout),
                            }
                        },
                        None => !old(self)@[i].pending.contains_key(request_id@),
                    }
                },
            },
    {
        match self.find(server_id) {
            None => None,
            Some(i) => {
                assert(old(self)@[i as int] == self.clients@[i as int]@);
                let r = self.clients[i].expire(request_id);
                assert(self@ =~= with_pending(
                    old(self)@,
                    i as int,
                    old(self)@[i as int].pending.remove(request_id@),
                ));
                r
            },
        }
    }

    /// Tears down the connection registered under `server_id`: it stays
    /// registered and takes no further call, and what comes back fails its
    /// calls in flight. Nothing happens where no connection has the
    /// identifier.
    pub fn close_client(&mut self, server_id: &str) -> (r: Vec<Settlement>)
        ensures
            match slot_of(old(self)@, server_id@) {
                None => r@.len() == 0 && final(self)@ == old(self)@,
                Some(i) => {
                    &&& final(self)@ == old(self)@.update(
                        i,
                        ClientView { open: false, pending: Map::empty(), ..old(self)@[i] },
                    )
                    &&& closes_all(r@, old(self)@[i].pending)
                },
            },
    {
        match self.find(server_id) {
            None => Vec::new(),
            Some(i) => {
                assert(old(self)@[i as int] == self.clients@[i as int]@);
                let r = self.clients[i].close();
                assert(self@ =~= old(self)@.update(
                    i as int,
                    ClientView { open: false, pending: Map::empty(), ..old(self)@[i as int] },
                ));
                r
            },
        }
    }
}

} // verus!
