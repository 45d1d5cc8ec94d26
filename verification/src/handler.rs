//! What the gateway shows its clients: one catalog of tools, each under a
//! name that says which downstream server owns it, and the dispatch of a
//! call by such a name.

use vstd::prelude::*;
use vstd::string::StringExecFns;
use crate::client::{CallError, CallErrorView, ClientView};
use crate::json::{lemma_models_of, members_of, models_of, Json, JsonValue};
use crate::json_rpc::{opt_view, push_member, JsonRpcRequest, RequestView};
use crate::manager::{
    call_response, call_view, fresh_request_id, slot_of, tool_call_params, ClientManager,
};
use crate::router::{resolved_view, Router, RouterError};
use crate::text::{
    is_first_occurrence, lemma_split_at, occurs_at, split_at_first, str_split_once,
};
use crate::tool::{Tool, ToolView};

verus! {

/// The name under which the gateway shows the tool `name` of the downstream
/// server `server_id`: the identifier, two underscores, the tool's own name.
pub open spec fn namespaced(server_id: Seq<char>, name: Seq<char>) -> Seq<char> {
    server_id + "__"@ + name
}

/// A tool as the gateway shows it: its `name`, where it is an object with a
/// string under `name`, is replaced by the namespaced one. Anything else is
/// shown as it came.
pub open spec fn exposed_tool(server_id: Seq<char>, tool: JsonValue) -> JsonValue {
    match tool.member("name"@) {
        Some(JsonValue::Str(name)) => tool.with_member(
            "name"@,
            JsonValue::Str(namespaced(server_id, name)),
        ),
        _ => tool,
    }
}

/// The tools of a list, each as the gateway shows it.
pub open spec fn exposed_all(server_id: Seq<char>, tools: Seq<JsonValue>) -> Seq<JsonValue> {
    tools.map_values(|t: JsonValue| exposed_tool(server_id, t))
}

/// The tools that one downstream server adds to the catalog: those under
/// `tools` in what it answered, where that is an array. A server that did not
/// answer adds none.
pub open spec fn exposed_tools(server_id: Seq<char>, result: Option<JsonValue>) -> Seq<JsonValue> {
    match result {
        Some(v) => match v.member("tools"@) {
            Some(JsonValue::Array(tools)) => exposed_all(server_id, tools),
            _ => Seq::empty(),
        },
        None => Seq::empty(),
    }
}

/// What one downstream server answered to `tools/list`: the result, or
/// nothing where the call failed or timed out.
#[derive(Debug, PartialEq)]
pub struct ToolsReply {
    pub server_id: String,
    pub result: Option<Json>,
}

pub ghost struct ToolsReplyView {
    pub server_id: Seq<char>,
    pub result: Option<JsonValue>,
}

impl View for ToolsReply {
    type V = ToolsReplyView;

    open spec fn view(&self) -> ToolsReplyView {
        ToolsReplyView { server_id: self.server_id@, result: opt_view(self.result) }
    }
}

/// The views of a list of replies, one for one.
pub open spec fn reply_views(replies: Seq<ToolsReply>) -> Seq<ToolsReplyView> {
    replies.map_values(|r: ToolsReply| r@)
}

/// The tools of the catalog: those of each reply, in the order of the
/// replies.
pub open spec fn merged_tools(replies: Seq<ToolsReplyView>) -> Seq<JsonValue>
    decreases replies.len(),
{
    if replies.len() == 0 {
        Seq::empty()
    } else {
        merged_tools(replies.drop_last()) + exposed_tools(
            replies.last().server_id,
            replies.last().result,
        )
    }
}

/// The catalog: an object with the merged tools under `tools`.
pub open spec fn catalog(replies: Seq<ToolsReplyView>) -> JsonValue {
    JsonValue::Object(Map::empty().insert("tools"@, JsonValue::Array(merged_tools(replies))))
}

/// Why a call by a namespaced name was not dispatched.
#[derive(Debug, Clone, Copy, PartialEq, Eq, Structural)]
pub enum DispatchError {
    /// The name holds no separator.
    MalformedName,
    /// No downstream server is registered under the prefix.
    UnknownDownstream,
    /// The connection to the downstream server is closed.
    ConnectionClosed,
    /// A call with the same request identifier is in flight.
    DuplicateId,
    /// The router found no tool for the prompt.
    NoMatchingTool,
    /// The router could not answer.
    RouterFailed,
}

/// A call on its way: the downstream server that owns the tool, and the
/// request to put on its wire.
#[derive(Debug, PartialEq)]
pub struct Dispatch {
    pub server_id: String,
    pub request: JsonRpcRequest,
}

pub ghost struct DispatchView {
    pub server_id: Seq<char>,
    pub request: RequestView,
}

impl View for Dispatch {
    type V = DispatchView;

    open spec fn view(&self) -> DispatchView {
        DispatchView { server_id: self.server_id@, request: self.request@ }
    }
}

/// The dispatch error that stands for a failure to start the call.
pub open spec fn dispatch_error(e: CallErrorView) -> DispatchError {
    match e {
        CallErrorView::NotConnected => DispatchError::UnknownDownstream,
        CallErrorView::ConnectionClosed => DispatchError::ConnectionClosed,
        _ => DispatchError::DuplicateId,
    }
}

/// What dispatching a call by a namespaced name does: the registry
/// afterwards, and the call on its way or the reason why there is none. The
/// name is split at its first separator; the call goes to the downstream
/// server before it, for the tool behind it.
pub open spec fn dispatch_response(
    clients: Seq<ClientView>,
    name: Seq<char>,
    arguments: JsonValue,
    request_id: Seq<char>,
    waiter: u64,
) -> (Seq<ClientView>, Result<DispatchView, DispatchError>) {
    match split_at_first(name, "__"@) {
        None => (clients, Err(DispatchError::MalformedName)),
        Some((server_id, tool)) => {
            let (after, r) = call_response(
                clients,
                server_id,
                request_id,
                waiter,
                "tools/call"@,
                Some(tool_call_params(tool, arguments)),
            );
            (
                after,
                match r {
                    Ok(request) => Ok(DispatchView { server_id, request }),
                    Err(e) => Err(dispatch_error(e)),
                },
            )
        },
    }
}

/// What dispatching a call by what a router resolved does: the registry
/// afterwards, and the call on its way or the reason why there is none. The
/// call goes to the downstream server of the match, for the matched tool. A
/// match may be stale: where its server is no longer registered or its
/// connection is closed, the dispatch fails and changes nothing.
pub open spec fn resolved_response(
    clients: Seq<ClientView>,
    resolved: Result<Option<(Seq<char>, ToolView)>, RouterError>,
    arguments: JsonValue,
    request_id: Seq<char>,
    waiter: u64,
) -> (Seq<ClientView>, Result<DispatchView, DispatchError>) {
    match resolved {
        Err(_) => (clients, Err(DispatchError::RouterFailed)),
        Ok(None) => (clients, Err(DispatchError::NoMatchingTool)),
        Ok(Some((server_id, tool))) => {
            let (after, r) = call_response(
                clients,
                server_id,
                request_id,
                waiter,
                "tools/call"@,
                Some(tool_call_params(tool.name, arguments)),
            );
            (
                after,
                match r {
                    Ok(request) => Ok(DispatchView { server_id, request }),
                    Err(e) => Err(dispatch_error(e)),
                },
            )
        },
    }
}

/// The view of what a dispatch returns.
pub open spec fn dispatch_view(r: Result<Dispatch, DispatchError>) -> Result<
    DispatchView,
    DispatchError,
> {
    match r {
        Ok(d) => Ok(d@),
        Err(e) => Err(e),
    }
}

/// The namespaced name of the tool `name` of the downstream server
/// `server_id`.
pub fn namespaced_name(server_id: &str, name: &str) -> (r: String)
    ensures
        r@ == namespaced(server_id@, name@),
{
    let mut r = server_id.to_owned();
    r.append("__");
    r.append(name);
    r
}

/// Makes of a tool what the gateway shows of it.
pub fn expose_tool(tool: &mut Json, server_id: &str)
    ensures
        final(tool)@ == exposed_tool(server_id@, old(tool)@),
{
    let exposed = match tool.get("name") {
        Some(Json::Str(name)) => Some(namespaced_name(server_id, name.as_str())),
        _ => None,
    };
    match exposed {
        Some(name) => {
            tool.set_member("name".to_owned(), Json::Str(name));
        },
        None => {},
    }
}

/// Puts the tools of one reply behind `all`, each as the gateway shows it.
pub fn append_exposed(all: &mut Vec<Json>, reply: &ToolsReply)
    ensures
        models_of(final(all)@) == models_of(old(all)@) + exposed_tools(
            reply@.server_id,
            reply@.result,
        ),
{
    let ghost base = models_of(all@);
    assert(base + Seq::<JsonValue>::empty() =~= base);
    let result = match &reply.result {
        Some(result) => result,
        None => {
            return ;
        },
    };
    let list = match result.get("tools") {
        Some(list) => list,
        None => {
            return ;
        },
    };
    let tools = match list.as_array() {
        Some(tools) => tools,
        None => {
            return ;
        },
    };
    let ghost shown = exposed_all(reply@.server_id, models_of(tools@));
    proof {
        lemma_models_of(tools@);
    }
    let mut k: usize = 0;
    assert(shown.take(0) =~= Seq::<JsonValue>::empty());
    while k < tools.len()
        invariant
            k <= tools.len(),
            shown == exposed_all(reply@.server_id, models_of(tools@)),
            shown.len() == tools@.len(),
            forall|i: int| 0 <= i < tools@.len() ==> (#[trigger] models_of(tools@)[i]) == tools@[i]@,
            models_of(all@) == base + shown.take(k as int),
        decreases tools.len() - k,
    {
        let mut tool = tools[k].clone();
        expose_tool(&mut tool, reply.server_id.as_str());
        let ghost before = all@;
        all.push(tool);
        assert(all@.drop_last() == before);
        assert(shown[k as int] == tool@);
        assert(shown.take(k + 1) =~= shown.take(k as int).push(shown[k as int]));
        assert(base + shown.take(k + 1) =~= (base + shown.take(k as int)).push(shown[k as int]));
        k = k + 1;
    }
    assert(shown.take(k as int) =~= shown);
}

/// What serves the gateway's clients: the registry, and the two operations
/// on it that they see.
pub struct RouterServerHandler {
    pub client_manager: ClientManager,
}

impl RouterServerHandler {
    /// A handler over the given registry.
    pub fn new(client_manager: ClientManager) -> (r: RouterServerHandler)
        ensures
            r.client_manager == client_manager,
    {
        RouterServerHandler { client_manager }
    }

    /// Merges what the downstream servers answered to `tools/list` into one
    /// catalog. A server that did not answer is passed over.
    pub fn handle_list_tools(&self, replies: &Vec<ToolsReply>) -> (r: Json)
        ensures
            r@ == catalog(reply_views(replies@)),
    {
        let mut all: Vec<Json> = Vec::new();
        let mut i: usize = 0;
        assert(reply_views(replies@).take(0) =~= Seq::<ToolsReplyView>::empty());
        while i < replies.len()
            invariant
                i <= replies.len(),
                models_of(all@) == merged_tools(reply_views(replies@).take(i as int)),
            decreases replies.len() - i,
        {
            append_exposed(&mut all, &replies[i]);
            proof {
                let views = reply_views(replies@);
                assert(views.take(i + 1).drop_last() =~= views.take(i as int));
                assert(views.take(i + 1).last() == replies@[i as int]@);
            }
            i = i + 1;
        }
        assert(reply_views(replies@).take(i as int) =~= reply_views(replies@));
        let mut pairs: Vec<(String, Json)> = Vec::new();
        assert(members_of(pairs@) =~= Map::empty());
        push_member(&mut pairs, "tools", Json::Array(all));
        Json::Object(pairs)
    }

    /// Dispatches a call by a namespaced name, under a fresh random request
    /// identifier.
    pub fn handle_call_tool(&mut self, name: &str, args: Json, waiter: u64) -> (r: Result<
        Dispatch,
        DispatchError,
    >)
        ensures
            exists|request_id: Seq<char>|
                (final(self).client_manager@, dispatch_view(r)) == #[trigger] dispatch_response(
                    old(self).client_manager@,
                    name@,
                    args@,
                    request_id,
                    waiter,
                ),
    {
        let request_id = fresh_request_id();
        self.handle_call_tool_as(name, args, request_id, waiter)
    }

    /// Dispatches a call for the tool that `router` resolves `prompt` to,
    /// under a fresh random request identifier. What the router resolved is
    /// an answer that it may give to `prompt`, from its index.
    pub fn handle_prompt<R: Router>(
        &mut self,
        router: &R,
        prompt: &str,
        args: Json,
        waiter: u64,
    ) -> (r: Result<Dispatch, DispatchError>)
        ensures
            exists|resolved: Result<Option<(Seq<char>, ToolView)>, RouterError>, request_id: Seq<char>|
                {
                    &&& (final(self).client_manager@, dispatch_view(r))
                        == #[trigger] resolved_response(
                        old(self).client_manager@,
                        resolved,
                        args@,
                        request_id,
                        waiter,
                    )
                    &&& router.answers(prompt@, resolved)
                    &&& resolved matches Ok(Some(hit)) ==> router.holds(hit.0, hit.1)
                },
    {
        let resolved = router.resolve(prompt);
        let request_id = fresh_request_id();
        let ghost resolved_before = resolved_view(resolved);
        let ghost id_before = request_id@;
        let r = self.handle_resolved(resolved, args, request_id, waiter);
        assert((self.client_manager@, dispatch_view(r)) == resolved_response(
            old(self).client_manager@,
            resolved_before,
            args@,
            id_before,
            waiter,
        ));
        r
    }

    /// Dispatches a call by what a router resolved, under a request
    /// identifier of the caller's choice.
    pub fn handle_resolved(
        &mut self,
        resolved: Result<Option<(String, Tool)>, RouterError>,
        args: Json,
        request_id: String,
        waiter: u64,
    ) -> (r: Result<Dispatch, DispatchError>)
        ensures
            (final(self).client_manager@, dispatch_view(r)) == resolved_response(
                old(self).client_manager@,
                resolved_view(resolved),
                args@,
                request_id@,
                waiter,
            ),
    {
        match resolved {
            Err(_) => Err(DispatchError::RouterFailed),
            Ok(None) => Err(DispatchError::NoMatchingTool),
            Ok(Some(hit)) => {
                let started = self.client_manager.call_tool_as(
                    hit.0.as_str(),
                    hit.1.name.as_str(),
                    args,
                    request_id,
                    waiter,
                );
                finish_dispatch(hit.0.as_str(), started)
            },
        }
    }

    /// Dispatches a call by a namespaced name, under a request identifier
    /// of the caller's choice.
    pub fn handle_call_tool_as(
        &mut self,
        name: &str,
        args: Json,
        request_id: String,
        waiter: u64,
    ) -> (r: Result<Dispatch, DispatchError>)
        ensures
            (final(self).client_manager@, dispatch_view(r)) == dispatch_response(
                old(self).client_manager@,
                name@,
                args@,
                request_id@,
                waiter,
            ),
    {
        match str_split_once(name, "__") {
            None => Err(DispatchError::MalformedName),
            Some((server_id, tool)) => {
                let started = self.client_manager.call_tool_as(
                    server_id,
                    tool,
                    args,
                    request_id,
                    waiter,
                );
                finish_dispatch(server_id, started)
            },
        }
    }
}

/// Turns what starting the call returned into what the dispatch returns.
pub fn finish_dispatch(server_id: &str, started: Result<JsonRpcRequest, CallError>) -> (r: Result<
    Dispatch,
    DispatchError,
>)
    ensures
        dispatch_view(r) == (match call_view(started) {
            Ok(request) => Ok(DispatchView { server_id: server_id@, request }),
            Err(e) => Err(dispatch_error(e)),
        }),
{
    match started {
        Ok(request) => Ok(Dispatch { server_id: server_id.to_owned(), request }),
        Err(CallError::NotConnected) => Err(DispatchError::UnknownDownstream),
        Err(CallError::ConnectionClosed) => Err(DispatchError::ConnectionClosed),
        Err(_) => Err(DispatchError::DuplicateId),
    }
}

/// The separator is two underscores.
pub proof fn lemma_separator()
    ensures
        "__"@ == seq!['_', '_'],
{
    reveal_strlit("__");
    assert("__"@ =~= seq!['_', '_']);
}

/// Splitting a namespaced name gives back the identifier and the tool's own
/// name, where no separator begins inside the identifier; so it does where
/// the identifier holds no underscore.
pub proof fn lemma_split_namespaced(server_id: Seq<char>, name: Seq<char>)
    requires
        forall|j: int|
            0 <= j < server_id.len() ==> !occurs_at(namespaced(server_id, name), "__"@, j),
    ensures
        split_at_first(namespaced(server_id, name), "__"@) == Some((server_id, name)),
{
    let s = namespaced(server_id, name);
    let d = "__"@;
    let i = server_id.len() as int;
    assert(s.subrange(i, i + d.len()) =~= d);
    assert(is_first_occurrence(s, d, i));
    lemma_split_at(s, d, i);
    assert(s.subrange(0, i) =~= server_id);
    assert(s.subrange(i + d.len(), s.len() as int) =~= name);
}

/// Whether an identifier is plain: it neither holds two underscores in a
/// row nor ends in one. An identifier without any underscore is plain.
pub open spec fn is_plain(server_id: Seq<char>) -> bool {
    forall|j: int|
        0 <= j < server_id.len() && #[trigger] server_id[j] == '_' ==> j + 1 < server_id.len()
            && server_id[j + 1] != '_'
}

/// No separator begins inside a plain identifier, whatever name follows it.
pub proof fn lemma_plain_identifier(server_id: Seq<char>, name: Seq<char>)
    requires
        is_plain(server_id),
    ensures
        forall|j: int|
            0 <= j < server_id.len() ==> !occurs_at(namespaced(server_id, name), "__"@, j),
{
    lemma_separator();
    let s = namespaced(server_id, name);
    assert forall|j: int| 0 <= j < server_id.len() implies !occurs_at(s, "__"@, j) by {
        if occurs_at(s, "__"@, j) {
            let sub = s.subrange(j, j + 2);
            assert(sub[0] == '_' && sub[1] == '_');
            assert(s[j] == server_id[j]);
            assert(server_id[j] == '_');
            if j + 1 < server_id.len() {
                assert(s[j + 1] == server_id[j + 1]);
            }
        }
    }
}

/// Two tools get the same namespaced name only where they are the same tool
/// of the same downstream server, as long as no separator begins inside
/// either identifier.
pub proof fn lemma_namespaced_injective(
    id1: Seq<char>,
    name1: Seq<char>,
    id2: Seq<char>,
    name2: Seq<char>,
)
    requires
        forall|j: int| 0 <= j < id1.len() ==> !occurs_at(namespaced(id1, name1), "__"@, j),
        forall|j: int| 0 <= j < id2.len() ==> !occurs_at(namespaced(id2, name2), "__"@, j),
        namespaced(id1, name1) == namespaced(id2, name2),
    ensures
        id1 == id2,
        name1 == name2,
{
    lemma_split_namespaced(id1, name1);
    lemma_split_namespaced(id2, name2);
}

/// A call by the namespaced name of a tool goes to the downstream server
/// that owns the tool, for the tool under its own name; where no server is
/// registered under the prefix, it fails with an unknown downstream and
/// changes nothing.
pub proof fn lemma_dispatch_namespaced(
    clients: Seq<ClientView>,
    server_id: Seq<char>,
    tool: Seq<char>,
    arguments: JsonValue,
    request_id: Seq<char>,
    waiter: u64,
)
    requires
        forall|j: int|
            0 <= j < server_id.len() ==> !occurs_at(namespaced(server_id, tool), "__"@, j),
    ensures
        ({
            let started = call_response(
                clients,
                server_id,
                request_id,
                waiter,
                "tools/call"@,
                Some(tool_call_params(tool, arguments)),
            );
            let dispatched = dispatch_response(
                clients,
                namespaced(server_id, tool),
                arguments,
                request_id,
                waiter,
            );
            &&& dispatched.0 == started.0
            &&& dispatched.1 == (match started.1 {
                Ok(request) => Ok::<DispatchView, DispatchError>(DispatchView { server_id, request }),
                Err(e) => Err(dispatch_error(e)),
            })
            &&& slot_of(clients, server_id) is None ==> dispatched == (
                clients,
                Err::<DispatchView, DispatchError>(DispatchError::UnknownDownstream),
            )
        }),
{
    lemma_split_namespaced(server_id, tool);
}

/// The tools of two lists of replies, one behind the other, are the tools
/// of the first and behind them the tools of the second.
pub proof fn lemma_merged_concat(a: Seq<ToolsReplyView>, b: Seq<ToolsReplyView>)
    ensures
        merged_tools(a + b) == merged_tools(a) + merged_tools(b),
    decreases b.len(),
{
    if b.len() == 0 {
        assert(a + b =~= a);
        assert(merged_tools(a) + merged_tools(b) =~= merged_tools(a));
    } else {
        lemma_merged_concat(a, b.drop_last());
        assert((a + b).drop_last() =~= a + b.drop_last());
        assert((a + b).last() == b.last());
        let tail = exposed_tools(b.last().server_id, b.last().result);
        assert((merged_tools(a) + merged_tools(b.drop_last())) + tail =~= merged_tools(a) + (
        merged_tools(b.drop_last()) + tail));
    }
}

/// A downstream server that did not answer changes nothing in the catalog:
/// the tools of the others are all there, in their order.
pub proof fn lemma_merged_skips_failed(
    a: Seq<ToolsReplyView>,
    server_id: Seq<char>,
    b: Seq<ToolsReplyView>,
)
    ensures
        merged_tools(a.push(ToolsReplyView { server_id, result: None }) + b) == merged_tools(a + b),
        catalog(a.push(ToolsReplyView { server_id, result: None }) + b) == catalog(a + b),
{
    let failed = ToolsReplyView { server_id, result: None };
    lemma_merged_concat(a.push(failed), b);
    lemma_merged_concat(a, b);
    assert(a.push(failed).drop_last() =~= a);
    assert(merged_tools(a.push(failed)) =~= merged_tools(a));
}

/// A tool that is an object with a string under `name` is shown under its
/// namespaced name, and with its other members as they came.
pub proof fn lemma_exposed_name(server_id: Seq<char>, tool: JsonValue, name: Seq<char>)
    requires
        tool.member("name"@) == Some(JsonValue::Str(name)),
    ensures
        exposed_tool(server_id, tool).member("name"@) == Some(
            JsonValue::Str(namespaced(server_id, name)),
        ),
        forall|key: Seq<char>|
            key != "name"@ ==> exposed_tool(server_id, tool).member(key) == tool.member(key),
{
}

/// The name under which a tool of the catalog is shown: the string under
/// its `name`, if it has one.
pub open spec fn name_of(tool: JsonValue) -> Option<Seq<char>> {
    match tool.member("name"@) {
        Some(JsonValue::Str(name)) => Some(name),
        _ => None,
    }
}

/// The tools that a downstream server listed: those under `tools` in what it
/// answered, where that is an array.
pub open spec fn listed_tools(result: Option<JsonValue>) -> Seq<JsonValue> {
    match result {
        Some(v) => match v.member("tools"@) {
            Some(JsonValue::Array(tools)) => tools,
            _ => Seq::empty(),
        },
        None => Seq::empty(),
    }
}

/// Whether no two tools of a list that have a name have the same one.
pub open spec fn names_distinct(tools: Seq<JsonValue>) -> bool {
    forall|a: int, b: int|
        0 <= a < b < tools.len() && name_of(#[trigger] tools[a]) is Some ==> name_of(tools[a])
            != name_of(#[trigger] tools[b])
}

/// What a downstream server adds to the catalog are the tools it listed,
/// each as the gateway shows it.
pub proof fn lemma_exposed_listed(server_id: Seq<char>, result: Option<JsonValue>)
    ensures
        exposed_tools(server_id, result) == exposed_all(server_id, listed_tools(result)),
{
    assert(exposed_all(server_id, Seq::<JsonValue>::empty()) =~= Seq::<JsonValue>::empty());
}

/// A tool with a name is shown under its namespaced name, and a tool
/// without one is shown without one.
pub proof fn lemma_exposed_name_of(server_id: Seq<char>, tool: JsonValue)
    ensures
        name_of(exposed_tool(server_id, tool)) == (match name_of(tool) {
            Some(name) => Some(namespaced(server_id, name)),
            None => None,
        }),
{
}

/// Every name in the catalog is the namespaced name of a tool of one of the
/// downstream servers that answered.
pub proof fn lemma_catalog_name(replies: Seq<ToolsReplyView>, p: int)
    requires
        0 <= p < merged_tools(replies).len(),
        name_of(merged_tools(replies)[p]) is Some,
    ensures
        exists|i: int, name: Seq<char>|
            0 <= i < replies.len() && name_of(merged_tools(replies)[p]) == Some(
                #[trigger] namespaced(replies[i].server_id, name),
            ),
    decreases replies.len(),
{
    let front = replies.drop_last();
    let last = replies.last();
    if p < merged_tools(front).len() {
        lemma_catalog_name(front, p);
        let (i, name) = choose|i: int, name: Seq<char>|
            0 <= i < front.len() && name_of(merged_tools(front)[p]) == Some(
                #[trigger] namespaced(front[i].server_id, name),
            );
        assert(replies[i] == front[i]);
        assert(name_of(merged_tools(replies)[p]) == Some(namespaced(replies[i].server_id, name)));
    } else {
        lemma_exposed_listed(last.server_id, last.result);
        let a = p - merged_tools(front).len();
        let tool = listed_tools(last.result)[a];
        lemma_exposed_name_of(last.server_id, tool);
        let i = replies.len() - 1;
        assert(replies[i] == last);
        assert(name_of(merged_tools(replies)[p]) == Some(
            namespaced(replies[i].server_id, name_of(tool)->0),
        ));
    }
}

/// No two tools of the catalog that have a name have the same one, even
/// where two downstream servers list a tool of the same name: as long as the
/// replies come from different servers, each under a plain identifier, and
/// no server lists two tools of one name.
pub proof fn lemma_catalog_names_distinct(replies: Seq<ToolsReplyView>)
    requires
        forall|i: int| 0 <= i < replies.len() ==> is_plain((#[trigger] replies[i]).server_id),
        forall|i: int, j: int|
            0 <= i < j < replies.len() ==> (#[trigger] replies[i]).server_id != (
            #[trigger] replies[j]).server_id,
        forall|i: int|
            0 <= i < replies.len() ==> names_distinct(listed_tools((#[trigger] replies[i]).result)),
    ensures
        names_distinct(merged_tools(replies)),
    decreases replies.len(),
{
    if replies.len() > 0 {
        let front = replies.drop_last();
        let last = replies.last();
        let listed = listed_tools(last.result);
        let base = merged_tools(front).len() as int;
        assert forall|i: int| 0 <= i < front.len() implies is_plain(
            (#[trigger] front[i]).server_id,
        ) && names_distinct(listed_tools(front[i].result)) by {
            assert(front[i] == replies[i]);
        }
        assert forall|i: int, j: int| 0 <= i < j < front.len() implies (
        #[trigger] front[i]).server_id != (#[trigger] front[j]).server_id by {
            assert(front[i] == replies[i] && front[j] == replies[j]);
        }
        lemma_catalog_names_distinct(front);
        lemma_exposed_listed(last.server_id, last.result);
        assert(replies[replies.len() - 1] == last);
        let merged = merged_tools(replies);
        assert forall|a: int, b: int|
            0 <= a < b < merged.len() && name_of(#[trigger] merged[a]) is Some implies name_of(
            merged[a],
        ) != name_of(#[trigger] merged[b]) by {
            if name_of(merged[b]) is Some {
                if b < base {
                    assert(merged[a] == merged_tools(front)[a]);
                    assert(merged[b] == merged_tools(front)[b]);
                } else {
                    let tool_b = listed[b - base];
                    lemma_exposed_name_of(last.server_id, tool_b);
                    let name_b = name_of(tool_b)->0;
                    lemma_plain_identifier(last.server_id, name_b);
                    if a < base {
                        assert(merged[a] == merged_tools(front)[a]);
                        lemma_catalog_name(front, a);
                        let (i, name_a) = choose|i: int, name: Seq<char>|
                            0 <= i < front.len() && name_of(merged_tools(front)[a]) == Some(
                                #[trigger] namespaced(front[i].server_id, name),
                            );
                        assert(front[i] == replies[i]);
                        assert(replies[i].server_id != last.server_id);
                        lemma_plain_identifier(front[i].server_id, name_a);
                        if namespaced(front[i].server_id, name_a) == namespaced(
                            last.server_id,
                            name_b,
                        ) {
                            lemma_namespaced_injective(
                                front[i].server_id,
                                name_a,
                                last.server_id,
                                name_b,
                            );
                        }
                    } else {
                        let tool_a = listed[a - base];
                        lemma_exposed_name_of(last.server_id, tool_a);
                        let name_a = name_of(tool_a)->0;
                        assert(name_of(listed[a - base]) != name_of(listed[b - base]));
                        lemma_plain_identifier(last.server_id, name_a);
                        if namespaced(last.server_id, name_a) == namespaced(
                            last.server_id,
                            name_b,
                        ) {
                            lemma_namespaced_injective(
                                last.server_id,
                                name_a,
                                last.server_id,
                                name_b,
                            );
                        }
                    }
                }
            }
        }
    }
}

} // verus!
