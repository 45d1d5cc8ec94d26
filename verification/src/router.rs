//! Resolving a prompt to the downstream server that owns a matching tool.

use vstd::prelude::*;
use crate::text::{occurs_in, str_contains};
use crate::tool::{Tool, ToolView};

verus! {

/// Why a router could not answer.
#[derive(Debug, Clone, Copy, PartialEq, Eq, Structural)]
pub enum RouterError {
    /// The index behind the router failed.
    IndexFailed,
}

/// The view of what a router resolved.
pub open spec fn resolved_view(resolved: Result<Option<(String, Tool)>, RouterError>) -> Result<
    Option<(Seq<char>, ToolView)>,
    RouterError,
> {
    match resolved {
        Ok(Some(hit)) => Ok(Some((hit.0@, hit.1@))),
        Ok(None) => Ok(None),
        Err(e) => Err(e),
    }
}

/// A strategy that finds, for a prompt, a tool and the downstream server
/// that owns it, in an index that only grows.
pub trait Router {
    /// Whether the index holds `tool` for the downstream server `server_id`.
    /// A router that gives no account of its index is taken to hold
    /// anything.
    open spec fn holds(&self, server_id: Seq<char>, tool: ToolView) -> bool {
        true
    }

    /// Whether `resolved` is an answer that the router may give to
    /// `prompt`. A router that gives no account of how it answers is taken
    /// to answer anything.
    open spec fn answers(
        &self,
        prompt: Seq<char>,
        resolved: Result<Option<(Seq<char>, ToolView)>, RouterError>,
    ) -> bool {
        true
    }

    /// The best match for `prompt`, if there is any: an answer that the
    /// router may give to `prompt`. What comes back is in the index.
    fn resolve(&self, prompt: &str) -> (r: Result<Option<(String, Tool)>, RouterError>)
        ensures
            r matches Ok(Some(hit)) ==> self.holds(hit.0@, hit.1@),
            self.answers(prompt@, resolved_view(r)),
    ;

    /// Adds `tool` to the index for the downstream server `server_id`.
    /// Nothing leaves the index, and a failure leaves it as it was.
    fn add_tool(&mut self, server_id: &str, tool: Tool) -> (r: Result<(), RouterError>)
        ensures
            forall|s: Seq<char>, t: ToolView| old(self).holds(s, t) ==> final(self).holds(s, t),
            r is Ok ==> final(self).holds(server_id@, tool@),
            r is Err ==> forall|s: Seq<char>, t: ToolView|
                final(self).holds(s, t) ==> old(self).holds(s, t),
    ;
}

/// The tools of one downstream server, in the order they were added.
pub struct ToolGroup {
    pub server_id: String,
    pub tools: Vec<Tool>,
}

pub ghost struct ToolGroupView {
    pub server_id: Seq<char>,
    pub tools: Seq<ToolView>,
}

/// The views of a list of tools, one for one.
pub open spec fn tool_views(tools: Seq<Tool>) -> Seq<ToolView> {
    tools.map_values(|t: Tool| t@)
}

impl View for ToolGroup {
    type V = ToolGroupView;

    open spec fn view(&self) -> ToolGroupView {
        ToolGroupView { server_id: self.server_id@, tools: tool_views(self.tools@) }
    }
}

/// Whether the tool at place `t` of group `g` has its name in `prompt`.
pub open spec fn is_hit(groups: Seq<ToolGroupView>, prompt: Seq<char>, g: int, t: int) -> bool {
    &&& 0 <= g < groups.len()
    &&& 0 <= t < groups[g].tools.len()
    &&& occurs_in(groups[g].tools[t].name, prompt)
}

/// Whether place `t` of group `g` is the first hit: no earlier group has a
/// hit, and no earlier tool of group `g` is one.
pub open spec fn is_first_hit(groups: Seq<ToolGroupView>, prompt: Seq<char>, g: int, t: int) -> bool {
    &&& is_hit(groups, prompt, g, t)
    &&& forall|g2: int, t2: int|
        (g2 < g || (g2 == g && t2 < t)) ==> !#[trigger] is_hit(groups, prompt, g2, t2)
}

/// Whether `resolved` is what a search of `groups` by containment gives for
/// `prompt`: the first hit with its server, or nothing where no tool is a
/// hit. Such a search does not fail.
pub open spec fn is_keyword_answer(
    groups: Seq<ToolGroupView>,
    prompt: Seq<char>,
    resolved: Result<Option<(Seq<char>, ToolView)>, RouterError>,
) -> bool {
    match resolved {
        Ok(Some(hit)) => exists|g: int, t: int|
            {
                &&& #[trigger] is_first_hit(groups, prompt, g, t)
                &&& hit.0 == groups[g].server_id
                &&& hit.1 == groups[g].tools[t]
            },
        Ok(None) => forall|g: int, t: int| !#[trigger] is_hit(groups, prompt, g, t),
        Err(_) => false,
    }
}

/// Whether `g` is the place of the first group of `server_id`.
pub open spec fn is_group_of(groups: Seq<ToolGroupView>, server_id: Seq<char>, g: int) -> bool {
    &&& 0 <= g < groups.len()
    &&& groups[g].server_id == server_id
    &&& forall|g2: int| 0 <= g2 < g ==> (#[trigger] groups[g2]).server_id != server_id
}

/// The place of the first group of `server_id`, if it has a group.
pub open spec fn group_of(groups: Seq<ToolGroupView>, server_id: Seq<char>) -> Option<int> {
    if exists|g: int| is_group_of(groups, server_id, g) {
        Some(choose|g: int| is_group_of(groups, server_id, g))
    } else {
        None
    }
}

/// No two groups belong to the same server.
pub open spec fn distinct_servers(groups: Seq<ToolGroupView>) -> bool {
    forall|g1: int, g2: int|
        0 <= g1 < g2 < groups.len() ==> (#[trigger] groups[g1]).server_id != (
        #[trigger] groups[g2]).server_id
}

/// Whether `tool` stands in a group of `server_id`.
pub open spec fn group_holds(groups: Seq<ToolGroupView>, server_id: Seq<char>, tool: ToolView) -> bool {
    exists|g: int, t: int|
        0 <= g < groups.len() && 0 <= t < groups[g].tools.len() && (
        #[trigger] groups[g]).server_id == server_id && #[trigger] groups[g].tools[t] == tool
}

/// The groups after `tool` was added for `server_id`: at the end of that
/// server's group, or as a new last group where it had none.
pub open spec fn groups_with(
    groups: Seq<ToolGroupView>,
    server_id: Seq<char>,
    tool: ToolView,
) -> Seq<ToolGroupView> {
    match group_of(groups, server_id) {
        Some(g) => groups.update(
            g,
            ToolGroupView { server_id, tools: groups[g].tools.push(tool) },
        ),
        None => groups.push(ToolGroupView { server_id, tools: seq![tool] }),
    }
}

/// A router that matches by containment: a tool is a hit where its name
/// occurs in the prompt. The servers are searched in the order in which each
/// got its first tool, a server's tools in the order they were added, and the
/// first hit wins.
pub struct KeywordRouter {
    tools: Vec<ToolGroup>,
}

impl View for KeywordRouter {
    type V = Seq<ToolGroupView>;

    /// The groups of the index, in the order of search.
    closed spec fn view(&self) -> Seq<ToolGroupView> {
        self.tools@.map_values(|g: ToolGroup| g@)
    }
}

impl KeywordRouter {
    /// A router with an empty index.
    pub fn new() -> (r: KeywordRouter)
        ensures
            r@ == Seq::<ToolGroupView>::empty(),
    {
        let r = KeywordRouter { tools: Vec::new() };
        assert(r@ =~= Seq::<ToolGroupView>::empty());
        r
    }

    /// The first hit for `prompt` in the order of search, if there is a hit.
    pub fn first_hit(&self, prompt: &str) -> (r: Option<(String, Tool)>)
        ensures
            match r {
                Some(hit) => exists|g: int, t: int|
                    {
                        &&& #[trigger] is_first_hit(self@, prompt@, g, t)
                        &&& hit.0@ == self@[g].server_id
                        &&& hit.1@ == self@[g].tools[t]
                    },
                None => forall|g: int, t: int| !#[trigger] is_hit(self@, prompt@, g, t),
            },
    {
        let mut g: usize = 0;
        while g < self.tools.len()
            invariant
                g <= self.tools.len(),
                forall|g2: int, t2: int| g2 < g ==> !#[trigger] is_hit(self@, prompt@, g2, t2),
            decreases self.tools.len() - g,
        {
            let group = &self.tools[g];
            assert(self@[g as int] == group@);
            let mut t: usize = 0;
            while t < group.tools.len()
                invariant
                    g < self.tools.len(),
                    t <= group.tools.len(),
                    self@[g as int] == group@,
                    forall|g2: int, t2: int|
                        (g2 < g || (g2 == g && t2 < t)) ==> !#[trigger] is_hit(
                            self@,
                            prompt@,
                            g2,
                            t2,
                        ),
                decreases group.tools.len() - t,
            {
                let tool = &group.tools[t];
                assert(group@.tools[t as int] == tool@);
                if str_contains(prompt, tool.name.as_str()) {
                    assert(is_first_hit(self@, prompt@, g as int, t as int));
                    return Some((group.server_id.clone(), tool.clone()));
                }
                t = t + 1;
            }
            g = g + 1;
        }
        None
    }

    /// Adds `tool` for the downstream server `server_id`.
    pub fn insert(&mut self, server_id: &str, tool: Tool)
        ensures
            final(self)@ == groups_with(old(self)@, server_id@, tool@),
    {
        let owned = server_id.to_owned();
        let mut g: usize = 0;
        while g < self.tools.len()
            invariant
                g <= self.tools.len(),
                owned@ == server_id@,
                *self == *old(self),
                forall|g2: int| 0 <= g2 < g ==> (#[trigger] self@[g2]).server_id != server_id@,
            decreases self.tools.len() - g,
        {
            assert(self@[g as int] == self.tools@[g as int]@);
            if self.tools[g].server_id == owned {
                let ghost before = self@;
                let ghost tools_before = self.tools@[g as int].tools@;
                assert(before[g as int].server_id == server_id@);
                assert(is_group_of(before, server_id@, g as int));
                assert(group_of(before, server_id@) == Some(g as int)) by {
                    let c = choose|c: int| is_group_of(before, server_id@, c);
                    if c < g {
                        assert(before[c].server_id != server_id@);
                    } else if g < c {
                        assert(before[g as int].server_id != server_id@);
                    }
                }
                self.tools[g].tools.push(tool);
                assert(tool_views(self.tools@[g as int].tools@) =~= tool_views(tools_before).push(
                    tool@,
                ));
                assert(self@ =~= groups_with(before, server_id@, tool@));
                return ;
            }
            g = g + 1;
        }
        let ghost before = self@;
        assert(group_of(before, server_id@) is None);
        let mut tools: Vec<Tool> = Vec::new();
        tools.push(tool);
        assert(tool_views(tools@) =~= seq![tool@]);
        self.tools.push(ToolGroup { server_id: owned, tools });
        assert(self@ =~= groups_with(before, server_id@, tool@));
    }
}

/// Adding a tool keeps the servers of the groups distinct.
pub proof fn lemma_groups_with_distinct(
    groups: Seq<ToolGroupView>,
    server_id: Seq<char>,
    tool: ToolView,
)
    requires
        distinct_servers(groups),
    ensures
        distinct_servers(groups_with(groups, server_id, tool)),
{
    let after = groups_with(groups, server_id, tool);
    match group_of(groups, server_id) {
        Some(g) => {
            assert(is_group_of(groups, server_id, g));
            assert forall|g1: int, g2: int| 0 <= g1 < g2 < after.len() implies (
            #[trigger] after[g1]).server_id != (#[trigger] after[g2]).server_id by {
                assert(after[g1].server_id == groups[g1].server_id);
                assert(after[g2].server_id == groups[g2].server_id);
            }
        },
        None => {
            assert forall|g1: int, g2: int| 0 <= g1 < g2 < after.len() implies (
            #[trigger] after[g1]).server_id != (#[trigger] after[g2]).server_id by {
                assert(after[g1] == groups[g1]);
                if g2 < groups.len() {
                    assert(after[g2] == groups[g2]);
                } else {
                    lemma_no_group(groups, server_id, g1);
                }
            }
        },
    }
}

/// Where a server has no first group, no group is its own.
pub proof fn lemma_no_group(groups: Seq<ToolGroupView>, server_id: Seq<char>, g: int)
    requires
        group_of(groups, server_id) is None,
        0 <= g < groups.len(),
    ensures
        groups[g].server_id != server_id,
    decreases g,
{
    if groups[g].server_id == server_id {
        if forall|g2: int| 0 <= g2 < g ==> (#[trigger] groups[g2]).server_id != server_id {
            assert(is_group_of(groups, server_id, g));
        } else {
            let g2 = choose|g2: int| 0 <= g2 < g && (#[trigger] groups[g2]).server_id == server_id;
            lemma_no_group(groups, server_id, g2);
        }
    }
}

/// Adding a tool keeps what the groups held and makes them hold the tool.
pub proof fn lemma_groups_with_holds(
    groups: Seq<ToolGroupView>,
    server_id: Seq<char>,
    tool: ToolView,
)
    ensures
        group_holds(groups_with(groups, server_id, tool), server_id, tool),
        forall|s: Seq<char>, t: ToolView|
            group_holds(groups, s, t) ==> group_holds(groups_with(groups, server_id, tool), s, t),
{
    let after = groups_with(groups, server_id, tool);
    match group_of(groups, server_id) {
        Some(g) => {
            assert(is_group_of(groups, server_id, g));
            let last = groups[g].tools.len() as int;
            assert(after[g].server_id == server_id && after[g].tools[last] == tool);
            assert forall|s: Seq<char>, t: ToolView| group_holds(groups, s, t) implies group_holds(
                after,
                s,
                t,
            ) by {
                let (g1, t1) = choose|g1: int, t1: int|
                    0 <= g1 < groups.len() && 0 <= t1 < groups[g1].tools.len() && (
                    #[trigger] groups[g1]).server_id == s && #[trigger] groups[g1].tools[t1] == t;
                assert(after[g1].server_id == s && after[g1].tools[t1] == t);
            }
        },
        None => {
            let last = groups.len() as int;
            assert(after[last].server_id == server_id && after[last].tools[0] == tool);
            assert forall|s: Seq<char>, t: ToolView| group_holds(groups, s, t) implies group_holds(
                after,
                s,
                t,
            ) by {
                let (g1, t1) = choose|g1: int, t1: int|
                    0 <= g1 < groups.len() && 0 <= t1 < groups[g1].tools.len() && (
                    #[trigger] groups[g1]).server_id == s && #[trigger] groups[g1].tools[t1] == t;
                assert(after[g1].server_id == s && after[g1].tools[t1] == t);
            }
        },
    }
}

impl Router for KeywordRouter {
    open spec fn holds(&self, server_id: Seq<char>, tool: ToolView) -> bool {
        group_holds(self@, server_id, tool)
    }

    open spec fn answers(
        &self,
        prompt: Seq<char>,
        resolved: Result<Option<(Seq<char>, ToolView)>, RouterError>,
    ) -> bool {
        is_keyword_answer(self@, prompt, resolved)
    }

    /// The first hit for `prompt`; a keyword router always answers.
    fn resolve(&self, prompt: &str) -> (r: Result<Option<(String, Tool)>, RouterError>)
        ensures
            is_keyword_answer(self@, prompt@, resolved_view(r)),
    {
        let hit = self.first_hit(prompt);
        proof {
            if let Some(h) = &hit {
                let (g, t) = choose|g: int, t: int|
                    {
                        &&& #[trigger] is_first_hit(self@, prompt@, g, t)
                        &&& h.0@ == self@[g].server_id
                        &&& h.1@ == self@[g].tools[t]
                    };
                assert(self@[g].server_id == h.0@ && self@[g].tools[t] == h.1@);
            }
        }
        Ok(hit)
    }

    /// Adds `tool` at the end of the group of `server_id`, or as a new last
    /// group where that server had none; a keyword router never fails.
    fn add_tool(&mut self, server_id: &str, tool: Tool) -> (r: Result<(), RouterError>)
        ensures
            r is Ok,
            final(self)@ == groups_with(old(self)@, server_id@, tool@),
    {
        proof {
            lemma_groups_with_holds(self@, server_id@, tool@);
        }
        self.insert(server_id, tool);
        Ok(())
    }
}

} // verus!
