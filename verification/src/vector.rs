//! Resolving a prompt by nearest-neighbour search in a vector index that
//! lives outside this library.

use vstd::prelude::*;
use crate::router::{resolved_view, Router, RouterError};
use crate::tool::{Tool, ToolView};

verus! {

/// An index of tools by the embedding of their descriptive text. The
/// embedding and the search are the implementor's; this trait fixes the
/// protocol around them.
pub trait VectorStore {
    /// Whether the index holds `tool` for the downstream server `server_id`.
    /// An index that gives no account of itself is taken to hold anything.
    open spec fn holds(&self, server_id: Seq<char>, tool: ToolView) -> bool {
        true
    }

    /// Whether adding `tool` for the downstream server `server_id` may turn
    /// this index into `after` and return `r`. An index that gives no
    /// account of how it adds is taken to allow anything.
    open spec fn may_add(
        &self,
        after: &Self,
        server_id: Seq<char>,
        tool: ToolView,
        r: Result<(), RouterError>,
    ) -> bool {
        true
    }

    /// Embeds the descriptive text of `tool` and adds it to the index for
    /// the downstream server `server_id`: the index changes, and the result
    /// is, as adding this tool for this server may do. Nothing leaves the
    /// index, and a failure leaves it as it was.
    fn add_tool(&mut self, server_id: &str, tool: Tool) -> (r: Result<(), RouterError>)
        ensures
            forall|s: Seq<char>, t: ToolView| old(self).holds(s, t) ==> final(self).holds(s, t),
            r is Ok ==> final(self).holds(server_id@, tool@),
            r is Err ==> forall|s: Seq<char>, t: ToolView|
                final(self).holds(s, t) ==> old(self).holds(s, t),
            old(self).may_add(final(self), server_id@, tool@, r),
    ;

    /// Whether `found` is an answer that the index may give to a search for
    /// `query` under `limit`. An index that gives no account of how it
    /// searches is taken to answer anything.
    open spec fn may_answer(
        &self,
        query: Seq<char>,
        limit: usize,
        found: Result<Seq<(Seq<char>, ToolView)>, RouterError>,
    ) -> bool {
        true
    }

    /// The tools nearest to `query`, nearest first: an answer that the index
    /// may give to this search, with at most `limit` tools, each from the
    /// index.
    fn search(&self, query: &str, limit: usize) -> (r: Result<Vec<(String, Tool)>, RouterError>)
        ensures
            r matches Ok(hits) ==> {
                &&& hits@.len() <= limit
                &&& forall|i: int|
                    0 <= i < hits@.len() ==> self.holds((#[trigger] hits@[i]).0@, hits@[i].1@)
            },
            self.may_answer(query@, limit, found_view(r)),
    ;
}

/// The views of the hits of a search, one for one.
pub open spec fn hit_views(hits: Seq<(String, Tool)>) -> Seq<(Seq<char>, ToolView)> {
    hits.map_values(|h: (String, Tool)| (h.0@, h.1@))
}

/// The view of what a search returned.
pub open spec fn found_view(found: Result<Vec<(String, Tool)>, RouterError>) -> Result<
    Seq<(Seq<char>, ToolView)>,
    RouterError,
> {
    match found {
        Ok(hits) => Ok(hit_views(hits@)),
        Err(e) => Err(e),
    }
}

/// Whether a store may answer a search under `limit` with `found`: a
/// failure, or at most `limit` hits, each from its index.
pub open spec fn may_find<S: VectorStore>(
    store: &S,
    limit: usize,
    found: Result<Seq<(Seq<char>, ToolView)>, RouterError>,
) -> bool {
    found matches Ok(hits) ==> {
        &&& hits.len() <= limit
        &&& forall|i: int| 0 <= i < hits.len() ==> store.holds((#[trigger] hits[i]).0, hits[i].1)
    }
}

/// What a search resolves to: its first hit, nothing where it found
/// nothing, its failure where it failed.
pub open spec fn nearest_of(found: Result<Seq<(Seq<char>, ToolView)>, RouterError>) -> Result<
    Option<(Seq<char>, ToolView)>,
    RouterError,
> {
    match found {
        Ok(hits) => Ok(
            if hits.len() > 0 {
                Some(hits[0])
            } else {
                None
            },
        ),
        Err(e) => Err(e),
    }
}

/// Whether `resolved` is what a router over `store` may resolve `prompt`
/// to: what some answer of the store to a search for `prompt` with limit one
/// resolves to.
pub open spec fn is_vector_answer<S: VectorStore>(
    store: &S,
    prompt: Seq<char>,
    resolved: Result<Option<(Seq<char>, ToolView)>, RouterError>,
) -> bool {
    exists|found: Result<Seq<(Seq<char>, ToolView)>, RouterError>|
        {
            &&& resolved == #[trigger] nearest_of(found)
            &&& store.may_answer(prompt, 1, found)
            &&& may_find(store, 1, found)
        }
}

/// What a search resolves to.
pub fn nearest(found: Result<Vec<(String, Tool)>, RouterError>) -> (r: Result<
    Option<(String, Tool)>,
    RouterError,
>)
    ensures
        resolved_view(r) == nearest_of(found_view(found)),
{
    match found {
        Ok(hits) => {
            let mut hits = hits;
            if hits.len() == 0 {
                Ok(None)
            } else {
                let ghost first = hits@[0];
                let hit = hits.swap_remove(0);
                assert(hit == first);
                Ok(Some(hit))
            }
        },
        Err(e) => Err(e),
    }
}

/// A router that resolves a prompt to its nearest neighbour in a vector
/// index.
pub struct VectorRouter<S: VectorStore> {
    pub store: S,
}

impl<S: VectorStore> VectorRouter<S> {
    /// A router over the given index.
    pub fn new(store: S) -> (r: VectorRouter<S>)
        ensures
            r.store == store,
    {
        VectorRouter { store }
    }
}

impl<S: VectorStore> Router for VectorRouter<S> {
    open spec fn holds(&self, server_id: Seq<char>, tool: ToolView) -> bool {
        self.store.holds(server_id, tool)
    }

    open spec fn answers(
        &self,
        prompt: Seq<char>,
        resolved: Result<Option<(Seq<char>, ToolView)>, RouterError>,
    ) -> bool {
        is_vector_answer(&self.store, prompt, resolved)
    }

    /// The nearest neighbour of `prompt`: what an answer of the index to a
    /// search for `prompt` with limit one resolves to. Whether the search
    /// answers, and with which tool of its index, is the store's own.
    fn resolve(&self, prompt: &str) -> (r: Result<Option<(String, Tool)>, RouterError>)
        ensures
            is_vector_answer(&self.store, prompt@, resolved_view(r)),
    {
        let found = self.store.search(prompt, 1);
        let ghost outcome = found_view(found);
        proof {
            if let Ok(hits) = &found {
                assert forall|i: int| 0 <= i < hit_views(hits@).len() implies self.store.holds(
                    (#[trigger] hit_views(hits@)[i]).0,
                    hit_views(hits@)[i].1,
                ) by {
                    assert(self.store.holds(hits@[i].0@, hits@[i].1@));
                }
            }
            assert(may_find(&self.store, 1, outcome));
        }
        let r = nearest(found);
        assert(resolved_view(r) == nearest_of(outcome));
        r
    }

    /// Adds `tool` to the index: the store changes, and the result is, as
    /// adding this tool for this server to the store may do. Whether the
    /// store takes the tool is the store's own.
    fn add_tool(&mut self, server_id: &str, tool: Tool) -> (r: Result<(), RouterError>)
        ensures
            old(self).store.may_add(&final(self).store, server_id@, tool@, r),
    {
        self.store.add_tool(server_id, tool)
    }
}

} // verus!
