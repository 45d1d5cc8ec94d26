use mcp_router::json::Json;
use mcp_router::router::{KeywordRouter, Router, RouterError};
use mcp_router::tool::Tool;
use mcp_router::vector::{nearest, VectorRouter, VectorStore};

fn tool(name: &str) -> Tool {
    Tool { name: name.to_string(), description: None, input_schema: Json::Object(vec![]) }
}

#[test]
fn the_first_registered_downstream_wins() {
    let mut router = KeywordRouter::new();
    assert_eq!(router.add_tool("A", tool("search")), Ok(()));
    assert_eq!(router.add_tool("B", tool("search_v2")), Ok(()));
    assert_eq!(
        router.resolve("please search_v2 now"),
        Ok(Some(("A".to_string(), tool("search"))))
    );
}

#[test]
fn a_prompt_without_a_tool_name_resolves_to_nothing() {
    let mut router = KeywordRouter::new();
    assert_eq!(router.resolve("anything"), Ok(None));
    router.insert("A", tool("search"));
    assert_eq!(router.resolve("find it"), Ok(None));
    assert_eq!(router.first_hit("sear ch"), None);
}

#[test]
fn a_later_tool_of_an_earlier_downstream_comes_before_a_later_downstream() {
    let mut router = KeywordRouter::new();
    router.insert("A", tool("alpha"));
    router.insert("B", tool("fetch"));
    router.insert("A", tool("fetch_all"));
    assert_eq!(
        router.first_hit("run fetch_all"),
        Some(("A".to_string(), tool("fetch_all")))
    );
    assert_eq!(router.first_hit("run fetch"), Some(("B".to_string(), tool("fetch"))));
    let mut other = KeywordRouter::new();
    other.insert("A", tool("alpha"));
    other.insert("B", tool("fetch_all"));
    other.insert("A", tool("fetch"));
    assert_eq!(
        other.first_hit("run fetch_all"),
        Some(("A".to_string(), tool("fetch")))
    );
}

#[test]
fn the_tools_of_one_downstream_are_tried_in_the_order_added() {
    let mut router = KeywordRouter::new();
    router.insert("A", tool("list"));
    router.insert("A", tool("list_all"));
    assert_eq!(router.first_hit("list_all"), Some(("A".to_string(), tool("list"))));
    assert_eq!(router.first_hit("xlist_allx").map(|h| h.1.name), Some("list".to_string()));
}

#[test]
fn a_tool_with_an_empty_name_is_in_every_prompt() {
    let mut router = KeywordRouter::new();
    router.insert("A", tool(""));
    assert_eq!(router.first_hit("").map(|h| h.0), Some("A".to_string()));
}

#[test]
fn a_cloned_tool_is_the_same_tool() {
    let t = Tool {
        name: "echo".to_string(),
        description: Some("says it again".to_string()),
        input_schema: Json::Object(vec![("type".to_string(), Json::string("object"))]),
    };
    assert_eq!(t.clone(), t);
}

struct FixedStore {
    held: Vec<(String, Tool)>,
    broken: bool,
}

impl VectorStore for FixedStore {
    fn add_tool(&mut self, server_id: &str, tool: Tool) -> Result<(), RouterError> {
        if self.broken {
            return Err(RouterError::IndexFailed);
        }
        self.held.push((server_id.to_string(), tool));
        Ok(())
    }

    fn search(&self, _query: &str, limit: usize) -> Result<Vec<(String, Tool)>, RouterError> {
        if self.broken {
            return Err(RouterError::IndexFailed);
        }
        Ok(self.held.iter().rev().take(limit).cloned().collect())
    }
}

#[test]
fn a_vector_router_hands_out_the_nearest_neighbour() {
    let mut router = VectorRouter::new(FixedStore { held: vec![], broken: false });
    assert_eq!(router.resolve("anything"), Ok(None));
    assert_eq!(router.add_tool("A", tool("one")), Ok(()));
    assert_eq!(router.add_tool("B", tool("two")), Ok(()));
    assert_eq!(router.resolve("anything"), Ok(Some(("B".to_string(), tool("two")))));
}

#[test]
fn a_vector_router_hands_on_the_failure_of_its_index() {
    let mut router = VectorRouter::new(FixedStore { held: vec![], broken: true });
    assert_eq!(router.add_tool("A", tool("one")), Err(RouterError::IndexFailed));
    assert_eq!(router.resolve("anything"), Err(RouterError::IndexFailed));
}

#[test]
fn nearest_is_the_first_hit_of_a_search() {
    assert_eq!(nearest(Ok(vec![])), Ok(None));
    assert_eq!(
        nearest(Ok(vec![("B".to_string(), tool("two")), ("A".to_string(), tool("one"))])),
        Ok(Some(("B".to_string(), tool("two"))))
    );
    assert_eq!(nearest(Ok(vec![("A".to_string(), tool("one"))])), Ok(Some(("A".to_string(), tool("one")))));
    assert_eq!(nearest(Err(RouterError::IndexFailed)), Err(RouterError::IndexFailed));
}
