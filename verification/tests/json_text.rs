use mcp_router::json::Json;
use mcp_router::json_text::{parse, print};

#[test]
fn parse_reads_an_object_with_its_members() {
    let doc = parse("{\"b\": [1, true, null], \"a\": \"x\"}").expect("a JSON document");
    assert_eq!(doc.get("a"), Some(&Json::Str("x".to_string())));
    let items = doc.get("b").and_then(|b| b.as_array()).expect("an array");
    assert_eq!(items.len(), 3);
    assert_eq!(items[0].as_i64(), Some(1));
    assert_eq!(items[1], Json::Bool(true));
    assert_eq!(items[2], Json::Null);
    assert_eq!(doc.get("c"), None);
}

#[test]
fn parse_refuses_what_is_no_json() {
    assert_eq!(parse("{not json"), None);
    assert_eq!(parse(""), None);
}

#[test]
fn print_writes_compact_text() {
    let doc = Json::Object(vec![
        ("name".to_string(), Json::Str("echo".to_string())),
        ("n".to_string(), Json::integer(-7)),
        ("list".to_string(), Json::Array(vec![Json::Null, Json::Bool(false)])),
    ]);
    assert_eq!(
        print(&doc),
        Some("{\"list\":[null,false],\"n\":-7,\"name\":\"echo\"}".to_string())
    );
}

#[test]
fn print_lets_the_last_member_under_a_key_count() {
    let doc = Json::Object(vec![
        ("k".to_string(), Json::integer(1)),
        ("k".to_string(), Json::integer(2)),
    ]);
    assert_eq!(print(&doc), Some("{\"k\":2}".to_string()));
    assert_eq!(doc.get("k").and_then(|v| v.as_i64()), Some(2));
}

#[test]
fn numbers_keep_their_kind() {
    let doc = parse("[5, -3, 1.5, 18446744073709551615]").expect("a JSON document");
    let items = doc.as_array().expect("an array");
    assert_eq!(items[0].as_i64(), Some(5));
    assert_eq!(items[1].as_i64(), Some(-3));
    assert_eq!(items[2].as_i64(), None);
    assert_eq!(items[3].as_i64(), None);
    assert_eq!(print(&doc), Some("[5,-3,1.5,18446744073709551615]".to_string()));
}

#[test]
fn integer_makes_the_number_it_is_given() {
    assert_eq!(Json::integer(i64::MIN).as_i64(), Some(i64::MIN));
    assert_eq!(Json::integer(0).as_i64(), Some(0));
    assert_eq!(print(&Json::integer(42)), Some("42".to_string()));
}

#[test]
fn clone_keeps_the_document() {
    let doc = parse("{\"a\": [1, 2.5, {\"b\": null}], \"c\": \"d\"}").expect("a JSON document");
    let copy = doc.clone();
    assert_eq!(copy, doc);
    assert_eq!(print(&copy), print(&doc));
}

#[test]
fn text_read_back_is_the_document_written() {
    let doc = Json::Object(vec![
        ("a".to_string(), Json::Array(vec![Json::integer(1), Json::Str("two".to_string())])),
        ("b".to_string(), Json::Bool(true)),
    ]);
    let text = print(&doc).expect("a text");
    assert_eq!(parse(&text), Some(doc));
}

#[test]
fn set_member_writes_over_the_member_that_counts() {
    let mut doc = Json::Object(vec![
        ("name".to_string(), Json::string("echo")),
        ("description".to_string(), Json::string("says it again")),
    ]);
    doc.set_member("name".to_string(), Json::string("svc1__echo"));
    assert_eq!(
        doc,
        Json::Object(vec![
            ("name".to_string(), Json::string("svc1__echo")),
            ("description".to_string(), Json::string("says it again")),
        ])
    );
    doc.set_member("extra".to_string(), Json::Null);
    assert_eq!(doc.get("extra"), Some(&Json::Null));
    let mut other = Json::Array(vec![]);
    other.set_member("name".to_string(), Json::Null);
    assert_eq!(other, Json::Array(vec![]));
}

#[test]
fn as_str_and_as_array_tell_the_kinds_apart() {
    assert_eq!(Json::string("x").as_str(), Some("x"));
    assert_eq!(Json::Null.as_str(), None);
    assert_eq!(Json::Array(vec![Json::Null]).as_array().map(|a| a.len()), Some(1));
    assert_eq!(Json::string("x").as_array(), None);
    assert_eq!(Json::string("x").get("x"), None);
}
