use warp_controller::condition::PathStep;
use warp_controller::document::{decode, has_edge_literal, resolve_path, Document, Member};
use warp_controller::error::ContractError;
use warp_controller::util::condition::{bool_at, decimal_at, int_at, string_at, uint_at};
use warp_controller::math::uint256::Uint256;

fn key(name: &str) -> PathStep {
    PathStep::Key(name.to_string())
}

fn member(name: &str, value: Document) -> Member {
    Member { key: name.to_string(), value }
}

fn sample() -> Document {
    Document::Object(vec![
        member("price", Document::Text("42".to_string())),
        member("ok", Document::Bool(true)),
        member("count", Document::Int(-3)),
        member(
            "list",
            Document::Array(vec![
                Document::Null,
                Document::Object(vec![member("deep", Document::Text("1.5".to_string()))]),
            ]),
        ),
        member("price", Document::Text("shadowed".to_string())),
    ])
}

#[test]
fn decode_reads_every_kind_of_value() {
    assert_eq!(decode("null"), Ok(Document::Null));
    assert_eq!(decode(" true"), Ok(Document::Bool(true)));
    assert_eq!(decode("false"), Ok(Document::Bool(false)));
    assert_eq!(decode("42"), Ok(Document::Int(42)));
    assert_eq!(decode("-42"), Ok(Document::Int(-42)));
    assert_eq!(decode("\"a\\n\\u00e9\""), Ok(Document::Text("a\n\u{e9}".to_string())));
    assert_eq!(
        decode("[1, \"two\", [], {}]"),
        Ok(Document::Array(vec![
            Document::Int(1),
            Document::Text("two".to_string()),
            Document::Array(vec![]),
            Document::Object(vec![]),
        ]))
    );
    assert_eq!(
        decode("{\"price\": \"42\"}"),
        Ok(Document::Object(vec![member("price", Document::Text("42".to_string()))]))
    );
}

#[test]
fn decode_keeps_every_member_of_an_object() {
    let document = decode("{\"a\": 1, \"b\": {\"c\": [true]}, \"d\": null}").unwrap();
    assert_eq!(document.get(&"a".to_string()), Some(&Document::Int(1)));
    assert_eq!(document.get(&"d".to_string()), Some(&Document::Null));
    assert_eq!(document.get(&"e".to_string()), None);
    let path = vec![key("b"), key("c"), PathStep::Index(0)];
    assert_eq!(resolve_path(&document, &path), Some(&Document::Bool(true)));
    match document {
        Document::Object(members) => assert_eq!(members.len(), 3),
        other => panic!("not an object: {:?}", other),
    }
}

#[test]
fn decode_rejects_what_is_no_document() {
    for text in ["", "   ", "{", "[1,", "{\"a\" 1}", "tru", "\"open", "@", "{\"a\":}"] {
        assert_eq!(decode(text), Err(ContractError::DecodeError));
    }
    assert_eq!(decode("170141183460469231731687303715884105729"), Err(ContractError::DecodeError));
    let nested = "[".repeat(17) + &"]".repeat(17);
    assert_eq!(decode(&nested), Err(ContractError::DecodeError));
}

#[test]
fn decode_reads_the_edges_of_the_signed_range() {
    assert_eq!(decode("170141183460469231731687303715884105727"), Ok(Document::Int(i128::MAX)));
    assert_eq!(decode("-170141183460469231731687303715884105728"), Ok(Document::Int(i128::MIN)));
    assert_eq!(decode("170141183460469231731687303715884105728"), Err(ContractError::DecodeError));
    assert_eq!(
        decode("{\"n\": [1, 00170141183460469231731687303715884105728]}"),
        Err(ContractError::DecodeError)
    );
    assert_eq!(
        decode("\"170141183460469231731687303715884105728\""),
        Ok(Document::Text("170141183460469231731687303715884105728".to_string()))
    );
    assert_eq!(
        decode("{\"a\\\"\": \"170141183460469231731687303715884105728\"}"),
        Ok(Document::Object(vec![member(
            "a\"",
            Document::Text("170141183460469231731687303715884105728".to_string())
        )]))
    );
}

#[test]
fn edge_literals_are_found_outside_strings_only() {
    let edge = "170141183460469231731687303715884105728";
    assert!(has_edge_literal(edge));
    assert!(has_edge_literal(&format!("[{}]", edge)));
    assert!(has_edge_literal(&format!("[{} ]", edge)));
    assert!(has_edge_literal(&format!("000{}", edge)));
    assert!(has_edge_literal(&format!("\"a\\\\\"{}", edge)));
    assert!(!has_edge_literal(&format!("-{}", edge)));
    assert!(!has_edge_literal(&format!("\"{}\"", edge)));
    assert!(!has_edge_literal(&format!("\"a\\\"{}\"", edge)));
    assert!(!has_edge_literal(&format!("{}0", edge)));
    assert!(!has_edge_literal(&format!("1{}", edge)));
    assert!(!has_edge_literal("170141183460469231731687303715884105727"));
    assert!(!has_edge_literal("170141183460469231731687303715884105729"));
    assert!(!has_edge_literal(""));
    assert!(!has_edge_literal("99999999999999999999999999999999999999999999999999"));
}

#[test]
fn paths_walk_objects_and_arrays() {
    let document = sample();
    assert_eq!(resolve_path(&document, &vec![]), Some(&document));
    assert_eq!(
        resolve_path(&document, &vec![key("price")]),
        Some(&Document::Text("42".to_string()))
    );
    assert_eq!(resolve_path(&document, &vec![key("list"), PathStep::Index(0)]), Some(&Document::Null));
    assert_eq!(
        resolve_path(&document, &vec![key("list"), PathStep::Index(1), key("deep")]),
        Some(&Document::Text("1.5".to_string()))
    );
    assert_eq!(resolve_path(&document, &vec![key("missing")]), None);
    assert_eq!(resolve_path(&document, &vec![key("list"), PathStep::Index(2)]), None);
    assert_eq!(resolve_path(&document, &vec![key("list"), PathStep::Index(u64::MAX)]), None);
    assert_eq!(resolve_path(&document, &vec![key("ok"), key("x")]), None);
    assert_eq!(resolve_path(&document, &vec![PathStep::Index(0)]), None);
    assert_eq!(resolve_path(&document, &vec![key("missing"), key("price")]), None);
}

#[test]
fn accessors_give_only_their_own_kind() {
    assert_eq!(Document::Bool(true).bool(), Some(true));
    assert_eq!(Document::Int(1).bool(), None);
    assert_eq!(Document::Int(-1).i128(), Some(-1));
    assert_eq!(Document::Uint(1).i128(), None);
    assert_eq!(Document::Text("1".to_string()).i128(), None);
    assert_eq!(Document::Text("t".to_string()).string(), Some(&"t".to_string()));
    assert_eq!(Document::Null.string(), None);
    assert_eq!(Document::Array(vec![Document::Null]).at(0), Some(&Document::Null));
    assert_eq!(Document::Array(vec![Document::Null]).at(1), None);
    assert_eq!(Document::Null.at(0), None);
    assert_eq!(Document::Null.get(&"a".to_string()), None);
}

#[test]
fn typed_values_at_a_path() {
    let document = sample();
    assert_eq!(bool_at(&document, &vec![key("ok")]), Ok(true));
    assert_eq!(bool_at(&document, &vec![key("count")]), Err(ContractError::DecodeError));
    assert_eq!(int_at(&document, &vec![key("count")]), Ok(-3));
    assert_eq!(int_at(&document, &vec![key("price")]), Err(ContractError::DecodeError));
    assert_eq!(string_at(&document, &vec![key("price")]), Ok("42".to_string()));
    assert_eq!(string_at(&document, &vec![key("ok")]), Err(ContractError::DecodeError));
    assert_eq!(uint_at(&document, &vec![key("price")]), Ok(Uint256::from_u128(42)));
    assert_eq!(uint_at(&document, &vec![key("missing")]), Err(ContractError::DecodeError));
    assert_eq!(uint_at(&document, &vec![key("count")]), Err(ContractError::DecodeError));
    let deep = vec![key("list"), PathStep::Index(1), key("deep")];
    assert_eq!(
        decimal_at(&document, &deep).map(|d| d.atomics),
        Ok(Uint256::from_u128(1_500_000_000_000_000_000))
    );
    assert_eq!(uint_at(&document, &deep), Err(ContractError::DecodeError));
    assert_eq!(decimal_at(&document, &vec![key("ok")]), Err(ContractError::DecodeError));
}
