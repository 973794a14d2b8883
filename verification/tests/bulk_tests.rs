use grc20::attributes::{AttributeNode, Attributes};
use grc20::block::BlockMetadata;
use grc20::filters;
use grc20::graph::KnowledgeGraph;
use grc20::ingest::{plan_edit_fetch, FetchPlan};
use grc20::pb;
use grc20::relations::{RelationFilter, RelationNode};
use grc20::value::Value;

fn block() -> BlockMetadata {
    BlockMetadata::new("c".into(), 1, 1, "r".into())
}

#[test]
fn bulk_attributes_write_several_entities() {
    let mut kg = KnowledgeGraph::new();
    let batch = vec![
        (
            "alice".to_string(),
            Attributes::default()
                .attribute(AttributeNode::new("name", Value::text("Alice".into())))
                .attribute(AttributeNode::new("bar", Value::number("123".into()))),
        ),
        (
            "bob".to_string(),
            Attributes::default().attribute(AttributeNode::new("name", Value::text("Bob".into()))),
        ),
    ];
    kg.insert_attributes_bulk(&block(), "S1", batch).unwrap();
    assert_eq!(kg.find_triple("name", "alice", "S1", None).unwrap().value, "Alice");
    assert_eq!(kg.find_triple("bar", "alice", "S1", None).unwrap().value, "123");
    assert_eq!(kg.find_triple("name", "bob", "S1", None).unwrap().value, "Bob");
}

#[test]
fn attribute_bag_replaces_duplicates() {
    let bag = Attributes::default()
        .attribute(AttributeNode::new("k", Value::text("first".into())))
        .attribute(AttributeNode::new("k", Value::text("second".into())));
    assert_eq!(bag.len(), 1);
    assert_eq!(bag.get("k").unwrap().value, "second");
    assert!(bag.get("missing").is_err());
}

#[test]
fn bulk_relations_write_in_order_and_empty_is_noop() {
    let mut kg = KnowledgeGraph::new();
    kg.insert_relations_bulk(&block(), "S1", Vec::new()).unwrap();
    assert!(kg.relations.entries.is_empty());
    let batch = vec![
        RelationNode::new("r1".into(), "a".into(), "b".into(), "t".into(), Value::text("0".into())),
        RelationNode::new("r2".into(), "a".into(), "c".into(), "t".into(), Value::text("1".into())),
    ];
    kg.insert_relations_bulk(&block(), "S1", batch).unwrap();
    let found = kg.find_relations(&RelationFilter::default().from_id(filters::value("a".into())));
    assert_eq!(found.len(), 2);
}

#[test]
fn fetch_plans_follow_the_action_type() {
    let meta = |tag: i32| pb::IpfsMetadata {
        version: "1".into(),
        action_type: tag,
        id: "m".into(),
        name: "m".into(),
    };
    assert_eq!(plan_edit_fetch(&meta(1)), FetchPlan::Single);
    assert_eq!(plan_edit_fetch(&meta(4)), FetchPlan::Import);
    assert_eq!(plan_edit_fetch(&meta(0)), FetchPlan::Skip);
    assert_eq!(plan_edit_fetch(&meta(5)), FetchPlan::Skip);
    assert_eq!(plan_edit_fetch(&meta(99)), FetchPlan::Skip);
}

#[test]
fn entity_versions_report_applied_ordinals() {
    let mut kg = KnowledgeGraph::new();
    kg.insert_triple(
        &block(),
        "S1",
        "genesis",
        0,
        grc20::store::Triple::new("e".into(), "a".into(), Value::text("1".into())),
    )
    .unwrap();
    kg.insert_triple(
        &block(),
        "S1",
        "next",
        1,
        grc20::store::Triple::new("e".into(), "a".into(), Value::text("2".into())),
    )
    .unwrap();
    let versions = kg.versions("e", "S1");
    assert_eq!(versions.len(), 2);
    assert!(versions.iter().all(|v| v.entity_id == "e"));
    let ids: Vec<&str> = versions.iter().map(|v| v.id.as_str()).collect();
    assert!(ids.contains(&"genesis"));
    assert!(ids.contains(&"next"));
}

#[test]
fn relation_listing_compiles_to_a_query() {
    let filter = RelationFilter::default()
        .from_id(filters::value("alice".to_string()))
        .relation_type(filters::value("knows".to_string()))
        .space_id(filters::value("ROOT".to_string()))
        .version(2);
    let qp = filter.into_query_part().expect("derived parameters cannot collide");
    assert_eq!(qp.match_clauses.len(), 5);
    assert_eq!(qp.order_by_clause.as_deref(), Some("index.value"));
    assert!(qp.return_clause.is_some());
    assert!(qp.where_clauses.iter().any(|w| w.contains("from.`id` = $from_id_value")));
    assert!(qp.params.iter().any(|p| p.key == "r_index_version"));
}
