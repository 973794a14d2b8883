use grc20::block::BlockMetadata;
use grc20::filters;
use grc20::graph::KnowledgeGraph;
use grc20::relations::{RelationFilter, RelationNode};
use grc20::store::{StoreError, Triple, TripleFilter};
use grc20::value::Value;

fn block(n: u64) -> BlockMetadata {
    BlockMetadata::new(format!("cursor-{n}"), n, n as i64, "req".to_string())
}

#[test]
fn set_then_read_live() {
    let mut kg = KnowledgeGraph::new();
    kg.insert_triple(
        &block(1),
        "S1",
        "0",
        0,
        Triple::new("abc".into(), "name".into(), Value::text("Alice".into())),
    )
    .unwrap();
    let live = kg.find_triple("name", "abc", "S1", None).expect("live value");
    assert_eq!(live.value, "Alice");
    let at0 = kg.find_triple("name", "abc", "S1", Some("0")).expect("value at version 0");
    assert_eq!(at0.value, "Alice");
}

#[test]
fn versioned_overwrite() {
    let mut kg = KnowledgeGraph::new();
    kg.insert_triple(
        &block(1),
        "S1",
        "0",
        0,
        Triple::new("abc".into(), "name".into(), Value::text("Alice".into())),
    )
    .unwrap();
    kg.insert_triple(
        &block(1),
        "S1",
        "0",
        0,
        Triple::new("abc".into(), "bar".into(), Value::number("123".into())),
    )
    .unwrap();
    kg.insert_triple(
        &block(2),
        "S1",
        "1",
        1,
        Triple::new("abc".into(), "bar".into(), Value::number("456".into())),
    )
    .unwrap();
    assert_eq!(kg.find_triple("name", "abc", "S1", None).unwrap().value, "Alice");
    assert_eq!(kg.find_triple("bar", "abc", "S1", None).unwrap().value, "456");
    assert_eq!(kg.find_triple("bar", "abc", "S1", Some("0")).unwrap().value, "123");
    assert_eq!(kg.find_triple("name", "abc", "S1", Some("0")).unwrap().value, "Alice");
}

#[test]
fn relation_crud() {
    let mut kg = KnowledgeGraph::new();
    let rel = RelationNode::new(
        "abc".into(),
        "alice".into(),
        "bob".into(),
        "knows".into(),
        Value::text("0".into()),
    );
    kg.insert_relation(&block(1), "ROOT", "0", 0, rel).unwrap();
    let filter = RelationFilter::default()
        .from_id(filters::value("alice".to_string()))
        .relation_type(filters::value("knows".to_string()));
    let found = kg.find_relations(&filter);
    assert_eq!(found.len(), 1);
    assert_eq!(found[0].id, "abc");
    assert_eq!(found[0].from, "alice");
    assert_eq!(found[0].to, "bob");

    kg.delete_relation(&block(2), "ROOT", "1", 1, "abc").unwrap();
    let live = kg.find_relations(&filter);
    assert!(live.is_empty());
    let at0 = kg.find_relations(&filter.version(0));
    assert_eq!(at0.len(), 1);
    assert_eq!(at0[0].id, "abc");
    let single = kg.find_relation("abc", "ROOT", Some("0")).expect("relation at version 0");
    assert_eq!(single.to, "bob");
    assert!(kg.find_relation("abc", "ROOT", None).is_none());
}

#[test]
fn double_insert_keeps_one_live_edge() {
    let mut kg = KnowledgeGraph::new();
    for _ in 0..2 {
        kg.insert_triple(
            &block(1),
            "S1",
            "0",
            0,
            Triple::new("e".into(), "a".into(), Value::text("v".into())),
        )
        .unwrap();
    }
    assert_eq!(kg.triples.entries.len(), 1);
    let entry = &kg.triples.entries[0];
    assert!(entry.retired.is_empty());
    let live = entry.live.as_ref().expect("one live edge");
    assert_eq!(live.value.value, "v");
    assert_eq!(live.min_version, 0);
}

#[test]
fn delete_triple_is_idempotent() {
    let mut kg = KnowledgeGraph::new();
    kg.insert_triple(
        &block(1),
        "S1",
        "0",
        0,
        Triple::new("e".into(), "a".into(), Value::text("v".into())),
    )
    .unwrap();
    kg.delete_triple(&block(2), "S1", "1", 1, "e", "a").unwrap();
    assert!(kg.find_triple("a", "e", "S1", None).is_none());
    assert_eq!(kg.find_triple("a", "e", "S1", Some("0")).unwrap().value, "v");
    // Again: nothing left to retire, nothing changes.
    kg.delete_triple(&block(2), "S1", "1", 1, "e", "a").unwrap();
    assert!(kg.find_triple("a", "e", "S1", None).is_none());
}

#[test]
fn delete_entity_retires_all_edges_in_space() {
    let mut kg = KnowledgeGraph::new();
    kg.insert_triple(
        &block(1),
        "S1",
        "0",
        0,
        Triple::new("e".into(), "a".into(), Value::text("1".into())),
    )
    .unwrap();
    kg.insert_triple(
        &block(1),
        "S1",
        "0",
        0,
        Triple::new("e".into(), "b".into(), Value::text("2".into())),
    )
    .unwrap();
    kg.insert_triple(
        &block(1),
        "S2",
        "0",
        0,
        Triple::new("e".into(), "a".into(), Value::text("3".into())),
    )
    .unwrap();
    kg.delete_entity(&block(2), "S1", "1", 1, "e").unwrap();
    assert!(kg.find_triple("a", "e", "S1", None).is_none());
    assert!(kg.find_triple("b", "e", "S1", None).is_none());
    // No cascade across spaces.
    assert_eq!(kg.find_triple("a", "e", "S2", None).unwrap().value, "3");
    // History stays readable.
    assert_eq!(kg.find_triple("a", "e", "S1", Some("0")).unwrap().value, "1");
}

#[test]
fn stale_version_is_a_consistency_error() {
    let mut kg = KnowledgeGraph::new();
    kg.insert_triple(
        &block(1),
        "S1",
        "2",
        2,
        Triple::new("e".into(), "a".into(), Value::text("new".into())),
    )
    .unwrap();
    let r = kg.insert_triple(
        &block(2),
        "S1",
        "1",
        1,
        Triple::new("e".into(), "a".into(), Value::text("old".into())),
    );
    assert_eq!(r, Err(StoreError::Consistency));
    // The rejected write left the store unchanged.
    assert_eq!(kg.find_triple("a", "e", "S1", None).unwrap().value, "new");
}

#[test]
fn conflicting_version_ordinal_is_rejected() {
    let mut kg = KnowledgeGraph::new();
    kg.insert_triple(
        &block(1),
        "S1",
        "0",
        0,
        Triple::new("e".into(), "a".into(), Value::text("v".into())),
    )
    .unwrap();
    let r = kg.insert_triple(
        &block(2),
        "S1",
        "0",
        5,
        Triple::new("e".into(), "b".into(), Value::text("w".into())),
    );
    assert_eq!(r, Err(StoreError::Consistency));
}

#[test]
fn find_triples_filters_and_versions() {
    let mut kg = KnowledgeGraph::new();
    kg.insert_triple(
        &block(1),
        "S1",
        "0",
        0,
        Triple::new("e1".into(), "name".into(), Value::text("Alice".into())),
    )
    .unwrap();
    kg.insert_triple(
        &block(1),
        "S1",
        "0",
        0,
        Triple::new("e2".into(), "name".into(), Value::text("Bob".into())),
    )
    .unwrap();
    kg.insert_triple(
        &block(1),
        "S2",
        "0",
        0,
        Triple::new("e1".into(), "name".into(), Value::text("Elsewhere".into())),
    )
    .unwrap();
    let all_s1 = kg.find_triples(&TripleFilter::default().space(filters::value("S1".to_string())));
    assert_eq!(all_s1.len(), 2);
    let named_alice = kg.find_triples(
        &TripleFilter::default()
            .space(filters::value("S1".to_string()))
            .value(filters::value("Alice".to_string())),
    );
    assert_eq!(named_alice.len(), 1);
    assert_eq!(named_alice[0].entity, "e1");
}

#[test]
fn entity_rows_track_blocks() {
    let mut kg = KnowledgeGraph::new();
    kg.insert_triple(
        &block(7),
        "S1",
        "0",
        0,
        Triple::new("e".into(), "a".into(), Value::text("v".into())),
    )
    .unwrap();
    let row = kg.find_entity("e").expect("entity row");
    assert_eq!(row.created_at_block, 7);
    assert_eq!(row.updated_at_block, 7);
    kg.insert_triple(
        &block(9),
        "S1",
        "1",
        1,
        Triple::new("e".into(), "a".into(), Value::text("w".into())),
    )
    .unwrap();
    let row = kg.find_entity("e").expect("entity row");
    assert_eq!(row.created_at_block, 7);
    assert_eq!(row.updated_at_block, 9);
}
