use grc20::block::BlockMetadata;
use grc20::graph::KnowledgeGraph;
use grc20::hierarchy::{find_triple_plural, ParentSpacesQuery, SubspacesQuery};
use grc20::indexer_ids;
use grc20::models::ParentSpace;
use grc20::relations::RelationNode;
use grc20::store::Triple;
use grc20::value::Value;

fn block() -> BlockMetadata {
    BlockMetadata::new("c".into(), 1, 1, "r".into())
}

fn link(kg: &mut KnowledgeGraph, child: &str, parent: &str) {
    let rel = ParentSpace::new(child, parent);
    kg.insert_relation(
        &block(),
        indexer_ids::INDEXER_SPACE_ID,
        "0",
        0,
        RelationNode::new(
            rel.attributes.id,
            rel.from,
            rel.to,
            rel.relation_type,
            Value::text("0".into()),
        ),
    )
    .unwrap();
}

#[test]
fn subspaces_bfs_visits_each_space_once_and_skips_origin() {
    let mut kg = KnowledgeGraph::new();
    // The subspace graph A -> B, A -> C, B -> D, C -> D, D -> A, as
    // child-to-parent links.
    link(&mut kg, "B", "A");
    link(&mut kg, "C", "A");
    link(&mut kg, "D", "B");
    link(&mut kg, "D", "C");
    link(&mut kg, "A", "D");
    let result = SubspacesQuery::new("A".into()).max_depth(None).send(&kg);
    assert_eq!(result, vec!["B".to_string(), "C".to_string(), "D".to_string()]);
}

#[test]
fn subspaces_default_depth_is_immediate() {
    let mut kg = KnowledgeGraph::new();
    link(&mut kg, "B", "A");
    link(&mut kg, "D", "B");
    let result = SubspacesQuery::new("A".into()).send(&kg);
    assert_eq!(result, vec!["B".to_string()]);
}

#[test]
fn skip_and_limit_apply_after_traversal() {
    let mut kg = KnowledgeGraph::new();
    link(&mut kg, "B", "A");
    link(&mut kg, "C", "A");
    link(&mut kg, "D", "A");
    let result = SubspacesQuery::new("A".into()).skip(1).limit(1).send(&kg);
    assert_eq!(result, vec!["C".to_string()]);
}

#[test]
fn parents_climb_the_hierarchy() {
    let mut kg = KnowledgeGraph::new();
    link(&mut kg, "Child", "Parent");
    link(&mut kg, "Parent", "Grandparent");
    let one = ParentSpacesQuery::new("Child".into()).send(&kg);
    assert_eq!(one, vec!["Parent".to_string()]);
    let all = ParentSpacesQuery::new("Child".into()).max_depth(None).send(&kg);
    assert_eq!(all, vec!["Parent".to_string(), "Grandparent".to_string()]);
}

#[test]
fn pluralism_fallback_consults_ancestors() {
    let mut kg = KnowledgeGraph::new();
    link(&mut kg, "Child", "Parent");
    kg.insert_triple(
        &block(),
        "Parent",
        "0",
        0,
        Triple::new("x".into(), "name".into(), Value::text("X".into())),
    )
    .unwrap();
    let fallback = find_triple_plural(&kg, "name", "x", "Child", false);
    assert_eq!(fallback.expect("fallback hits the parent").value, "X");
    let strict = find_triple_plural(&kg, "name", "x", "Child", true);
    assert!(strict.is_none());
}

#[test]
fn pluralism_prefers_the_own_space() {
    let mut kg = KnowledgeGraph::new();
    link(&mut kg, "Child", "Parent");
    kg.insert_triple(
        &block(),
        "Parent",
        "0",
        0,
        Triple::new("x".into(), "name".into(), Value::text("ParentName".into())),
    )
    .unwrap();
    kg.insert_triple(
        &block(),
        "Child",
        "0",
        0,
        Triple::new("x".into(), "name".into(), Value::text("ChildName".into())),
    )
    .unwrap();
    let own = find_triple_plural(&kg, "name", "x", "Child", false);
    assert_eq!(own.expect("own space wins").value, "ChildName");
}
