use grc20::block::BlockMetadata;
use grc20::graph::KnowledgeGraph;
use grc20::indexer_ids;
use grc20::ingest::{
    BlockBundle, EditProposal, EventHandler, MembershipChange, SpaceCreated, SubspaceChange,
    VoteCastEvent,
};
use grc20::models::{Account, Space, SpaceMember};
use grc20::network_ids;
use grc20::pb;

fn block(n: u64) -> BlockMetadata {
    BlockMetadata::new(format!("cursor-{n}"), n, n as i64, "req".to_string())
}

fn set_triple_op(entity: &str, attribute: &str, value: &str) -> pb::Op {
    pb::Op {
        op_type: 1,
        triple: Some(pb::Triple {
            entity: entity.into(),
            attribute: attribute.into(),
            value: Some(pb::Value { value_type: 1, value: value.into() }),
        }),
        relation: None,
    }
}

fn delete_triple_op(entity: &str, attribute: &str) -> pb::Op {
    pb::Op {
        op_type: 2,
        triple: Some(pb::Triple { entity: entity.into(), attribute: attribute.into(), value: None }),
        relation: None,
    }
}

fn create_relation_op(id: &str, from: &str, to: &str, rel_type: &str) -> pb::Op {
    pb::Op {
        op_type: 3,
        triple: None,
        relation: Some(pb::Relation {
            id: id.into(),
            relation_type: rel_type.into(),
            from_entity: from.into(),
            to_entity: to.into(),
            index: "0".into(),
        }),
    }
}

fn delete_relation_op(id: &str) -> pb::Op {
    pb::Op {
        op_type: 4,
        triple: None,
        relation: Some(pb::Relation {
            id: id.into(),
            relation_type: String::new(),
            from_entity: String::new(),
            to_entity: String::new(),
            index: String::new(),
        }),
    }
}

#[test]
fn ops_apply_in_order() {
    let mut kg = KnowledgeGraph::new();
    let ops = vec![
        set_triple_op("e", "a", "first"),
        set_triple_op("e", "a", "second"),
        create_relation_op("r1", "e", "f", "knows"),
    ];
    kg.process_ops(&block(1), "S1", ops).unwrap();
    assert_eq!(kg.find_triple("a", "e", "S1", None).unwrap().value, "second");
    let rel = kg.find_relation("r1", "S1", None).expect("relation created");
    assert_eq!(rel.to, "f");
}

#[test]
fn unknown_op_kinds_and_payloads_are_skipped() {
    let mut kg = KnowledgeGraph::new();
    let ops = vec![
        pb::Op { op_type: 77, triple: None, relation: None },
        pb::Op { op_type: 1, triple: None, relation: None },
        set_triple_op("e", "a", "kept"),
        // A value with the UNKNOWN type tag does not decode; the
        // operation is skipped.
        pb::Op {
            op_type: 1,
            triple: Some(pb::Triple {
                entity: "e".into(),
                attribute: "broken".into(),
                value: Some(pb::Value { value_type: 0, value: "x".into() }),
            }),
            relation: None,
        },
    ];
    kg.process_ops(&block(1), "S1", ops).unwrap();
    assert_eq!(kg.find_triple("a", "e", "S1", None).unwrap().value, "kept");
    assert!(kg.find_triple("broken", "e", "S1", None).is_none());
}

#[test]
fn delete_ops_retire() {
    let mut kg = KnowledgeGraph::new();
    let ops = vec![
        set_triple_op("e", "a", "v"),
        create_relation_op("r1", "e", "f", "knows"),
        delete_triple_op("e", "a"),
        delete_relation_op("r1"),
    ];
    kg.process_ops(&block(1), "S1", ops).unwrap();
    assert!(kg.find_triple("a", "e", "S1", None).is_none());
    assert!(kg.find_relation("r1", "S1", None).is_none());
}

fn sample_bundle(n: u64) -> BlockBundle {
    BlockBundle {
        block: block(n),
        spaces_created: vec![SpaceCreated {
            dao_address: "0xDA0".into(),
            space_address: "0xPlug".into(),
        }],
        personal_plugins_created: vec![],
        governance_plugins_created: vec![],
        initial_editors_added: vec![],
        members_added: vec![MembershipChange {
            dao_address: "0xDA0".into(),
            account_address: "0xA11ce".into(),
        }],
        members_removed: vec![],
        editors_added: vec![],
        editors_removed: vec![],
        subspaces_added: vec![SubspaceChange {
            plugin_address: "0xPlug".into(),
            subspace_dao_address: "0xDA0".into(),
        }],
        subspaces_removed: vec![],
        votes_cast: vec![
            VoteCastEvent {
                plugin_address: "0xVote".into(),
                voter: "0xA11ce".into(),
                onchain_proposal_id: "prop-1".into(),
                vote_option: 2,
            },
            // Vote option 7 names no vote kind and is skipped.
            VoteCastEvent {
                plugin_address: "0xVote".into(),
                voter: "0xA11ce".into(),
                onchain_proposal_id: "prop-1".into(),
                vote_option: 7,
            },
        ],
        edits: vec![EditProposal {
            name: "first edit".into(),
            proposal_id: "edit-1".into(),
            space: "S1".into(),
            space_address: "0xPlug".into(),
            creator: "0xA11ce".into(),
            ops: vec![
                set_triple_op("doc", "name", "Doc"),
                create_relation_op("rel-1", "doc", "doc2", "links"),
            ],
        }],
    }
}

#[test]
fn bundle_creates_space_members_and_applies_edits() {
    let mut handler = EventHandler::new(KnowledgeGraph::new());
    handler.process_block(sample_bundle(3)).unwrap();
    let kg = &handler.kg;

    let space_id = Space::gen_id(network_ids::GEO, "0xDA0");
    let plugin = kg
        .find_triple(
            indexer_ids::SPACE_PLUGIN_ADDRESS,
            &space_id,
            indexer_ids::INDEXER_SPACE_ID,
            None,
        )
        .expect("space plugin address recorded");
    assert_eq!(plugin.value, "0xplug");

    let account_id = Account::gen_id("0xA11ce");
    let member_rel = SpaceMember::generate_id(&account_id, &space_id);
    assert!(kg.find_relation(&member_rel, indexer_ids::INDEXER_SPACE_ID, None).is_some());

    assert_eq!(kg.find_triple("name", "doc", "S1", None).unwrap().value, "Doc");
    assert!(kg.find_relation("rel-1", "S1", None).is_some());

    let cursor = handler.cursor();
    assert_eq!(cursor.expect("cursor advanced").value, "cursor-3");
}

#[test]
fn replaying_a_bundle_leaves_the_graph_identical() {
    let mut once = EventHandler::new(KnowledgeGraph::new());
    once.process_block(sample_bundle(3)).unwrap();

    let mut twice = EventHandler::new(KnowledgeGraph::new());
    twice.process_block(sample_bundle(3)).unwrap();
    twice.process_block(sample_bundle(3)).unwrap();

    assert_eq!(format!("{:?}", once.kg), format!("{:?}", twice.kg));
}

#[test]
fn replaying_ops_leaves_the_graph_identical() {
    let ops = || {
        vec![
            set_triple_op("e", "a", "1"),
            set_triple_op("e", "a", "2"),
            delete_triple_op("e", "b"),
            create_relation_op("r", "e", "f", "t"),
            set_triple_op("e", "b", "3"),
            delete_relation_op("gone"),
        ]
    };
    let mut once = KnowledgeGraph::new();
    once.process_ops(&block(1), "S1", ops()).unwrap();
    let mut twice = KnowledgeGraph::new();
    twice.process_ops(&block(1), "S1", ops()).unwrap();
    twice.process_ops(&block(1), "S1", ops()).unwrap();
    assert_eq!(format!("{once:?}"), format!("{twice:?}"));
}
