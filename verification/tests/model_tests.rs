use grc20::attributes::{Attributes, FromAttributes, IntoAttributes};
use grc20::block::BlockMetadata;
use grc20::filters;
use grc20::graph::KnowledgeGraph;
use grc20::indexer_ids;
use grc20::models::{Space, SpaceGovernanceType, VoteType};
use grc20::relations::{RelationFilter, RelationNode};
use grc20::store::Triple;
use grc20::value::Value;

fn space() -> Space {
    Space {
        network: "GEO".into(),
        governance_type: SpaceGovernanceType::Personal,
        dao_contract_address: "0xdao".into(),
        space_plugin_address: Some("0xplug".into()),
        voting_plugin_address: None,
        member_access_plugin: Some("0xmember".into()),
        personal_space_admin_plugin: None,
    }
}

#[test]
fn space_round_trips_through_attributes() {
    let original = space();
    let bag = original.into_attributes().expect("encoding succeeds");
    let back = Space::from_attributes(bag).expect("decoding succeeds");
    assert_eq!(back.network, "GEO");
    assert_eq!(back.governance_type, SpaceGovernanceType::Personal);
    assert_eq!(back.dao_contract_address, "0xdao");
    assert_eq!(back.space_plugin_address.as_deref(), Some("0xplug"));
    assert_eq!(back.voting_plugin_address, None);
    assert_eq!(back.member_access_plugin.as_deref(), Some("0xmember"));
    assert_eq!(back.personal_space_admin_plugin, None);
}

#[test]
fn missing_required_attribute_is_rejected() {
    let bag = Attributes::default();
    assert!(Space::from_attributes(bag).is_err());
}

#[test]
fn unknown_governance_string_is_rejected() {
    let v = Value::text("Neither".into());
    assert!(SpaceGovernanceType::from_value(&v).is_err());
    assert_eq!(
        SpaceGovernanceType::from_value(&Value::text("Public".into())).unwrap(),
        SpaceGovernanceType::Public,
    );
}

#[test]
fn space_builder_normalizes_addresses() {
    let entity = Space::builder("id-1", "0xDAO").voting_plugin_address("0xVote").build();
    assert_eq!(entity.attributes.dao_contract_address, "0xdao");
    assert_eq!(entity.attributes.voting_plugin_address.as_deref(), Some("0xvote"));
    assert_eq!(entity.types, vec!["SPACE".to_string()]);
}

#[test]
fn vote_types_follow_the_onchain_enumeration() {
    assert_eq!(VoteType::try_from_u64(2), Some(VoteType::Accept));
    assert_eq!(VoteType::try_from_u64(3), Some(VoteType::Reject));
    assert_eq!(VoteType::try_from_u64(0), None);
    assert_eq!(VoteType::try_from_u64(4), None);
}

#[test]
fn space_lookup_by_plugin_address() {
    let mut kg = KnowledgeGraph::new();
    let block = BlockMetadata::new("c".into(), 1, 1, "r".into());
    kg.insert_triple(
        &block,
        indexer_ids::INDEXER_SPACE_ID,
        "0",
        0,
        Triple::new(
            "space-1".into(),
            indexer_ids::SPACE_PLUGIN_ADDRESS.into(),
            Value::text("0xplug".into()),
        ),
    )
    .unwrap();
    assert_eq!(
        Space::find_by_space_plugin_address(&kg, "0xPlug").as_deref(),
        Some("space-1"),
    );
    assert!(Space::find_by_space_plugin_address(&kg, "0xother").is_none());
}

#[test]
fn relations_list_in_index_order() {
    let mut kg = KnowledgeGraph::new();
    let block = BlockMetadata::new("c".into(), 1, 1, "r".into());
    for (id, index) in [("r-c", "2"), ("r-a", "1"), ("r-b", "1")] {
        kg.insert_relation(
            &block,
            "S1",
            "0",
            0,
            RelationNode::new(
                id.into(),
                "from".into(),
                "to".into(),
                "t".into(),
                Value::text(index.into()),
            ),
        )
        .unwrap();
    }
    let found = kg.find_relations(
        &RelationFilter::default().from_id(filters::value("from".to_string())),
    );
    let ids: Vec<&str> = found.iter().map(|r| r.id.as_str()).collect();
    // Ascending by index value, ties broken by relation identifier.
    assert_eq!(ids, vec!["r-a", "r-b", "r-c"]);
}

#[test]
fn space_facade_round_trips_through_the_store() {
    let mut kg = KnowledgeGraph::new();
    let block = BlockMetadata::new("c".into(), 1, 1, "r".into());
    let entity = Space::builder("space-1", "0xDAO")
        .space_plugin_address("0xPlug")
        .governance_type(SpaceGovernanceType::Personal)
        .build();
    let bag = entity.attributes.into_attributes().unwrap();
    kg.insert_entity(
        &block,
        indexer_ids::INDEXER_SPACE_ID,
        "space-1",
        bag,
        entity.types,
    )
    .unwrap();
    let read = Space::find_one(&kg, "space-1").expect("space reads back");
    assert_eq!(read.dao_contract_address, "0xdao");
    assert_eq!(read.governance_type, SpaceGovernanceType::Personal);
    assert_eq!(read.space_plugin_address.as_deref(), Some("0xplug"));
    // The TYPES relation of the facade write is queryable.
    let types = kg.find_relations(
        &RelationFilter::default()
            .from_id(filters::value("space-1".to_string()))
            .relation_type(filters::value(grc20::system_ids::TYPES_ATTRIBUTE.to_string())),
    );
    assert_eq!(types.len(), 1);
    assert_eq!(types[0].to, grc20::system_ids::SPACE_TYPE);
}
