//! Event-sourced ingestion.
//!
//! A block bundle carries the decoded on-chain events of one block.
//! Bundles apply in block order; within a bundle the event categories
//! apply in a fixed sequence, so later categories observe earlier
//! effects; operations within an edit apply in list order. Every
//! mutation runs at the constant ingestion version, so replaying a
//! bundle after a crash repeats only no-ops.
//!
//! An event naming a space that is not known is skipped; a mutation
//! that would break the version invariants aborts the bundle and the
//! cursor is not advanced.

use vstd::prelude::*;

use crate::attributes::AttributeNodeView;
use crate::block::BlockMetadata;
use crate::graph::{
    spec_register_version,
    spec_touch_entity,
    version_ok,
    wf_graph,
    KnowledgeGraph,
    KnowledgeGraphView,
};
use crate::history::HistOp;
use crate::models::{Account, ParentSpace, Space, SpaceEditor, SpaceMember, VoteCast, VoteType};
use crate::pb;
use crate::relations::{rel_op_ok, spec_rel_op, RelationNode, RelKey, RelPayloadView};
use crate::store::{spec_triple_op, triple_op_ok, StoreError, Triple, TripleKey};
use crate::value::{plain_value, Value, ValueType, ValueView};

verus! {

/// The version string every ingestion mutation is issued at.
pub const INGESTION_VERSION: &'static str = "0";

/// The ordinal of the ingestion version.
pub const INGESTION_VERSION_INDEX: u64 = 0;

/// An edit fetched from the content-addressed store and resolved to
/// its target space: a named, authored batch of operations.
#[derive(Debug)]
pub struct EditProposal {
    pub name: String,
    pub proposal_id: String,
    pub space: String,
    pub space_address: String,
    pub creator: String,
    pub ops: Vec<pb::Op>,
}

/// Inserting a triple at the ingestion version: rejected where the
/// version pair conflicts with the registry or the key's frontier.
pub open spec fn spec_ingest_triple(
    g: KnowledgeGraphView,
    space: Seq<char>,
    entity: Seq<char>,
    attribute: Seq<char>,
    value: ValueView,
    block: crate::block::BlockMetadataView,
) -> Option<KnowledgeGraphView> {
    let k = TripleKey { entity: entity, attribute: attribute, space: space };
    if version_ok(g.versions, INGESTION_VERSION@, INGESTION_VERSION_INDEX) && triple_op_ok(
        g.triples,
        k,
        INGESTION_VERSION_INDEX,
    ) {
        Some(
            KnowledgeGraphView {
                triples: spec_triple_op(
                    g.triples,
                    k,
                    HistOp::Write(value),
                    INGESTION_VERSION_INDEX,
                ),
                entities: spec_touch_entity(g.entities, entity, block),
                versions: spec_register_version(
                    g.versions,
                    INGESTION_VERSION@,
                    INGESTION_VERSION_INDEX,
                ),
                ..g
            },
        )
    } else {
        None
    }
}

/// Retiring a triple at the ingestion version.
pub open spec fn spec_ingest_delete_triple(
    g: KnowledgeGraphView,
    space: Seq<char>,
    entity: Seq<char>,
    attribute: Seq<char>,
    block: crate::block::BlockMetadataView,
) -> Option<KnowledgeGraphView> {
    let k = TripleKey { entity: entity, attribute: attribute, space: space };
    if version_ok(g.versions, INGESTION_VERSION@, INGESTION_VERSION_INDEX) && triple_op_ok(
        g.triples,
        k,
        INGESTION_VERSION_INDEX,
    ) {
        Some(
            KnowledgeGraphView {
                triples: spec_triple_op(g.triples, k, HistOp::Delete, INGESTION_VERSION_INDEX),
                entities: spec_touch_entity(g.entities, entity, block),
                versions: spec_register_version(
                    g.versions,
                    INGESTION_VERSION@,
                    INGESTION_VERSION_INDEX,
                ),
                ..g
            },
        )
    } else {
        None
    }
}

/// Installing a relation's four edges at the ingestion version.
pub open spec fn spec_ingest_relation(
    g: KnowledgeGraphView,
    space: Seq<char>,
    id: Seq<char>,
    payload: RelPayloadView,
    block: crate::block::BlockMetadataView,
) -> Option<KnowledgeGraphView> {
    let k = RelKey { id: id, space: space };
    if version_ok(g.versions, INGESTION_VERSION@, INGESTION_VERSION_INDEX) && rel_op_ok(
        g.relations,
        k,
        INGESTION_VERSION_INDEX,
    ) {
        Some(
            KnowledgeGraphView {
                relations: spec_rel_op(
                    g.relations,
                    k,
                    HistOp::Write(payload),
                    INGESTION_VERSION_INDEX,
                ),
                entities: spec_touch_entity(g.entities, id, block),
                versions: spec_register_version(
                    g.versions,
                    INGESTION_VERSION@,
                    INGESTION_VERSION_INDEX,
                ),
                ..g
            },
        )
    } else {
        None
    }
}

/// Retiring a relation's four edges at the ingestion version.
pub open spec fn spec_ingest_delete_relation(
    g: KnowledgeGraphView,
    space: Seq<char>,
    id: Seq<char>,
    block: crate::block::BlockMetadataView,
) -> Option<KnowledgeGraphView> {
    let k = RelKey { id: id, space: space };
    if version_ok(g.versions, INGESTION_VERSION@, INGESTION_VERSION_INDEX) && rel_op_ok(
        g.relations,
        k,
        INGESTION_VERSION_INDEX,
    ) {
        Some(
            KnowledgeGraphView {
                relations: spec_rel_op(g.relations, k, HistOp::Delete, INGESTION_VERSION_INDEX),
                entities: spec_touch_entity(g.entities, id, block),
                versions: spec_register_version(
                    g.versions,
                    INGESTION_VERSION@,
                    INGESTION_VERSION_INDEX,
                ),
                ..g
            },
        )
    } else {
        None
    }
}

/// The raw-string value of a wire value, typed by its tag.
pub open spec fn wire_value_view(w: pb::Value) -> Option<ValueView> {
    match pb::value_type_of_tag(w.value_type) {
        Some(t) => Some(plain_value(w.value@, t)),
        None => None,
    }
}

/// One operation applied to the graph. An operation whose kind is
/// unknown, whose payload is missing or whose value does not decode is
/// skipped; a rejected mutation aborts.
pub open spec fn spec_process_op(
    g: KnowledgeGraphView,
    space: Seq<char>,
    op: pb::Op,
    block: crate::block::BlockMetadataView,
) -> Option<KnowledgeGraphView> {
    match pb::op_type_of_tag(op.op_type) {
        Some(pb::OpType::SetTriple) => match op.triple {
            Some(t) => match t.value {
                Some(w) => match wire_value_view(w) {
                    Some(v) => spec_ingest_triple(g, space, t.entity@, t.attribute@, v, block),
                    None => Some(g),
                },
                None => Some(g),
            },
            None => Some(g),
        },
        Some(pb::OpType::DeleteTriple) => match op.triple {
            Some(t) => spec_ingest_delete_triple(g, space, t.entity@, t.attribute@, block),
            None => Some(g),
        },
        Some(pb::OpType::CreateRelation) => match op.relation {
            Some(rel) => spec_ingest_relation(
                g,
                space,
                rel.id@,
                RelPayloadView {
                    from: rel.from_entity@,
                    to: rel.to_entity@,
                    relation_type: rel.relation_type@,
                    index: plain_value(rel.index@, ValueType::Text),
                },
                block,
            ),
            None => Some(g),
        },
        Some(pb::OpType::DeleteRelation) => match op.relation {
            Some(rel) => spec_ingest_delete_relation(g, space, rel.id@, block),
            None => Some(g),
        },
        _ => Some(g),
    }
}

/// A list of operations applied in order; a rejected mutation aborts
/// the rest.
pub open spec fn spec_process_ops(
    g: KnowledgeGraphView,
    space: Seq<char>,
    ops: Seq<pb::Op>,
    block: crate::block::BlockMetadataView,
) -> Option<KnowledgeGraphView>
    decreases ops.len(),
{
    if ops.len() == 0 {
        Some(g)
    } else {
        match spec_process_op(g, space, ops[0], block) {
            Some(g1) => spec_process_ops(g1, space, ops.drop_first(), block),
            None => None,
        }
    }
}

impl KnowledgeGraph {
    /// Apply one operation at the ingestion version.
    fn process_op(&mut self, block: &BlockMetadata, space: &str, op: pb::Op) -> (r: Result<
        (),
        StoreError,
    >)
        requires
            wf_graph(old(self)@),
        ensures
            wf_graph(final (self)@),
            match r {
                Ok(()) => Some(final (self)@) == spec_process_op(old(self)@, space@, op, block@),
                Err(e) => spec_process_op(old(self)@, space@, op, block@) is None && final (self)@
                    == old(self)@ && e == StoreError::Consistency,
            },
    {
        let ghost op0 = op;
        let pb::Op { op_type, triple, relation } = op;
        match pb::OpType::of_tag(op_type) {
            Some(pb::OpType::SetTriple) => match triple {
                Some(t) => {
                    let pb::Triple { entity, attribute, value } = t;
                    match value {
                        Some(w) => {
                            match Value::from_wire(&w) {
                                Ok(v) => self.insert_triple(
                                    block,
                                    space,
                                    INGESTION_VERSION,
                                    INGESTION_VERSION_INDEX,
                                    Triple::new(entity, attribute, v),
                                ),
                                Err(_) => Ok(()),
                            }
                        },
                        None => Ok(()),
                    }
                },
                None => Ok(()),
            },
            Some(pb::OpType::DeleteTriple) => match triple {
                Some(t) => self.delete_triple(
                    block,
                    space,
                    INGESTION_VERSION,
                    INGESTION_VERSION_INDEX,
                    t.entity.as_str(),
                    t.attribute.as_str(),
                ),
                None => Ok(()),
            },
            Some(pb::OpType::CreateRelation) => match relation {
                Some(rel) => {
                    let pb::Relation { id, relation_type, from_entity, to_entity, index } = rel;
                    self.insert_relation(
                        block,
                        space,
                        INGESTION_VERSION,
                        INGESTION_VERSION_INDEX,
                        RelationNode::new(
                            id,
                            from_entity,
                            to_entity,
                            relation_type,
                            Value::text(index),
                        ),
                    )
                },
                None => Ok(()),
            },
            Some(pb::OpType::DeleteRelation) => match relation {
                Some(rel) => self.delete_relation(
                    block,
                    space,
                    INGESTION_VERSION,
                    INGESTION_VERSION_INDEX,
                    rel.id.as_str(),
                ),
                None => Ok(()),
            },
            _ => Ok(()),
        }
    }

    /// Apply an edit's operations in list order at the ingestion
    /// version. A rejected mutation aborts the rest and surfaces a
    /// consistency error; the operations already applied stand, and
    /// replaying them is harmless.
    #[verifier::loop_isolation(false)]
    pub fn process_ops(&mut self, block: &BlockMetadata, space: &str, ops: Vec<pb::Op>) -> (r:
        Result<(), StoreError>)
        requires
            wf_graph(old(self)@),
        ensures
            wf_graph(final (self)@),
            match r {
                Ok(()) => Some(final (self)@) == spec_process_ops(old(self)@, space@, ops@, block@),
                Err(e) => spec_process_ops(old(self)@, space@, ops@, block@) is None && e
                    == StoreError::Consistency && exists|p: int|
                    0 <= p <= ops@.len() && Some(final (self)@) == spec_process_ops(
                        old(self)@,
                        space@,
                        #[trigger] ops@.take(p),
                        block@,
                    ),
            },
    {
        let ghost ops0 = ops@;
        let ghost ops1 = ops@;
        let ghost g0 = self@;
        let mut ops = ops;
        let total = ops.len();
        let mut i: usize = 0;
        proof {
            assert(ops0.take(0) =~= Seq::<pb::Op>::empty());
            assert(ops0.skip(0) =~= ops0);
            assert(ops0.len() == total);
        }
        while ops.len() > 0
            invariant
                wf_graph(self@),
                g0 == old(self)@,
                ops0 == ops1,
                ops0.len() <= usize::MAX,
                i + ops@.len() == ops0.len(),
                ops@ == ops0.skip(i as int),
                0 <= i <= ops0.len(),
                Some(self@) == spec_process_ops(g0, space@, ops0.take(i as int), block@),
                spec_process_ops(g0, space@, ops0, block@) == spec_process_ops(
                    self@,
                    space@,
                    ops0.skip(i as int),
                    block@,
                ),
            decreases ops@.len(),
        {
            let op = ops.remove(0);
            proof {
                assert(op == ops0[i as int]);
                assert(ops@ =~= ops0.skip(i + 1));
            }
            let ghost pre = self@;
            match self.process_op(block, space, op) {
                Ok(()) => {
                    proof {
                        assert(ops0.take(i + 1).drop_last() =~= ops0.take(i as int));
                        assert(ops0.take(i + 1).last() == ops0[i as int]);
                        lemma_process_ops_snoc(g0, space@, ops0.take(i + 1), block@);
                        assert(ops0.skip(i as int).drop_first() =~= ops0.skip(i + 1));
                        assert(ops0.skip(i as int)[0] == ops0[i as int]);
                        assert(spec_process_ops(pre, space@, ops0.skip(i as int), block@)
                            == spec_process_ops(self@, space@, ops0.skip(i + 1), block@));
                    }
                    i = i + 1;
                },
                Err(e) => {
                    proof {
                        assert(ops0.skip(i as int)[0] == ops0[i as int]);
                        assert(spec_process_ops(pre, space@, ops0.skip(i as int), block@) is None);
                        assert(spec_process_ops(g0, space@, ops0, block@) is None);
                        assert(Some(self@) == spec_process_ops(
                            g0,
                            space@,
                            ops0.take(i as int),
                            block@,
                        ));
                        assert(exists|p: int|
                            0 <= p <= ops0.len() && Some(self@) == spec_process_ops(
                                g0,
                                space@,
                                #[trigger] ops0.take(p),
                                block@,
                            )) by {
                            assert(Some(self@) == spec_process_ops(
                                g0,
                                space@,
                                ops0.take(i as int),
                                block@,
                            ));
                        }
                    }
                    return Err(StoreError::Consistency);
                },
            }
        }
        proof {
            assert(ops0.take(ops0.len() as int) =~= ops0);
        }
        Ok(())
    }
}

/// Processing one more operation folds onto the prefix.
proof fn lemma_process_ops_snoc(
    g: KnowledgeGraphView,
    space: Seq<char>,
    ops: Seq<pb::Op>,
    block: crate::block::BlockMetadataView,
)
    requires
        ops.len() > 0,
    ensures
        spec_process_ops(g, space, ops, block) == match spec_process_ops(
            g,
            space,
            ops.drop_last(),
            block,
        ) {
            Some(g1) => spec_process_op(g1, space, ops.last(), block),
            None => None,
        },
    decreases ops.len(),
{
    if ops.len() == 1 {
        assert(ops.drop_last() =~= Seq::<pb::Op>::empty());
        assert(ops.drop_first() =~= Seq::<pb::Op>::empty());
        assert(ops.last() == ops[0]);
        assert(spec_process_ops(g, space, ops.drop_last(), block) == Some(g));
        match spec_process_op(g, space, ops[0], block) {
            Some(g1) => {
                assert(spec_process_ops(g, space, ops, block) == spec_process_ops(
                    g1,
                    space,
                    ops.drop_first(),
                    block,
                ));
                assert(spec_process_ops(g1, space, ops.drop_first(), block) == Some(g1));
            },
            None => {
                assert(spec_process_ops(g, space, ops, block) is None);
            },
        }
    } else {
        assert(ops.drop_last().len() > 0);
        assert(ops.drop_last()[0] == ops[0]);
        match spec_process_op(g, space, ops[0], block) {
            Some(g1) => {
                lemma_process_ops_snoc(g1, space, ops.drop_first(), block);
                assert(ops.drop_first().drop_last() =~= ops.drop_last().drop_first());
                assert(ops.drop_first().last() == ops.last());
                assert(spec_process_ops(g, space, ops, block) == spec_process_ops(
                    g1,
                    space,
                    ops.drop_first(),
                    block,
                ));
                assert(spec_process_ops(g, space, ops.drop_last(), block) == spec_process_ops(
                    g1,
                    space,
                    ops.drop_last().drop_first(),
                    block,
                ));
                let x = spec_process_ops(g1, space, ops.drop_first().drop_last(), block);
                assert(spec_process_ops(g, space, ops.drop_last(), block) == x);
                match x {
                    Some(g2) => {
                        assert(spec_process_ops(g, space, ops, block) == spec_process_op(
                            g2,
                            space,
                            ops.last(),
                            block,
                        ));
                    },
                    None => {
                        assert(spec_process_ops(g, space, ops, block) is None);
                    },
                }
            },
            None => {
                assert(spec_process_ops(g, space, ops, block) is None);
                assert(spec_process_ops(g, space, ops.drop_last(), block) is None);
            },
        }
    }
}

/// A rejected prefix rejects the whole bag.
proof fn lemma_ingest_attrs_none_extends(
    g: KnowledgeGraphView,
    space: Seq<char>,
    entity: Seq<char>,
    attrs: Seq<AttributeNodeView>,
    p: int,
    block: crate::block::BlockMetadataView,
)
    requires
        0 <= p <= attrs.len(),
        spec_ingest_attrs(g, space, entity, attrs.take(p), block) is None,
    ensures
        spec_ingest_attrs(g, space, entity, attrs, block) is None,
    decreases attrs.len(),
{
    if p == attrs.len() {
        assert(attrs.take(p) =~= attrs);
    } else {
        assert(attrs.drop_last().take(p) =~= attrs.take(p));
        lemma_ingest_attrs_none_extends(g, space, entity, attrs.drop_last(), p, block);
    }
}

/// A rejected prefix rejects the whole type list.
proof fn lemma_ingest_types_none_extends(
    g: KnowledgeGraphView,
    space: Seq<char>,
    entity: Seq<char>,
    types: Seq<Seq<char>>,
    p: int,
    block: crate::block::BlockMetadataView,
)
    requires
        0 <= p <= types.len(),
        spec_ingest_types(g, space, entity, types.take(p), block) is None,
    ensures
        spec_ingest_types(g, space, entity, types, block) is None,
    decreases types.len(),
{
    if p == types.len() {
        assert(types.take(p) =~= types);
    } else {
        assert(types.drop_last().take(p) =~= types.take(p));
        lemma_ingest_types_none_extends(g, space, entity, types.drop_last(), p, block);
    }
}

/// A rejected prefix rejects the whole attribute batch.
proof fn lemma_ingest_attrs_bulk_none_extends(
    g: KnowledgeGraphView,
    space: Seq<char>,
    batch: Seq<(Seq<char>, Seq<AttributeNodeView>)>,
    p: int,
    block: crate::block::BlockMetadataView,
)
    requires
        0 <= p <= batch.len(),
        spec_ingest_attrs_bulk(g, space, batch.take(p), block) is None,
    ensures
        spec_ingest_attrs_bulk(g, space, batch, block) is None,
    decreases batch.len(),
{
    if p == batch.len() {
        assert(batch.take(p) =~= batch);
    } else {
        assert(batch.drop_last().take(p) =~= batch.take(p));
        lemma_ingest_attrs_bulk_none_extends(g, space, batch.drop_last(), p, block);
    }
}

/// A rejected prefix rejects the whole relation batch.
proof fn lemma_ingest_relations_bulk_none_extends(
    g: KnowledgeGraphView,
    space: Seq<char>,
    batch: Seq<(Seq<char>, RelPayloadView)>,
    p: int,
    block: crate::block::BlockMetadataView,
)
    requires
        0 <= p <= batch.len(),
        spec_ingest_relations_bulk(g, space, batch.take(p), block) is None,
    ensures
        spec_ingest_relations_bulk(g, space, batch, block) is None,
    decreases batch.len(),
{
    if p == batch.len() {
        assert(batch.take(p) =~= batch);
    } else {
        assert(batch.drop_last().take(p) =~= batch.take(p));
        lemma_ingest_relations_bulk_none_extends(g, space, batch.drop_last(), p, block);
    }
}

/// A rejected prefix rejects the whole editor list.
proof fn lemma_add_editors_none_extends(
    g: KnowledgeGraphView,
    addresses: Seq<Seq<char>>,
    space_id: Seq<char>,
    p: int,
    block: crate::block::BlockMetadataView,
)
    requires
        0 <= p <= addresses.len(),
        spec_add_editors(g, addresses.take(p), space_id, block) is None,
    ensures
        spec_add_editors(g, addresses, space_id, block) is None,
    decreases addresses.len(),
{
    if p == addresses.len() {
        assert(addresses.take(p) =~= addresses);
    } else {
        assert(addresses.drop_last().take(p) =~= addresses.take(p));
        lemma_add_editors_none_extends(g, addresses.drop_last(), space_id, p, block);
    }
}

/// A rejected prefix rejects the whole edit list.
proof fn lemma_apply_edits_none_extends(
    g: KnowledgeGraphView,
    edits: Seq<EditProposal>,
    p: int,
    block: crate::block::BlockMetadataView,
)
    requires
        0 <= p <= edits.len(),
        spec_apply_edits(g, edits.take(p), block) is None,
    ensures
        spec_apply_edits(g, edits, block) is None,
    decreases edits.len(),
{
    if p == edits.len() {
        assert(edits.take(p) =~= edits);
    } else {
        assert(edits.drop_last().take(p) =~= edits.take(p));
        lemma_apply_edits_none_extends(g, edits.drop_last(), p, block);
    }
}



/// The TYPES relations of an entity applied in order at the
/// ingestion version: one per added type, each under its derived
/// identifier.
pub open spec fn spec_ingest_types(
    g: KnowledgeGraphView,
    space: Seq<char>,
    entity: Seq<char>,
    types: Seq<Seq<char>>,
    block: crate::block::BlockMetadataView,
) -> Option<KnowledgeGraphView>
    decreases types.len(),
{
    if types.len() == 0 {
        Some(g)
    } else {
        match spec_ingest_types(g, space, entity, types.drop_last(), block) {
            Some(g1) => spec_ingest_relation(
                g1,
                space,
                crate::entity::types_relation_id(space, entity, types.last()),
                RelPayloadView {
                    from: entity,
                    to: types.last(),
                    relation_type: crate::system_ids::TYPES_ATTRIBUTE@,
                    index: crate::value::plain_value("0"@, crate::value::ValueType::Text),
                },
                block,
            ),
            None => None,
        }
    }
}

impl KnowledgeGraph {
    /// The write of the typed entity facade: one attribute bulk-write
    /// plus one TYPES relation per added type, all at the ingestion
    /// version.
    #[verifier::loop_isolation(false)]
    pub fn insert_entity(
        &mut self,
        block: &BlockMetadata,
        space: &str,
        entity_id: &str,
        attributes: crate::attributes::Attributes,
        types: Vec<String>,
    ) -> (r: Result<(), StoreError>)
        requires
            wf_graph(old(self)@),
        ensures
            wf_graph(final (self)@),
            r is Ok ==> Some(final (self)@) == match spec_ingest_attrs(
                old(self)@,
                space@,
                entity_id@,
                attributes@,
                block@,
            ) {
                Some(g1) => spec_ingest_types(
                    g1,
                    space@,
                    entity_id@,
                    types@.map_values(|t: String| t@),
                    block@,
                ),
                None => None,
            },
            r is Err ==> r == Err::<(), StoreError>(StoreError::Consistency) && (match
                spec_ingest_attrs(old(self)@, space@, entity_id@, attributes@, block@) {
                Some(g1) => spec_ingest_types(
                    g1,
                    space@,
                    entity_id@,
                    types@.map_values(|t: String| t@),
                    block@,
                ),
                None => None,
            }) is None,
            r is Err ==> (exists|p: int|
                0 <= p <= attributes@.len() && Some(final (self)@) == spec_ingest_attrs(
                    old(self)@,
                    space@,
                    entity_id@,
                    #[trigger] attributes@.take(p),
                    block@,
                )) || (spec_ingest_attrs(old(self)@, space@, entity_id@, attributes@, block@)
                matches Some(g1) && exists|p: int|
                0 <= p <= types@.len() && Some(final (self)@) == spec_ingest_types(
                    g1,
                    space@,
                    entity_id@,
                    (#[trigger] types@.take(p)).map_values(|t: String| t@),
                    block@,
                )),
    {
        let ghost attrs_v = attributes@;
        let ghost types_param = types@;
        match self.insert_attributes(block, space, entity_id, attributes) {
            Ok(()) => {},
            Err(e) => {
                return Err(e);
            },
        }
        let ghost g1 = self@;
        let ghost types0 = types@.map_values(|t: String| t@);
        let mut types = types;
        let total = types.len();
        let mut i: usize = 0;
        proof {
            assert(types0.take(0) =~= Seq::<Seq<char>>::empty());
            assert(types0.len() == total);
        }
        while types.len() > 0
            invariant
                wf_graph(self@),
                i + types@.len() == types0.len(),
                types@.map_values(|t: String| t@) == types0.skip(i as int),
                0 <= i <= types0.len(),
                Some(self@) == spec_ingest_types(g1, space@, entity_id@, types0.take(i as int), block@),
            decreases types@.len(),
        {
            let ghost pre_types = types@;
            let type_id = types.remove(0);
            proof {
                let f = |t: String| t@;
                assert(pre_types.map_values(f)[0] == type_id@);
                assert(types0.skip(i as int)[0] == types0[i as int]);
                assert(types@ =~= pre_types.drop_first());
                assert(types@.map_values(f) =~= pre_types.map_values(f).drop_first());
                assert(types0.skip(i as int).drop_first() =~= types0.skip(i + 1));
            }
            let rel_id = crate::entity::make_types_relation_id(
                space,
                entity_id,
                type_id.as_str(),
            );
            match self.ingest_relation(
                block,
                space,
                RelationNode::new(
                    rel_id,
                    entity_id.to_owned(),
                    type_id,
                    crate::system_ids::TYPES_ATTRIBUTE.to_owned(),
                    Value::text("0".to_owned()),
                ),
            ) {
                Ok(()) => {
                    proof {
                        assert(types0.take(i + 1).drop_last() =~= types0.take(i as int));
                        assert(types0.take(i + 1).last() == types0[i as int]);
                    }
                    i = i + 1;
                },
                Err(e) => {
                    proof {
                        assert(types0.take(i + 1).drop_last() =~= types0.take(i as int));
                        assert(types0.take(i + 1).last() == types0[i as int]);
                        assert(spec_ingest_types(
                            g1,
                            space@,
                            entity_id@,
                            types0.take(i + 1),
                            block@,
                        ) is None);
                        lemma_ingest_types_none_extends(
                            g1,
                            space@,
                            entity_id@,
                            types0,
                            i + 1,
                            block@,
                        );
                        assert(Some(self@) == spec_ingest_types(
                            g1,
                            space@,
                            entity_id@,
                            types0.take(i as int),
                            block@,
                        ));
                        assert((types_param.take(i as int)).map_values(|t: String| t@)
                            =~= types0.take(i as int));
                    }
                    return Err(e);
                },
            }
        }
        proof {
            assert(types0.take(types0.len() as int) =~= types0);
        }
        Ok(())
    }
}


/// A list of entity bags applied in order at the ingestion version:
/// the bulk write of the node-level data plane.
pub open spec fn spec_ingest_attrs_bulk(
    g: KnowledgeGraphView,
    space: Seq<char>,
    batch: Seq<(Seq<char>, Seq<AttributeNodeView>)>,
    block: crate::block::BlockMetadataView,
) -> Option<KnowledgeGraphView>
    decreases batch.len(),
{
    if batch.len() == 0 {
        Some(g)
    } else {
        match spec_ingest_attrs_bulk(g, space, batch.drop_last(), block) {
            Some(g1) => spec_ingest_attrs(g1, space, batch.last().0, batch.last().1, block),
            None => None,
        }
    }
}

/// A list of relations applied in order at the ingestion version:
/// the bulk write of the relation plane. Empty input writes nothing.
pub open spec fn spec_ingest_relations_bulk(
    g: KnowledgeGraphView,
    space: Seq<char>,
    batch: Seq<(Seq<char>, RelPayloadView)>,
    block: crate::block::BlockMetadataView,
) -> Option<KnowledgeGraphView>
    decreases batch.len(),
{
    if batch.len() == 0 {
        Some(g)
    } else {
        match spec_ingest_relations_bulk(g, space, batch.drop_last(), block) {
            Some(g1) => spec_ingest_relation(g1, space, batch.last().0, batch.last().1, block),
            None => None,
        }
    }
}

/// The payload of a relation record.
pub open spec fn rel_payload_of(r: crate::relations::RelationNodeView) -> RelPayloadView {
    RelPayloadView { from: r.from, to: r.to, relation_type: r.relation_type, index: r.index }
}

/// The keyed payloads of a relation list.
pub open spec fn rel_batch_views(batch: Seq<crate::relations::RelationNode>) -> Seq<
    (Seq<char>, RelPayloadView),
> {
    batch.map_values(|r: crate::relations::RelationNode| (r@.id, rel_payload_of(r@)))
}

/// The keyed bags of an attribute batch.
pub open spec fn attrs_batch_views(
    batch: Seq<(String, crate::attributes::Attributes)>,
) -> Seq<(Seq<char>, Seq<AttributeNodeView>)> {
    batch.map_values(|p: (String, crate::attributes::Attributes)| (p.0@, p.1@))
}

impl KnowledgeGraph {
    /// Insert the attribute bags of several entities at the ingestion
    /// version, all in one space, in list order.
    #[verifier::loop_isolation(false)]
    pub fn insert_attributes_bulk(
        &mut self,
        block: &BlockMetadata,
        space: &str,
        batch: Vec<(String, crate::attributes::Attributes)>,
    ) -> (r: Result<(), StoreError>)
        requires
            wf_graph(old(self)@),
        ensures
            wf_graph(final (self)@),
            r is Ok ==> Some(final (self)@) == spec_ingest_attrs_bulk(
                old(self)@,
                space@,
                attrs_batch_views(batch@),
                block@,
            ),
            r is Err ==> r == Err::<(), StoreError>(StoreError::Consistency)
                && spec_ingest_attrs_bulk(
                old(self)@,
                space@,
                attrs_batch_views(batch@),
                block@,
            ) is None && exists|p: int, q: int|
                0 <= p < attrs_batch_views(batch@).len() && 0 <= q <= attrs_batch_views(
                    batch@,
                )[p].1.len() && (spec_ingest_attrs_bulk(
                    old(self)@,
                    space@,
                    attrs_batch_views(batch@).take(p),
                    block@,
                ) matches Some(gm) && Some(final (self)@) == spec_ingest_attrs(
                    gm,
                    space@,
                    attrs_batch_views(batch@)[p].0,
                    #[trigger] attrs_batch_views(batch@)[p].1.take(q),
                    block@,
                )),
    {
        let ghost batch0 = attrs_batch_views(batch@);
        let ghost g0 = self@;
        let mut batch = batch;
        let total = batch.len();
        let mut i: usize = 0;
        proof {
            assert(batch0.take(0) =~= Seq::<(Seq<char>, Seq<AttributeNodeView>)>::empty());
            assert(batch0.len() == total);
        }
        while batch.len() > 0
            invariant
                wf_graph(self@),
                i + batch@.len() == batch0.len(),
                batch@.map_values(
                    |p: (String, crate::attributes::Attributes)| (p.0@, p.1@),
                ) == batch0.skip(i as int),
                0 <= i <= batch0.len(),
                Some(self@) == spec_ingest_attrs_bulk(g0, space@, batch0.take(i as int), block@),
            decreases batch@.len(),
        {
            let ghost pre_batch = batch@;
            let (entity_id, bag) = batch.remove(0);
            proof {
                let f = |p: (String, crate::attributes::Attributes)| (p.0@, p.1@);
                assert(pre_batch.map_values(f)[0] == (entity_id@, bag@));
                assert(batch0.skip(i as int)[0] == batch0[i as int]);
                assert(batch@ =~= pre_batch.drop_first());
                assert(batch@.map_values(f) =~= pre_batch.map_values(f).drop_first());
                assert(batch0.skip(i as int).drop_first() =~= batch0.skip(i + 1));
            }
            let ghost pre = self@;
            let ghost bagv = bag@;
            match self.insert_attributes(block, space, entity_id.as_str(), bag) {
                Ok(()) => {
                    proof {
                        assert(batch0.take(i + 1).drop_last() =~= batch0.take(i as int));
                        assert(batch0.take(i + 1).last() == batch0[i as int]);
                    }
                    i = i + 1;
                },
                Err(e) => {
                    proof {
                        assert(batch0[i as int] == (entity_id@, bagv));
                        assert(spec_ingest_attrs(pre, space@, entity_id@, bagv, block@) is None);
                        assert(batch0.take(i + 1).drop_last() =~= batch0.take(i as int));
                        assert(batch0.take(i + 1).last() == batch0[i as int]);
                        assert(spec_ingest_attrs_bulk(g0, space@, batch0.take(i + 1), block@) is None);
                        lemma_ingest_attrs_bulk_none_extends(g0, space@, batch0, i + 1, block@);
                        let q = choose|q: int|
                            0 <= q <= bagv.len() && Some(self@) == spec_ingest_attrs(
                                pre,
                                space@,
                                entity_id@,
                                #[trigger] bagv.take(q),
                                block@,
                            );
                        assert(0 <= i < batch0.len() && 0 <= q <= batch0[i as int].1.len()
                            && (spec_ingest_attrs_bulk(g0, space@, batch0.take(i as int), block@)
                            matches Some(gm) && Some(self@) == spec_ingest_attrs(
                            gm,
                            space@,
                            batch0[i as int].0,
                            batch0[i as int].1.take(q),
                            block@,
                        )));
                    }
                    return Err(e);
                },
            }
        }
        proof {
            assert(batch0.take(batch0.len() as int) =~= batch0);
        }
        Ok(())
    }

    /// Insert several relations at the ingestion version, all in one
    /// space, in list order; an empty list writes nothing.
    #[verifier::loop_isolation(false)]
    #[verifier::rlimit(50)]
    pub fn insert_relations_bulk(
        &mut self,
        block: &BlockMetadata,
        space: &str,
        batch: Vec<crate::relations::RelationNode>,
    ) -> (r: Result<(), StoreError>)
        requires
            wf_graph(old(self)@),
        ensures
            wf_graph(final (self)@),
            r is Ok ==> Some(final (self)@) == spec_ingest_relations_bulk(
                old(self)@,
                space@,
                rel_batch_views(batch@),
                block@,
            ),
            r is Err ==> r == Err::<(), StoreError>(StoreError::Consistency)
                && spec_ingest_relations_bulk(
                old(self)@,
                space@,
                rel_batch_views(batch@),
                block@,
            ) is None && exists|p: int|
                0 <= p <= rel_batch_views(batch@).len() && Some(final (self)@)
                    == spec_ingest_relations_bulk(
                    old(self)@,
                    space@,
                    #[trigger] rel_batch_views(batch@).take(p),
                    block@,
                ),
    {
        let ghost batch0 = rel_batch_views(batch@);
        let ghost g0 = self@;
        let mut batch = batch;
        let total = batch.len();
        let mut i: usize = 0;
        proof {
            assert(batch0.take(0) =~= Seq::<(Seq<char>, RelPayloadView)>::empty());
            assert(batch0.len() == total);
        }
        while batch.len() > 0
            invariant
                wf_graph(self@),
                i + batch@.len() == batch0.len(),
                batch@.map_values(
                    |r: crate::relations::RelationNode| (r@.id, rel_payload_of(r@)),
                ) == batch0.skip(i as int),
                0 <= i <= batch0.len(),
                Some(self@) == spec_ingest_relations_bulk(
                    g0,
                    space@,
                    batch0.take(i as int),
                    block@,
                ),
            decreases batch@.len(),
        {
            let ghost pre_batch = batch@;
            let relation = batch.remove(0);
            proof {
                let f = |r: crate::relations::RelationNode| (r@.id, rel_payload_of(r@));
                assert(pre_batch.map_values(f)[0] == (relation@.id, rel_payload_of(relation@)));
                assert(batch0.skip(i as int)[0] == batch0[i as int]);
                assert(batch@ =~= pre_batch.drop_first());
                assert(batch@.map_values(f) =~= pre_batch.map_values(f).drop_first());
                assert(batch0.skip(i as int).drop_first() =~= batch0.skip(i + 1));
            }
            let ghost pre = self@;
            let ghost relv = relation@;
            match self.ingest_relation(block, space, relation) {
                Ok(()) => {
                    proof {
                        assert(batch0.take(i + 1).drop_last() =~= batch0.take(i as int));
                        assert(batch0.take(i + 1).last() == batch0[i as int]);
                    }
                    i = i + 1;
                },
                Err(e) => {
                    proof {
                        assert(batch0[i as int] == (relv.id, rel_payload_of(relv)));
                        assert(spec_ingest_relation(
                            pre,
                            space@,
                            relv.id,
                            rel_payload_of(relv),
                            block@,
                        ) is None);
                        assert(batch0.take(i + 1).drop_last() =~= batch0.take(i as int));
                        assert(batch0.take(i + 1).last() == batch0[i as int]);
                        assert(spec_ingest_relations_bulk(
                            g0,
                            space@,
                            batch0.take(i + 1),
                            block@,
                        ) is None);
                        lemma_ingest_relations_bulk_none_extends(g0, space@, batch0, i + 1, block@);
                        assert(Some(self@) == spec_ingest_relations_bulk(
                            g0,
                            space@,
                            batch0.take(i as int),
                            block@,
                        ));
                    }
                    return Err(e);
                },
            }
        }
        proof {
            assert(batch0.take(batch0.len() as int) =~= batch0);
        }
        Ok(())
    }
}

/// How a published payload's content is fetched: one edit payload,
/// a fan-out to the edits of an imported space, or nothing.
#[derive(Clone, Copy, Debug, PartialEq, Eq, Structural)]
pub enum FetchPlan {
    Single,
    Import,
    Skip,
}

/// Decide how to fetch a published payload from its envelope: an
/// `ADD_EDIT` payload is one edit, an `IMPORT_SPACE` payload fans out
/// to each referenced edit, and every other action is skipped.
pub fn plan_edit_fetch(metadata: &pb::IpfsMetadata) -> (r: FetchPlan)
    ensures
        r == match pb::action_type_of_tag(metadata.action_type) {
            Some(pb::ActionType::AddEdit) => FetchPlan::Single,
            Some(pb::ActionType::ImportSpace) => FetchPlan::Import,
            _ => FetchPlan::Skip,
        },
{
    match pb::ActionType::of_tag(metadata.action_type) {
        Some(pb::ActionType::AddEdit) => FetchPlan::Single,
        Some(pb::ActionType::ImportSpace) => FetchPlan::Import,
        _ => FetchPlan::Skip,
    }
}

/// A space-created event: the DAO and space plugin addresses.
#[derive(Debug)]
pub struct SpaceCreated {
    pub dao_address: String,
    pub space_address: String,
}

/// A governance-plugin-created event.
#[derive(Debug)]
pub struct GovernancePluginCreated {
    pub dao_address: String,
    pub main_voting_address: String,
    pub member_access_address: String,
}

/// A personal-plugin-created event.
#[derive(Debug)]
pub struct PersonalPluginCreated {
    pub dao_address: String,
    pub personal_admin_address: String,
    pub initial_editor: String,
}

/// The initial editors of a new space.
#[derive(Debug)]
pub struct InitialEditorsAdded {
    pub dao_address: String,
    pub addresses: Vec<String>,
}

/// A membership change event.
#[derive(Debug)]
pub struct MembershipChange {
    pub dao_address: String,
    pub account_address: String,
}

/// A subspace change event.
#[derive(Debug)]
pub struct SubspaceChange {
    pub plugin_address: String,
    pub subspace_dao_address: String,
}

/// A vote-cast event.
#[derive(Debug)]
pub struct VoteCastEvent {
    pub plugin_address: String,
    pub voter: String,
    pub onchain_proposal_id: String,
    pub vote_option: u64,
}

/// One block's decoded events, in the order the pipeline applies
/// them. Edits arrive already fetched from the content-addressed
/// store and resolved to their spaces.
#[derive(Debug)]
pub struct BlockBundle {
    pub block: BlockMetadata,
    pub spaces_created: Vec<SpaceCreated>,
    pub personal_plugins_created: Vec<PersonalPluginCreated>,
    pub governance_plugins_created: Vec<GovernancePluginCreated>,
    pub initial_editors_added: Vec<InitialEditorsAdded>,
    pub members_added: Vec<MembershipChange>,
    pub members_removed: Vec<MembershipChange>,
    pub editors_added: Vec<MembershipChange>,
    pub editors_removed: Vec<MembershipChange>,
    pub subspaces_added: Vec<SubspaceChange>,
    pub subspaces_removed: Vec<SubspaceChange>,
    pub votes_cast: Vec<VoteCastEvent>,
    pub edits: Vec<EditProposal>,
}

impl KnowledgeGraph {
    /// Insert a bag of attributes for one entity at the ingestion
    /// version, in bag order; all writes land in one space.
    #[verifier::loop_isolation(false)]
    pub fn insert_attributes(
        &mut self,
        block: &BlockMetadata,
        space: &str,
        entity_id: &str,
        attributes: crate::attributes::Attributes,
    ) -> (r: Result<(), StoreError>)
        requires
            wf_graph(old(self)@),
        ensures
            wf_graph(final (self)@),
            r is Ok ==> Some(final (self)@) == spec_ingest_attrs(
                old(self)@,
                space@,
                entity_id@,
                attributes@,
                block@,
            ),
            r is Err ==> r == Err::<(), StoreError>(StoreError::Consistency)
                && spec_ingest_attrs(old(self)@, space@, entity_id@, attributes@, block@) is None
                && exists|p: int|
                0 <= p <= attributes@.len() && Some(final (self)@) == spec_ingest_attrs(
                    old(self)@,
                    space@,
                    entity_id@,
                    #[trigger] attributes@.take(p),
                    block@,
                ),
    {
        let ghost attrs0 = attributes@;
        let ghost g0 = self@;
        let mut nodes = attributes.0;
        let total = nodes.len();
        let mut i: usize = 0;
        proof {
            assert(attrs0.take(0) =~= Seq::<AttributeNodeView>::empty());
            assert(attrs0.len() == total);
        }
        while nodes.len() > 0
            invariant
                wf_graph(self@),
                i + nodes@.len() == attrs0.len(),
                nodes@.map_values(|a: crate::attributes::AttributeNode| a@) == attrs0.skip(
                    i as int,
                ),
                0 <= i <= attrs0.len(),
                Some(self@) == spec_ingest_attrs(g0, space@, entity_id@, attrs0.take(i as int), block@),
            decreases nodes@.len(),
        {
            let ghost pre_nodes = nodes@;
            let node = nodes.remove(0);
            proof {
                let f = |a: crate::attributes::AttributeNode| a@;
                assert(pre_nodes.map_values(f)[0] == node@);
                assert(attrs0.skip(i as int)[0] == attrs0[i as int]);
                assert(node@ == attrs0[i as int]);
                assert(nodes@ =~= pre_nodes.drop_first());
                assert(nodes@.map_values(f) =~= pre_nodes.map_values(f).drop_first());
                assert(attrs0.skip(i as int).drop_first() =~= attrs0.skip(i + 1));
                assert(nodes@.map_values(f) =~= attrs0.skip(i + 1));
            }
            let ghost pre = self@;
            let crate::attributes::AttributeNode { id, value } = node;
            match self.insert_triple(
                block,
                space,
                INGESTION_VERSION,
                INGESTION_VERSION_INDEX,
                Triple::new(entity_id.to_owned(), id, value),
            ) {
                Ok(()) => {
                    proof {
                        assert(attrs0.take(i + 1).drop_last() =~= attrs0.take(i as int));
                        assert(attrs0.take(i + 1).last() == attrs0[i as int]);
                        lemma_ingest_attrs_snoc(g0, space@, entity_id@, attrs0.take(i + 1), block@);
                    }
                    i = i + 1;
                },
                Err(_) => {
                    proof {
                        assert(self@ == pre);
                        assert(spec_ingest_triple(
                            pre,
                            space@,
                            entity_id@,
                            attrs0[i as int].id,
                            attrs0[i as int].value,
                            block@,
                        ) is None);
                        assert(attrs0.take(i + 1).drop_last() =~= attrs0.take(i as int));
                        assert(attrs0.take(i + 1).last() == attrs0[i as int]);
                        lemma_ingest_attrs_snoc(g0, space@, entity_id@, attrs0.take(i + 1), block@);
                        assert(spec_ingest_attrs(
                            g0,
                            space@,
                            entity_id@,
                            attrs0.take(i + 1),
                            block@,
                        ) is None);
                        lemma_ingest_attrs_none_extends(
                            g0,
                            space@,
                            entity_id@,
                            attrs0,
                            i + 1,
                            block@,
                        );
                        assert(Some(self@) == spec_ingest_attrs(
                            g0,
                            space@,
                            entity_id@,
                            attrs0.take(i as int),
                            block@,
                        ));
                    }
                    return Err(StoreError::Consistency);
                },
            }
        }
        proof {
            assert(attrs0.take(attrs0.len() as int) =~= attrs0);
        }
        Ok(())
    }

    /// Insert a relation at the ingestion version, surfacing only a
    /// consistency error.
    fn ingest_relation(
        &mut self,
        block: &BlockMetadata,
        space: &str,
        relation: RelationNode,
    ) -> (r: Result<(), StoreError>)
        requires
            wf_graph(old(self)@),
        ensures
            wf_graph(final (self)@),
            match r {
                Ok(()) => Some(final (self)@) == spec_ingest_relation(
                    old(self)@,
                    space@,
                    relation@.id,
                    RelPayloadView {
                        from: relation@.from,
                        to: relation@.to,
                        relation_type: relation@.relation_type,
                        index: relation@.index,
                    },
                    block@,
                ),
                Err(e) => final (self)@ == old(self)@ && e == StoreError::Consistency
                    && spec_ingest_relation(
                    old(self)@,
                    space@,
                    relation@.id,
                    RelPayloadView {
                        from: relation@.from,
                        to: relation@.to,
                        relation_type: relation@.relation_type,
                        index: relation@.index,
                    },
                    block@,
                ) is None,
            },
    {
        match self.insert_relation(
            block,
            space,
            INGESTION_VERSION,
            INGESTION_VERSION_INDEX,
            relation,
        ) {
            Ok(()) => Ok(()),
            Err(_) => Err(StoreError::Consistency),
        }
    }
}

/// A bag of attributes applied in order at the ingestion version.
pub open spec fn spec_ingest_attrs(
    g: KnowledgeGraphView,
    space: Seq<char>,
    entity: Seq<char>,
    attrs: Seq<AttributeNodeView>,
    block: crate::block::BlockMetadataView,
) -> Option<KnowledgeGraphView>
    decreases attrs.len(),
{
    if attrs.len() == 0 {
        Some(g)
    } else {
        match spec_ingest_attrs(g, space, entity, attrs.drop_last(), block) {
            Some(g1) => spec_ingest_triple(
                g1,
                space,
                entity,
                attrs.last().id,
                attrs.last().value,
                block,
            ),
            None => None,
        }
    }
}

/// Folding one more attribute extends the bag fold.
proof fn lemma_ingest_attrs_snoc(
    g: KnowledgeGraphView,
    space: Seq<char>,
    entity: Seq<char>,
    attrs: Seq<AttributeNodeView>,
    block: crate::block::BlockMetadataView,
)
    requires
        attrs.len() > 0,
    ensures
        spec_ingest_attrs(g, space, entity, attrs, block) == match spec_ingest_attrs(
            g,
            space,
            entity,
            attrs.drop_last(),
            block,
        ) {
            Some(g1) => spec_ingest_triple(g1, space, entity, attrs.last().id, attrs.last().value, block),
            None => None,
        },
{
}


/// The effect of creating a space from its event: the space entity's
/// bag written under the indexer space, then its SPACE type relation.
pub open spec fn spec_handle_space_created(
    g: KnowledgeGraphView,
    dao_address: Seq<char>,
    space_address: Seq<char>,
    block: crate::block::BlockMetadataView,
) -> Option<KnowledgeGraphView> {
    let sid = crate::ids::derived_id(
        crate::network_ids::GEO@ + ":"@ + crate::ids::normal_address(dao_address),
    );
    let sv = crate::models::SpaceView {
        network: crate::network_ids::GEO@,
        governance_type: crate::models::SpaceGovernanceType::Public,
        dao_contract_address: crate::ids::normal_address(dao_address),
        space_plugin_address: Some(crate::ids::normal_address(space_address)),
        voting_plugin_address: None,
        member_access_plugin: None,
        personal_space_admin_plugin: None,
    };
    match spec_ingest_attrs(
        g,
        crate::indexer_ids::INDEXER_SPACE_ID@,
        sid,
        crate::models::space_attrs(sv),
        block,
    ) {
        Some(g1) => spec_ingest_types(
            g1,
            crate::indexer_ids::INDEXER_SPACE_ID@,
            sid,
            seq![crate::system_ids::SPACE_TYPE@],
            block,
        ),
        None => None,
    }
}

/// The attribute of one plugin address.
pub open spec fn plugin_attr(id: Seq<char>, address: Seq<char>) -> AttributeNodeView {
    AttributeNodeView {
        id: id,
        value: plain_value(crate::ids::normal_address(address), ValueType::Text),
    }
}

/// The effect of creating an account and its relation to a space:
/// the account's address attribute, then the membership or editorship
/// relation.
pub open spec fn spec_add_account_relation(
    g: KnowledgeGraphView,
    address: Seq<char>,
    space_id: Seq<char>,
    editor: bool,
    block: crate::block::BlockMetadataView,
) -> Option<KnowledgeGraphView> {
    let account_id = crate::ids::derived_id(crate::ids::normal_address(address));
    let bag = seq![
        AttributeNodeView {
            id: crate::system_ids::ADDRESS_ATTRIBUTE@,
            value: plain_value(crate::ids::normal_address(address), ValueType::Text),
        },
    ];
    let rel_id = if editor {
        crate::ids::derived_id("EDITOR:"@ + space_id + ":"@ + account_id)
    } else {
        crate::ids::derived_id("MEMBER:"@ + space_id + ":"@ + account_id)
    };
    let relation_type = if editor {
        crate::indexer_ids::EDITOR_RELATION@
    } else {
        crate::indexer_ids::MEMBER_RELATION@
    };
    match spec_ingest_attrs(g, crate::indexer_ids::INDEXER_SPACE_ID@, account_id, bag, block) {
        Some(g1) => spec_ingest_relation(
            g1,
            crate::indexer_ids::INDEXER_SPACE_ID@,
            rel_id,
            RelPayloadView {
                from: account_id,
                to: space_id,
                relation_type: relation_type,
                index: plain_value("0"@, ValueType::Text),
            },
            block,
        ),
        None => None,
    }
}

/// The derived identifier of a space from its DAO address.
pub open spec fn space_id_of_dao(dao_address: Seq<char>) -> Seq<char> {
    crate::ids::derived_id(
        crate::network_ids::GEO@ + ":"@ + crate::ids::normal_address(dao_address),
    )
}

/// The accounts of the initial editors attached in order.
pub open spec fn spec_add_editors(
    g: KnowledgeGraphView,
    addresses: Seq<Seq<char>>,
    space_id: Seq<char>,
    block: crate::block::BlockMetadataView,
) -> Option<KnowledgeGraphView>
    decreases addresses.len(),
{
    if addresses.len() == 0 {
        Some(g)
    } else {
        match spec_add_editors(g, addresses.drop_last(), space_id, block) {
            Some(g1) => spec_add_account_relation(g1, addresses.last(), space_id, true, block),
            None => None,
        }
    }
}

/// The edits of a bundle applied in order.
pub open spec fn spec_apply_edits(
    g: KnowledgeGraphView,
    edits: Seq<EditProposal>,
    block: crate::block::BlockMetadataView,
) -> Option<KnowledgeGraphView>
    decreases edits.len(),
{
    if edits.len() == 0 {
        Some(g)
    } else {
        match spec_apply_edits(g, edits.drop_last(), block) {
            Some(g1) => spec_process_ops(g1, edits.last().space@, edits.last().ops@, block),
            None => None,
        }
    }
}

/// The persisted cursor of a block: the cursor string triple, then
/// the block-number triple, both under the indexer space.
pub open spec fn spec_persist_cursor(
    g: KnowledgeGraphView,
    block: crate::block::BlockMetadataView,
) -> Option<KnowledgeGraphView> {
    match spec_ingest_triple(
        g,
        crate::indexer_ids::INDEXER_SPACE_ID@,
        crate::indexer_ids::CURSOR_ID@,
        crate::indexer_ids::CURSOR_ATTRIBUTE@,
        plain_value(block.cursor, ValueType::Text),
        block,
    ) {
        Some(g1) => spec_ingest_triple(
            g1,
            crate::indexer_ids::INDEXER_SPACE_ID@,
            crate::indexer_ids::CURSOR_ID@,
            crate::indexer_ids::BLOCK_NUMBER_ATTRIBUTE@,
            plain_value(
                crate::value::decimal_chars(block.block_number as int),
                ValueType::Number,
            ),
            block,
        ),
        None => None,
    }
}


/// The effect of recording a governance plugin: the voting and
/// member-access plugin addresses written on the space entity.
pub open spec fn spec_handle_governance_plugin(
    g: KnowledgeGraphView,
    dao_address: Seq<char>,
    main_voting_address: Seq<char>,
    member_access_address: Seq<char>,
    block: crate::block::BlockMetadataView,
) -> Option<KnowledgeGraphView> {
    spec_ingest_attrs(
        g,
        crate::indexer_ids::INDEXER_SPACE_ID@,
        space_id_of_dao(dao_address),
        seq![
            plugin_attr(
                crate::indexer_ids::SPACE_VOTING_PLUGIN_ADDRESS@,
                main_voting_address,
            ),
            plugin_attr(
                crate::indexer_ids::SPACE_MEMBER_PLUGIN_ADDRESS@,
                member_access_address,
            ),
        ],
        block,
    )
}

/// The effect of recording a personal space plugin: the admin plugin
/// address and the personal governance kind written on the space
/// entity.
pub open spec fn spec_handle_personal_plugin(
    g: KnowledgeGraphView,
    dao_address: Seq<char>,
    personal_admin_address: Seq<char>,
    block: crate::block::BlockMetadataView,
) -> Option<KnowledgeGraphView> {
    spec_ingest_attrs(
        g,
        crate::indexer_ids::INDEXER_SPACE_ID@,
        space_id_of_dao(dao_address),
        seq![
            plugin_attr(
                crate::indexer_ids::SPACE_PERSONAL_PLUGIN_ADDRESS@,
                personal_admin_address,
            ),
            AttributeNodeView {
                id: crate::indexer_ids::SPACE_GOVERNANCE_TYPE@,
                value: plain_value(
                    crate::models::governance_str(crate::models::SpaceGovernanceType::Personal),
                    ValueType::Text,
                ),
            },
        ],
        block,
    )
}

/// The parent of a subspace event: the space found by the event's
/// space plugin address.
pub open spec fn subspace_parent(
    g: KnowledgeGraphView,
    plugin_address: Seq<char>,
) -> Option<Seq<char>> {
    crate::models::spec_find_by_indexer_attr(
        g.triples,
        crate::indexer_ids::SPACE_PLUGIN_ADDRESS@,
        crate::ids::normal_address(plugin_address),
    )
}

/// The relation of a subspace under its parent.
pub open spec fn parent_space_payload(sub: Seq<char>, parent: Seq<char>) -> RelPayloadView {
    RelPayloadView {
        from: sub,
        to: parent,
        relation_type: crate::indexer_ids::PARENT_SPACE@,
        index: plain_value("0"@, ValueType::Text),
    }
}

/// The space a vote resolves against: found by its voting plugin
/// address, or failing that by its member-access plugin address.
pub open spec fn vote_space(
    g: KnowledgeGraphView,
    plugin_address: Seq<char>,
) -> Option<Seq<char>> {
    match crate::models::spec_find_by_indexer_attr(
        g.triples,
        crate::indexer_ids::SPACE_VOTING_PLUGIN_ADDRESS@,
        crate::ids::normal_address(plugin_address),
    ) {
        Some(s) => Some(s),
        None => crate::models::spec_find_by_indexer_attr(
            g.triples,
            crate::indexer_ids::SPACE_MEMBER_PLUGIN_ADDRESS@,
            crate::ids::normal_address(plugin_address),
        ),
    }
}

/// The recorded form of a vote kind.
pub open spec fn vote_value(vote_type: crate::models::VoteType) -> Seq<char> {
    match vote_type {
        crate::models::VoteType::Accept => "ACCEPT"@,
        crate::models::VoteType::Reject => "REJECT"@,
    }
}

/// The ingestion engine: one value of the materialized graph, fed by
/// decoded block bundles.
#[derive(Debug)]
pub struct EventHandler {
    pub kg: KnowledgeGraph,
}

impl EventHandler {
    /// An engine over a graph.
    pub fn new(kg: KnowledgeGraph) -> (r: Self)
        ensures
            r.kg == kg,
    {
        EventHandler { kg }
    }

    /// Create the entity of a new space under the indexer space, with
    /// its space plugin address, and type it SPACE.
    pub fn handle_space_created(&mut self, event: &SpaceCreated, block: &BlockMetadata) -> (r:
        Result<(), StoreError>)
        requires
            wf_graph(old(self).kg@),
        ensures
            wf_graph(final (self).kg@),
            r is Ok ==> Some(final (self).kg@) == spec_handle_space_created(
                old(self).kg@,
                event.dao_address@,
                event.space_address@,
                block@,
            ),
            r is Err ==> r == Err::<(), StoreError>(StoreError::Consistency)
                && spec_handle_space_created(
                old(self).kg@,
                event.dao_address@,
                event.space_address@,
                block@,
            ) is None,
    {
        let space_id = Space::gen_id(crate::network_ids::GEO, event.dao_address.as_str());
        let entity = Space::builder(space_id.as_str(), event.dao_address.as_str())
            .space_plugin_address(event.space_address.as_str()).build();
        let ghost spacev = entity.attributes@;
        let ghost typesv = entity.types@.map_values(|t: String| t@);
        proof {
            assert(typesv =~= seq![crate::system_ids::SPACE_TYPE@]);
        }
        let bag = entity.attributes.to_attributes();
        self.kg.insert_entity(
            block,
            crate::indexer_ids::INDEXER_SPACE_ID,
            entity.id.as_str(),
            bag,
            entity.types,
        )
    }

    /// Record the voting and member-access plugin addresses of a
    /// space's governance plugin on the space entity.
    pub fn handle_governance_plugin_created(
        &mut self,
        event: &GovernancePluginCreated,
        block: &BlockMetadata,
    ) -> (r: Result<(), StoreError>)
        requires
            wf_graph(old(self).kg@),
        ensures
            wf_graph(final (self).kg@),
            r is Ok ==> Some(final (self).kg@) == spec_handle_governance_plugin(
                old(self).kg@,
                event.dao_address@,
                event.main_voting_address@,
                event.member_access_address@,
                block@,
            ),
            r is Err ==> r == Err::<(), StoreError>(StoreError::Consistency)
                && spec_handle_governance_plugin(
                old(self).kg@,
                event.dao_address@,
                event.main_voting_address@,
                event.member_access_address@,
                block@,
            ) is None,
    {
        proof {
            crate::models::lemma_space_attr_ids_distinct();
        }
        let space_id = Space::gen_id(crate::network_ids::GEO, event.dao_address.as_str());
        let voting = crate::ids::checksum_address(event.main_voting_address.as_str());
        let member = crate::ids::checksum_address(event.member_access_address.as_str());
        let ghost a1 = plugin_attr(
            crate::indexer_ids::SPACE_VOTING_PLUGIN_ADDRESS@,
            event.main_voting_address@,
        );
        let ghost a2 = plugin_attr(
            crate::indexer_ids::SPACE_MEMBER_PLUGIN_ADDRESS@,
            event.member_access_address@,
        );
        let mut bag = crate::attributes::Attributes::default();
        bag.attribute_mut(
            crate::attributes::AttributeNode::new(
                crate::indexer_ids::SPACE_VOTING_PLUGIN_ADDRESS,
                Value::text(voting),
            ),
        );
        proof {
            assert(bag@ =~= seq![a1]);
        }
        bag.attribute_mut(
            crate::attributes::AttributeNode::new(
                crate::indexer_ids::SPACE_MEMBER_PLUGIN_ADDRESS,
                Value::text(member),
            ),
        );
        proof {
            assert(!crate::attributes::attrs_has(seq![a1], a2.id)) by {
                assert(seq![a1][0].id == a1.id);
            }
            assert(bag@ =~= seq![a1, a2]);
        }
        self.kg.insert_attributes(
            block,
            crate::indexer_ids::INDEXER_SPACE_ID,
            space_id.as_str(),
            bag,
        )
    }

    /// Record a personal space's admin plugin address and mark its
    /// governance personal.
    pub fn handle_personal_space_created(
        &mut self,
        event: &PersonalPluginCreated,
        block: &BlockMetadata,
    ) -> (r: Result<(), StoreError>)
        requires
            wf_graph(old(self).kg@),
        ensures
            wf_graph(final (self).kg@),
            r is Ok ==> Some(final (self).kg@) == spec_handle_personal_plugin(
                old(self).kg@,
                event.dao_address@,
                event.personal_admin_address@,
                block@,
            ),
            r is Err ==> r == Err::<(), StoreError>(StoreError::Consistency)
                && spec_handle_personal_plugin(
                old(self).kg@,
                event.dao_address@,
                event.personal_admin_address@,
                block@,
            ) is None,
    {
        proof {
            crate::models::lemma_space_attr_ids_distinct();
        }
        let space_id = Space::gen_id(crate::network_ids::GEO, event.dao_address.as_str());
        let admin = crate::ids::checksum_address(event.personal_admin_address.as_str());
        let ghost a1 = plugin_attr(
            crate::indexer_ids::SPACE_PERSONAL_PLUGIN_ADDRESS@,
            event.personal_admin_address@,
        );
        let ghost a2 = AttributeNodeView {
            id: crate::indexer_ids::SPACE_GOVERNANCE_TYPE@,
            value: plain_value(
                crate::models::governance_str(crate::models::SpaceGovernanceType::Personal),
                ValueType::Text,
            ),
        };
        let mut bag = crate::attributes::Attributes::default();
        bag.attribute_mut(
            crate::attributes::AttributeNode::new(
                crate::indexer_ids::SPACE_PERSONAL_PLUGIN_ADDRESS,
                Value::text(admin),
            ),
        );
        proof {
            assert(bag@ =~= seq![a1]);
        }
        bag.attribute_mut(
            crate::attributes::AttributeNode::new(
                crate::indexer_ids::SPACE_GOVERNANCE_TYPE,
                crate::models::SpaceGovernanceType::Personal.to_value(),
            ),
        );
        proof {
            assert(!crate::attributes::attrs_has(seq![a1], a2.id)) by {
                assert(seq![a1][0].id == a1.id);
            }
            assert(bag@ =~= seq![a1, a2]);
        }
        self.kg.insert_attributes(
            block,
            crate::indexer_ids::INDEXER_SPACE_ID,
            space_id.as_str(),
            bag,
        )
    }

    /// Create an account entity for an address and relate it to a
    /// space with the given relation.
    fn add_account_relation(
        &mut self,
        block: &BlockMetadata,
        address: &str,
        space_id: &str,
        editor: bool,
    ) -> (r: Result<(), StoreError>)
        requires
            wf_graph(old(self).kg@),
        ensures
            wf_graph(final (self).kg@),
            r is Ok ==> Some(final (self).kg@) == spec_add_account_relation(
                old(self).kg@,
                address@,
                space_id@,
                editor,
                block@,
            ),
            r is Err ==> r == Err::<(), StoreError>(StoreError::Consistency)
                && spec_add_account_relation(
                old(self).kg@,
                address@,
                space_id@,
                editor,
                block@,
            ) is None,
    {
        let account = Account::new(address.to_owned());
        let mut bag = crate::attributes::Attributes::default();
        bag.attribute_mut(
            crate::attributes::AttributeNode::new(
                crate::system_ids::ADDRESS_ATTRIBUTE,
                Value::text(account.attributes.address),
            ),
        );
        match self.kg.insert_attributes(
            block,
            crate::indexer_ids::INDEXER_SPACE_ID,
            account.id.as_str(),
            bag,
        ) {
            Ok(()) => {},
            Err(e) => {
                return Err(e);
            },
        }
        let relation = if editor {
            let rel = SpaceEditor::new(account.id.as_str(), space_id);
            RelationNode::new(
                rel.attributes.id,
                rel.from,
                rel.to,
                rel.relation_type,
                Value::text("0".to_owned()),
            )
        } else {
            let rel = SpaceMember::new(account.id.as_str(), space_id);
            RelationNode::new(
                rel.attributes.id,
                rel.from,
                rel.to,
                rel.relation_type,
                Value::text("0".to_owned()),
            )
        };
        self.kg.ingest_relation(block, crate::indexer_ids::INDEXER_SPACE_ID, relation)
    }

    /// Attach the initial editors of a new space. An event naming an
    /// unknown space is skipped.
    #[verifier::loop_isolation(false)]
    pub fn handle_initial_space_editors_added(
        &mut self,
        event: &InitialEditorsAdded,
        block: &BlockMetadata,
    ) -> (r: Result<(), StoreError>)
        requires
            wf_graph(old(self).kg@),
        ensures
            wf_graph(final (self).kg@),
            !crate::graph::entities_has(
                old(self).kg@.entities,
                space_id_of_dao(event.dao_address@),
            ) ==> r is Ok && *final (self) == *old(self),
            crate::graph::entities_has(
                old(self).kg@.entities,
                space_id_of_dao(event.dao_address@),
            ) && r is Ok ==> Some(final (self).kg@) == spec_add_editors(
                old(self).kg@,
                event.addresses@.map_values(|a: String| a@),
                space_id_of_dao(event.dao_address@),
                block@,
            ),
            r is Err ==> r == Err::<(), StoreError>(StoreError::Consistency)
                && crate::graph::entities_has(
                old(self).kg@.entities,
                space_id_of_dao(event.dao_address@),
            ) && spec_add_editors(
                old(self).kg@,
                event.addresses@.map_values(|a: String| a@),
                space_id_of_dao(event.dao_address@),
                block@,
            ) is None,
    {
        let space_id = Space::gen_id(crate::network_ids::GEO, event.dao_address.as_str());
        if self.kg.find_entity(space_id.as_str()).is_none() {
            return Ok(());
        }
        let ghost addrs = event.addresses@.map_values(|a: String| a@);
        let ghost g0 = self.kg@;
        let n = event.addresses.len();
        let mut i: usize = 0;
        proof {
            assert(addrs.take(0) =~= Seq::<Seq<char>>::empty());
        }
        while i < n
            invariant
                wf_graph(self.kg@),
                n == event.addresses@.len(),
                0 <= i <= n,
                Some(self.kg@) == spec_add_editors(g0, addrs.take(i as int), space_id@, block@),
            decreases n - i,
        {
            let ghost pre = self.kg@;
            match self.add_account_relation(
                block,
                event.addresses[i].as_str(),
                space_id.as_str(),
                true,
            ) {
                Ok(()) => {
                    proof {
                        assert(addrs.take(i + 1).drop_last() =~= addrs.take(i as int));
                        assert(addrs.take(i + 1).last() == addrs[i as int]);
                        assert(addrs[i as int] == event.addresses@[i as int]@);
                    }
                },
                Err(e) => {
                    proof {
                        assert(addrs[i as int] == event.addresses@[i as int]@);
                        assert(spec_add_account_relation(
                            pre,
                            addrs[i as int],
                            space_id@,
                            true,
                            block@,
                        ) is None);
                        assert(addrs.take(i + 1).drop_last() =~= addrs.take(i as int));
                        assert(addrs.take(i + 1).last() == addrs[i as int]);
                        assert(spec_add_editors(g0, addrs.take(i + 1), space_id@, block@) is None);
                        lemma_add_editors_none_extends(g0, addrs, space_id@, i + 1, block@);
                    }
                    return Err(e);
                },
            }
            i = i + 1;
        }
        proof {
            assert(addrs.take(n as int) =~= addrs);
        }
        Ok(())
    }

    /// Attach a member to a space. An event naming an unknown space
    /// is skipped.
    pub fn handle_member_added(&mut self, event: &MembershipChange, block: &BlockMetadata) -> (r:
        Result<(), StoreError>)
        requires
            wf_graph(old(self).kg@),
        ensures
            wf_graph(final (self).kg@),
            !crate::graph::entities_has(
                old(self).kg@.entities,
                space_id_of_dao(event.dao_address@),
            ) ==> r is Ok && *final (self) == *old(self),
            crate::graph::entities_has(
                old(self).kg@.entities,
                space_id_of_dao(event.dao_address@),
            ) && r is Ok ==> Some(final (self).kg@) == spec_add_account_relation(
                old(self).kg@,
                event.account_address@,
                space_id_of_dao(event.dao_address@),
                false,
                block@,
            ),
            r is Err ==> r == Err::<(), StoreError>(StoreError::Consistency)
                && crate::graph::entities_has(
                old(self).kg@.entities,
                space_id_of_dao(event.dao_address@),
            ) && spec_add_account_relation(
                old(self).kg@,
                event.account_address@,
                space_id_of_dao(event.dao_address@),
                false,
                block@,
            ) is None,
    {
        let space_id = Space::gen_id(crate::network_ids::GEO, event.dao_address.as_str());
        if self.kg.find_entity(space_id.as_str()).is_none() {
            return Ok(());
        }
        self.add_account_relation(block, event.account_address.as_str(), space_id.as_str(), false)
    }

    /// Retire a member's relation to a space. Idempotent.
    pub fn handle_member_removed(&mut self, event: &MembershipChange, block: &BlockMetadata) -> (r:
        Result<(), StoreError>)
        requires
            wf_graph(old(self).kg@),
        ensures
            wf_graph(final (self).kg@),
            r is Ok ==> Some(final (self).kg@) == spec_ingest_delete_relation(
                old(self).kg@,
                crate::indexer_ids::INDEXER_SPACE_ID@,
                crate::ids::derived_id(
                    "MEMBER:"@ + space_id_of_dao(event.dao_address@) + ":"@ + crate::ids::derived_id(
                        crate::ids::normal_address(event.account_address@),
                    ),
                ),
                block@,
            ),
            r is Err ==> r == Err::<(), StoreError>(StoreError::Consistency) && final (self).kg@
                == old(self).kg@ && spec_ingest_delete_relation(
                old(self).kg@,
                crate::indexer_ids::INDEXER_SPACE_ID@,
                crate::ids::derived_id(
                    "MEMBER:"@ + space_id_of_dao(event.dao_address@) + ":"@ + crate::ids::derived_id(
                        crate::ids::normal_address(event.account_address@),
                    ),
                ),
                block@,
            ) is None,
    {
        let space_id = Space::gen_id(crate::network_ids::GEO, event.dao_address.as_str());
        let account_id = Account::gen_id(event.account_address.as_str());
        let rel_id = SpaceMember::generate_id(account_id.as_str(), space_id.as_str());
        match self.kg.delete_relation(
            block,
            crate::indexer_ids::INDEXER_SPACE_ID,
            INGESTION_VERSION,
            INGESTION_VERSION_INDEX,
            rel_id.as_str(),
        ) {
            Ok(()) => Ok(()),
            Err(_) => Err(StoreError::Consistency),
        }
    }

    /// Attach an editor to a space. An event naming an unknown space
    /// is skipped.
    pub fn handle_editor_added(&mut self, event: &MembershipChange, block: &BlockMetadata) -> (r:
        Result<(), StoreError>)
        requires
            wf_graph(old(self).kg@),
        ensures
            wf_graph(final (self).kg@),
            !crate::graph::entities_has(
                old(self).kg@.entities,
                space_id_of_dao(event.dao_address@),
            ) ==> r is Ok && *final (self) == *old(self),
            crate::graph::entities_has(
                old(self).kg@.entities,
                space_id_of_dao(event.dao_address@),
            ) && r is Ok ==> Some(final (self).kg@) == spec_add_account_relation(
                old(self).kg@,
                event.account_address@,
                space_id_of_dao(event.dao_address@),
                true,
                block@,
            ),
            r is Err ==> r == Err::<(), StoreError>(StoreError::Consistency)
                && crate::graph::entities_has(
                old(self).kg@.entities,
                space_id_of_dao(event.dao_address@),
            ) && spec_add_account_relation(
                old(self).kg@,
                event.account_address@,
                space_id_of_dao(event.dao_address@),
                true,
                block@,
            ) is None,
    {
        let space_id = Space::gen_id(crate::network_ids::GEO, event.dao_address.as_str());
        if self.kg.find_entity(space_id.as_str()).is_none() {
            return Ok(());
        }
        self.add_account_relation(block, event.account_address.as_str(), space_id.as_str(), true)
    }

    /// Retire an editor's relation to a space. Idempotent.
    pub fn handle_editor_removed(&mut self, event: &MembershipChange, block: &BlockMetadata) -> (r:
        Result<(), StoreError>)
        requires
            wf_graph(old(self).kg@),
        ensures
            wf_graph(final (self).kg@),
            r is Ok ==> Some(final (self).kg@) == spec_ingest_delete_relation(
                old(self).kg@,
                crate::indexer_ids::INDEXER_SPACE_ID@,
                crate::ids::derived_id(
                    "EDITOR:"@ + space_id_of_dao(event.dao_address@) + ":"@ + crate::ids::derived_id(
                        crate::ids::normal_address(event.account_address@),
                    ),
                ),
                block@,
            ),
            r is Err ==> r == Err::<(), StoreError>(StoreError::Consistency) && final (self).kg@
                == old(self).kg@ && spec_ingest_delete_relation(
                old(self).kg@,
                crate::indexer_ids::INDEXER_SPACE_ID@,
                crate::ids::derived_id(
                    "EDITOR:"@ + space_id_of_dao(event.dao_address@) + ":"@ + crate::ids::derived_id(
                        crate::ids::normal_address(event.account_address@),
                    ),
                ),
                block@,
            ) is None,
    {
        let space_id = Space::gen_id(crate::network_ids::GEO, event.dao_address.as_str());
        let account_id = Account::gen_id(event.account_address.as_str());
        let rel_id = SpaceEditor::generate_id(account_id.as_str(), space_id.as_str());
        match self.kg.delete_relation(
            block,
            crate::indexer_ids::INDEXER_SPACE_ID,
            INGESTION_VERSION,
            INGESTION_VERSION_INDEX,
            rel_id.as_str(),
        ) {
            Ok(()) => Ok(()),
            Err(_) => Err(StoreError::Consistency),
        }
    }

    /// Link a subspace under its parent. The parent is found by its
    /// space plugin address and the subspace by its DAO address; an
    /// event whose spaces are unknown is skipped.
    pub fn handle_subspace_added(&mut self, event: &SubspaceChange, block: &BlockMetadata) -> (r:
        Result<(), StoreError>)
        requires
            wf_graph(old(self).kg@),
        ensures
            wf_graph(final (self).kg@),
            subspace_parent(old(self).kg@, event.plugin_address@) is None ==> r is Ok
                && *final (self) == *old(self),
            ({
                let parent = subspace_parent(old(self).kg@, event.plugin_address@);
                let sub = space_id_of_dao(event.subspace_dao_address@);
                &&& (parent is Some && !crate::graph::entities_has(old(self).kg@.entities, sub)
                    ==> r is Ok && *final (self) == *old(self))
                &&& (parent is Some && crate::graph::entities_has(old(self).kg@.entities, sub)
                    && r is Ok ==> Some(final (self).kg@) == spec_ingest_relation(
                    old(self).kg@,
                    crate::indexer_ids::INDEXER_SPACE_ID@,
                    crate::ids::derived_id("PARENT_SPACE:"@ + sub + ":"@ + parent->Some_0),
                    parent_space_payload(sub, parent->Some_0),
                    block@,
                ))
            }),
            r is Err ==> r == Err::<(), StoreError>(StoreError::Consistency) && final (self).kg@
                == old(self).kg@ && ({
                let parent = subspace_parent(old(self).kg@, event.plugin_address@);
                let sub = space_id_of_dao(event.subspace_dao_address@);
                parent is Some && crate::graph::entities_has(old(self).kg@.entities, sub)
                    && spec_ingest_relation(
                    old(self).kg@,
                    crate::indexer_ids::INDEXER_SPACE_ID@,
                    crate::ids::derived_id("PARENT_SPACE:"@ + sub + ":"@ + parent->Some_0),
                    parent_space_payload(sub, parent->Some_0),
                    block@,
                ) is None
            }),
    {
        let parent = match Space::find_by_space_plugin_address(
            &self.kg,
            event.plugin_address.as_str(),
        ) {
            Some(p) => p,
            None => {
                return Ok(());
            },
        };
        let sub_id = Space::gen_id(crate::network_ids::GEO, event.subspace_dao_address.as_str());
        if self.kg.find_entity(sub_id.as_str()).is_none() {
            return Ok(());
        }
        let rel = ParentSpace::new(sub_id.as_str(), parent.as_str());
        self.kg.ingest_relation(
            block,
            crate::indexer_ids::INDEXER_SPACE_ID,
            RelationNode::new(
                rel.attributes.id,
                rel.from,
                rel.to,
                rel.relation_type,
                Value::text("0".to_owned()),
            ),
        )
    }

    /// Retire a subspace's link to its parent. An event whose parent
    /// space is unknown is skipped.
    pub fn handle_subspace_removed(&mut self, event: &SubspaceChange, block: &BlockMetadata) -> (r:
        Result<(), StoreError>)
        requires
            wf_graph(old(self).kg@),
        ensures
            wf_graph(final (self).kg@),
            subspace_parent(old(self).kg@, event.plugin_address@) is None ==> r is Ok
                && *final (self) == *old(self),
            ({
                let parent = subspace_parent(old(self).kg@, event.plugin_address@);
                let sub = space_id_of_dao(event.subspace_dao_address@);
                parent is Some && r is Ok ==> Some(final (self).kg@)
                    == spec_ingest_delete_relation(
                    old(self).kg@,
                    crate::indexer_ids::INDEXER_SPACE_ID@,
                    crate::ids::derived_id("PARENT_SPACE:"@ + sub + ":"@ + parent->Some_0),
                    block@,
                )
            }),
            r is Err ==> r == Err::<(), StoreError>(StoreError::Consistency) && final (self).kg@
                == old(self).kg@ && ({
                let parent = subspace_parent(old(self).kg@, event.plugin_address@);
                let sub = space_id_of_dao(event.subspace_dao_address@);
                parent is Some && spec_ingest_delete_relation(
                    old(self).kg@,
                    crate::indexer_ids::INDEXER_SPACE_ID@,
                    crate::ids::derived_id("PARENT_SPACE:"@ + sub + ":"@ + parent->Some_0),
                    block@,
                ) is None
            }),
    {
        let parent = match Space::find_by_space_plugin_address(
            &self.kg,
            event.plugin_address.as_str(),
        ) {
            Some(p) => p,
            None => {
                return Ok(());
            },
        };
        let sub_id = Space::gen_id(crate::network_ids::GEO, event.subspace_dao_address.as_str());
        let rel_id = ParentSpace::generate_id(sub_id.as_str(), parent.as_str());
        match self.kg.delete_relation(
            block,
            crate::indexer_ids::INDEXER_SPACE_ID,
            INGESTION_VERSION,
            INGESTION_VERSION_INDEX,
            rel_id.as_str(),
        ) {
            Ok(()) => Ok(()),
            Err(_) => Err(StoreError::Consistency),
        }
    }

    /// Record a vote. The space is found by its voting or
    /// member-access plugin address; an unknown space, an unknown
    /// account or an unknown vote option is skipped.
    pub fn handle_vote_cast(&mut self, event: &VoteCastEvent, block: &BlockMetadata) -> (r: Result<
        (),
        StoreError,
    >)
        requires
            wf_graph(old(self).kg@),
        ensures
            wf_graph(final (self).kg@),
            r is Err ==> r == Err::<(), StoreError>(StoreError::Consistency) && final (self).kg@
                == old(self).kg@ && ({
                let vt = crate::models::vote_type_of(event.vote_option);
                let space = vote_space(old(self).kg@, event.plugin_address@);
                let account = crate::ids::derived_id(crate::ids::normal_address(event.voter@));
                vt is Some && space is Some && crate::graph::entities_has(
                    old(self).kg@.entities,
                    account,
                ) && spec_ingest_relation(
                    old(self).kg@,
                    crate::indexer_ids::INDEXER_SPACE_ID@,
                    crate::ids::derived_id(account + "-"@ + event.onchain_proposal_id@),
                    RelPayloadView {
                        from: account,
                        to: event.onchain_proposal_id@,
                        relation_type: crate::indexer_ids::VOTE_CAST@,
                        index: plain_value(vote_value(vt->Some_0), ValueType::Text),
                    },
                    block@,
                ) is None
            }),
            vote_type_skipped(event.vote_option) ==> r is Ok && *final (self) == *old(self),
            ({
                let vt = crate::models::vote_type_of(event.vote_option);
                let space = vote_space(old(self).kg@, event.plugin_address@);
                let account = crate::ids::derived_id(crate::ids::normal_address(event.voter@));
                &&& (vt is Some && space is None ==> r is Ok && *final (self) == *old(self))
                &&& (vt is Some && space is Some && !crate::graph::entities_has(
                    old(self).kg@.entities,
                    account,
                ) ==> r is Ok && *final (self) == *old(self))
                &&& (vt is Some && space is Some && crate::graph::entities_has(
                    old(self).kg@.entities,
                    account,
                ) && r is Ok ==> Some(final (self).kg@) == spec_ingest_relation(
                    old(self).kg@,
                    crate::indexer_ids::INDEXER_SPACE_ID@,
                    crate::ids::derived_id(account + "-"@ + event.onchain_proposal_id@),
                    RelPayloadView {
                        from: account,
                        to: event.onchain_proposal_id@,
                        relation_type: crate::indexer_ids::VOTE_CAST@,
                        index: plain_value(vote_value(vt->Some_0), ValueType::Text),
                    },
                    block@,
                ))
            }),
    {
        let vote_type = match VoteType::try_from_u64(event.vote_option) {
            Some(v) => v,
            None => {
                return Ok(());
            },
        };
        let space = match Space::find_by_voting_plugin_address(
            &self.kg,
            event.plugin_address.as_str(),
        ) {
            Some(s) => Some(s),
            None => Space::find_by_member_access_plugin(&self.kg, event.plugin_address.as_str()),
        };
        if space.is_none() {
            return Ok(());
        }
        let account_id = Account::gen_id(event.voter.as_str());
        if self.kg.find_entity(account_id.as_str()).is_none() {
            return Ok(());
        }
        let rel = VoteCast::new(account_id.as_str(), event.onchain_proposal_id.as_str(), vote_type);
        self.kg.ingest_relation(
            block,
            crate::indexer_ids::INDEXER_SPACE_ID,
            RelationNode::new(
                rel.attributes.id,
                rel.from,
                rel.to,
                rel.relation_type,
                Value::text(if vote_type == VoteType::Accept {
                    "ACCEPT".to_owned()
                } else {
                    "REJECT".to_owned()
                }),
            ),
        )
    }

    /// Apply the fetched edits in order: each edit's operations run
    /// against its resolved space.
    #[verifier::loop_isolation(false)]
    pub fn handle_edits_published(&mut self, edits: Vec<EditProposal>, block: &BlockMetadata) -> (
        r: Result<(), StoreError>)
        requires
            wf_graph(old(self).kg@),
        ensures
            wf_graph(final (self).kg@),
            r is Ok ==> Some(final (self).kg@) == spec_apply_edits(old(self).kg@, edits@, block@),
            r is Err ==> r == Err::<(), StoreError>(StoreError::Consistency) && spec_apply_edits(
                old(self).kg@,
                edits@,
                block@,
            ) is None && exists|p: int, q: int|
                0 <= p < edits@.len() && 0 <= q <= edits@[p].ops@.len() && (spec_apply_edits(
                    old(self).kg@,
                    edits@.take(p),
                    block@,
                ) matches Some(gm) && Some(final (self).kg@) == spec_process_ops(
                    gm,
                    edits@[p].space@,
                    #[trigger] edits@[p].ops@.take(q),
                    block@,
                )),
    {
        let ghost edits0 = edits@;
        let ghost g0 = self.kg@;
        let mut edits = edits;
        let total = edits.len();
        let mut i: usize = 0;
        proof {
            assert(edits0.take(0) =~= Seq::<EditProposal>::empty());
            assert(edits0.len() == total);
        }
        while edits.len() > 0
            invariant
                wf_graph(self.kg@),
                i + edits@.len() == edits0.len(),
                edits@ == edits0.skip(i as int),
                0 <= i <= edits0.len(),
                Some(self.kg@) == spec_apply_edits(g0, edits0.take(i as int), block@),
            decreases edits@.len(),
        {
            let ghost pre = edits@;
            let edit = edits.remove(0);
            proof {
                assert(edit == edits0[i as int]);
                assert(edits@ =~= edits0.skip(i + 1));
            }
            let ghost pre = self.kg@;
            let ghost opsv = edit.ops@;
            let EditProposal { name, proposal_id, space, space_address, creator, ops } = edit;
            match self.kg.process_ops(block, space.as_str(), ops) {
                Ok(()) => {
                    proof {
                        assert(edits0.take(i + 1).drop_last() =~= edits0.take(i as int));
                        assert(edits0.take(i + 1).last() == edits0[i as int]);
                    }
                    i = i + 1;
                },
                Err(e) => {
                    proof {
                        assert(opsv == edits0[i as int].ops@);
                        assert(space@ == edits0[i as int].space@);
                        assert(spec_process_ops(pre, space@, opsv, block@) is None);
                        assert(edits0.take(i + 1).drop_last() =~= edits0.take(i as int));
                        assert(edits0.take(i + 1).last() == edits0[i as int]);
                        assert(spec_apply_edits(g0, edits0.take(i + 1), block@) is None);
                        lemma_apply_edits_none_extends(g0, edits0, i + 1, block@);
                        let q = choose|q: int|
                            0 <= q <= opsv.len() && Some(self.kg@) == spec_process_ops(
                                pre,
                                space@,
                                #[trigger] opsv.take(q),
                                block@,
                            );
                        assert(0 <= i < edits0.len() && 0 <= q <= edits0[i as int].ops@.len() && (
                        spec_apply_edits(g0, edits0.take(i as int), block@) matches Some(gm)
                            && Some(self.kg@) == spec_process_ops(
                            gm,
                            edits0[i as int].space@,
                            edits0[i as int].ops@.take(q),
                            block@,
                        )));
                    }
                    return Err(e);
                },
            }
        }
        proof {
            assert(edits0.take(edits0.len() as int) =~= edits0);
        }
        Ok(())
    }

    /// Persist the cursor of the last applied bundle: one triple for
    /// the cursor string and one for the block number, both under the
    /// indexer space.
    pub fn persist_cursor(&mut self, block: &BlockMetadata) -> (r: Result<(), StoreError>)
        requires
            wf_graph(old(self).kg@),
        ensures
            wf_graph(final (self).kg@),
            r is Ok ==> Some(final (self).kg@) == spec_persist_cursor(old(self).kg@, block@),
            r is Err ==> r == Err::<(), StoreError>(StoreError::Consistency)
                && spec_persist_cursor(old(self).kg@, block@) is None && (final (self).kg@ == old(
                self,
            ).kg@ || Some(final (self).kg@) == spec_ingest_triple(
                old(self).kg@,
                crate::indexer_ids::INDEXER_SPACE_ID@,
                crate::indexer_ids::CURSOR_ID@,
                crate::indexer_ids::CURSOR_ATTRIBUTE@,
                plain_value(block@.cursor, ValueType::Text),
                block@,
            )),
    {
        match self.kg.insert_triple(
            block,
            crate::indexer_ids::INDEXER_SPACE_ID,
            INGESTION_VERSION,
            INGESTION_VERSION_INDEX,
            Triple::new(
                crate::indexer_ids::CURSOR_ID.to_owned(),
                crate::indexer_ids::CURSOR_ATTRIBUTE.to_owned(),
                Value::text(block.cursor.clone()),
            ),
        ) {
            Ok(()) => {},
            Err(_) => {
                return Err(StoreError::Consistency);
            },
        }
        match self.kg.insert_triple(
            block,
            crate::indexer_ids::INDEXER_SPACE_ID,
            INGESTION_VERSION,
            INGESTION_VERSION_INDEX,
            Triple::new(
                crate::indexer_ids::CURSOR_ID.to_owned(),
                crate::indexer_ids::BLOCK_NUMBER_ATTRIBUTE.to_owned(),
                Value::number(crate::value::u64_to_decimal(block.block_number)),
            ),
        ) {
            Ok(()) => Ok(()),
            Err(_) => Err(StoreError::Consistency),
        }
    }

    /// The cursor of the last applied bundle, if any: the live value
    /// of the cursor triple under the indexer space.
    pub fn cursor(&self) -> (r: Option<&Value>)
        requires
            wf_graph(self.kg@),
        ensures
            ({
                let k = crate::store::TripleKey {
                    entity: crate::indexer_ids::CURSOR_ID@,
                    attribute: crate::indexer_ids::CURSOR_ATTRIBUTE@,
                    space: crate::indexer_ids::INDEXER_SPACE_ID@,
                };
                let live = crate::history::hist_value_at(
                    crate::store::entry_hist(self.kg@.triples, k),
                    None,
                );
                match r {
                    Some(v) => live == Some(v@),
                    None => live is None,
                }
            }),
    {
        self.kg.find_triple(
            crate::indexer_ids::CURSOR_ATTRIBUTE,
            crate::indexer_ids::CURSOR_ID,
            crate::indexer_ids::INDEXER_SPACE_ID,
            None,
        )
    }

    /// The space-shaping phase of a bundle: spaces created, plugin
    /// records and initial editors, in that order.
    #[verifier::loop_isolation(false)]
    #[verifier::rlimit(100)]
    fn process_space_events(
        &mut self,
        block: &BlockMetadata,
        spaces_created: Vec<SpaceCreated>,
        personal_plugins_created: Vec<PersonalPluginCreated>,
        governance_plugins_created: Vec<GovernancePluginCreated>,
        initial_editors_added: Vec<InitialEditorsAdded>,
    ) -> (r: Result<(), StoreError>)
        requires
            wf_graph(old(self).kg@),
        ensures
            wf_graph(final (self).kg@),
            r is Ok ==> Some(final (self).kg@) == match spec_fold_spaces_created(
                old(self).kg@,
                spaces_created@,
                block@,
            ) {
                Some(g1) => match spec_fold_personal_plugins(
                    g1,
                    personal_plugins_created@,
                    block@,
                ) {
                    Some(g2) => match spec_fold_governance_plugins(
                        g2,
                        governance_plugins_created@,
                        block@,
                    ) {
                        Some(g3) => spec_fold_initial_editors(g3, initial_editors_added@, block@),
                        None => None,
                    },
                    None => None,
                },
                None => None,
            },
            r is Err ==> r == Err::<(), StoreError>(StoreError::Consistency) && (match
                spec_fold_spaces_created(old(self).kg@, spaces_created@, block@) {
                Some(g1) => match spec_fold_personal_plugins(g1, personal_plugins_created@, block@) {
                    Some(g2) => match spec_fold_governance_plugins(
                        g2,
                        governance_plugins_created@,
                        block@,
                    ) {
                        Some(g3) => spec_fold_initial_editors(g3, initial_editors_added@, block@),
                        None => None,
                    },
                    None => None,
                },
                None => None,
            }) is None,
    {
        match self.apply_spaces_created(block, spaces_created) {
            Ok(()) => {},
            Err(e) => {
                return Err(e);
            },
        }
        match self.apply_personal_plugins(block, personal_plugins_created) {
            Ok(()) => {},
            Err(e) => {
                return Err(e);
            },
        }
        match self.apply_governance_plugins(block, governance_plugins_created) {
            Ok(()) => {},
            Err(e) => {
                return Err(e);
            },
        }
        self.apply_initial_editors(block, initial_editors_added)
    }

    /// The space-created events of a bundle applied in list order.
    #[verifier::loop_isolation(false)]
    #[verifier::rlimit(100)]
    fn apply_spaces_created(&mut self, block: &BlockMetadata, events: Vec<SpaceCreated>) -> (r: Result<
        (),
        StoreError,
    >)
        requires
            wf_graph(old(self).kg@),
        ensures
            wf_graph(final (self).kg@),
            r is Ok ==> Some(final (self).kg@) == spec_fold_spaces_created(old(self).kg@, events@, block@),
            r is Err ==> r == Err::<(), StoreError>(StoreError::Consistency) && spec_fold_spaces_created(
                old(self).kg@,
                events@,
                block@,
            ) is None,
    {
        let ghost g_start = self.kg@;
        let ghost events0 = events@;
        let total = events.len();
        let mut events = events;
        let mut i: usize = 0;
        proof {
            assert(events0.take(0) =~= Seq::<SpaceCreated>::empty());
            assert(events0.len() == total);
        }
        while events.len() > 0
            invariant
                wf_graph(self.kg@),
                i + events@.len() == events0.len(),
                events@ == events0.skip(i as int),
                0 <= i <= events0.len(),
                Some(self.kg@) == spec_fold_spaces_created(g_start, events0.take(i as int), block@),
            decreases events@.len(),
        {
            let event = events.remove(0);
            proof {
                assert(event == events0[i as int]);
                assert(events@ =~= events0.skip(i + 1));
            }
            let ghost pre = self.kg@;
            match self.handle_space_created(&event, block) {
                Ok(()) => {
                    proof {
                        assert(events0.take(i + 1).drop_last() =~= events0.take(i as int));
                        assert(events0.take(i + 1).last() == events0[i as int]);
                    }
                    i = i + 1;
                },
                Err(e) => {
                    proof {
                        assert(spec_handle_space_created(pre, event.dao_address@, event.space_address@, block@) is None);
                        assert(events0.take(i + 1).drop_last() =~= events0.take(i as int));
                        assert(events0.take(i + 1).last() == events0[i as int]);
                        assert(spec_fold_spaces_created(g_start, events0.take(i + 1), block@) is None);
                        lemma_fold_spaces_created_none_extends(g_start, events0, i + 1, block@);
                    }
                    return Err(e);
                },
            }
        }
        proof {
            assert(events0.take(events0.len() as int) =~= events0);
        }
        Ok(())
    }

    /// The personal-plugin events of a bundle applied in list order.
    #[verifier::loop_isolation(false)]
    #[verifier::rlimit(100)]
    fn apply_personal_plugins(&mut self, block: &BlockMetadata, events: Vec<PersonalPluginCreated>) -> (r: Result<
        (),
        StoreError,
    >)
        requires
            wf_graph(old(self).kg@),
        ensures
            wf_graph(final (self).kg@),
            r is Ok ==> Some(final (self).kg@) == spec_fold_personal_plugins(old(self).kg@, events@, block@),
            r is Err ==> r == Err::<(), StoreError>(StoreError::Consistency) && spec_fold_personal_plugins(
                old(self).kg@,
                events@,
                block@,
            ) is None,
    {
        let ghost g_start = self.kg@;
        let ghost events0 = events@;
        let total = events.len();
        let mut events = events;
        let mut i: usize = 0;
        proof {
            assert(events0.take(0) =~= Seq::<PersonalPluginCreated>::empty());
            assert(events0.len() == total);
        }
        while events.len() > 0
            invariant
                wf_graph(self.kg@),
                i + events@.len() == events0.len(),
                events@ == events0.skip(i as int),
                0 <= i <= events0.len(),
                Some(self.kg@) == spec_fold_personal_plugins(g_start, events0.take(i as int), block@),
            decreases events@.len(),
        {
            let event = events.remove(0);
            proof {
                assert(event == events0[i as int]);
                assert(events@ =~= events0.skip(i + 1));
            }
            let ghost pre = self.kg@;
            match self.handle_personal_space_created(&event, block) {
                Ok(()) => {
                    proof {
                        assert(events0.take(i + 1).drop_last() =~= events0.take(i as int));
                        assert(events0.take(i + 1).last() == events0[i as int]);
                    }
                    i = i + 1;
                },
                Err(e) => {
                    proof {
                        assert(spec_handle_personal_plugin(pre, event.dao_address@, event.personal_admin_address@, block@) is None);
                        assert(events0.take(i + 1).drop_last() =~= events0.take(i as int));
                        assert(events0.take(i + 1).last() == events0[i as int]);
                        assert(spec_fold_personal_plugins(g_start, events0.take(i + 1), block@) is None);
                        lemma_fold_personal_plugins_none_extends(g_start, events0, i + 1, block@);
                    }
                    return Err(e);
                },
            }
        }
        proof {
            assert(events0.take(events0.len() as int) =~= events0);
        }
        Ok(())
    }

    /// The governance-plugin events of a bundle applied in list order.
    #[verifier::loop_isolation(false)]
    #[verifier::rlimit(100)]
    fn apply_governance_plugins(&mut self, block: &BlockMetadata, events: Vec<GovernancePluginCreated>) -> (r: Result<
        (),
        StoreError,
    >)
        requires
            wf_graph(old(self).kg@),
        ensures
            wf_graph(final (self).kg@),
            r is Ok ==> Some(final (self).kg@) == spec_fold_governance_plugins(old(self).kg@, events@, block@),
            r is Err ==> r == Err::<(), StoreError>(StoreError::Consistency) && spec_fold_governance_plugins(
                old(self).kg@,
                events@,
                block@,
            ) is None,
    {
        let ghost g_start = self.kg@;
        let ghost events0 = events@;
        let total = events.len();
        let mut events = events;
        let mut i: usize = 0;
        proof {
            assert(events0.take(0) =~= Seq::<GovernancePluginCreated>::empty());
            assert(events0.len() == total);
        }
        while events.len() > 0
            invariant
                wf_graph(self.kg@),
                i + events@.len() == events0.len(),
                events@ == events0.skip(i as int),
                0 <= i <= events0.len(),
                Some(self.kg@) == spec_fold_governance_plugins(g_start, events0.take(i as int), block@),
            decreases events@.len(),
        {
            let event = events.remove(0);
            proof {
                assert(event == events0[i as int]);
                assert(events@ =~= events0.skip(i + 1));
            }
            let ghost pre = self.kg@;
            match self.handle_governance_plugin_created(&event, block) {
                Ok(()) => {
                    proof {
                        assert(events0.take(i + 1).drop_last() =~= events0.take(i as int));
                        assert(events0.take(i + 1).last() == events0[i as int]);
                    }
                    i = i + 1;
                },
                Err(e) => {
                    proof {
                        assert(spec_handle_governance_plugin(pre, event.dao_address@, event.main_voting_address@, event.member_access_address@, block@) is None);
                        assert(events0.take(i + 1).drop_last() =~= events0.take(i as int));
                        assert(events0.take(i + 1).last() == events0[i as int]);
                        assert(spec_fold_governance_plugins(g_start, events0.take(i + 1), block@) is None);
                        lemma_fold_governance_plugins_none_extends(g_start, events0, i + 1, block@);
                    }
                    return Err(e);
                },
            }
        }
        proof {
            assert(events0.take(events0.len() as int) =~= events0);
        }
        Ok(())
    }

    /// The initial-editor events of a bundle applied in list order.
    #[verifier::loop_isolation(false)]
    #[verifier::rlimit(100)]
    fn apply_initial_editors(&mut self, block: &BlockMetadata, events: Vec<InitialEditorsAdded>) -> (r: Result<
        (),
        StoreError,
    >)
        requires
            wf_graph(old(self).kg@),
        ensures
            wf_graph(final (self).kg@),
            r is Ok ==> Some(final (self).kg@) == spec_fold_initial_editors(old(self).kg@, events@, block@),
            r is Err ==> r == Err::<(), StoreError>(StoreError::Consistency) && spec_fold_initial_editors(
                old(self).kg@,
                events@,
                block@,
            ) is None,
    {
        let ghost g_start = self.kg@;
        let ghost events0 = events@;
        let total = events.len();
        let mut events = events;
        let mut i: usize = 0;
        proof {
            assert(events0.take(0) =~= Seq::<InitialEditorsAdded>::empty());
            assert(events0.len() == total);
        }
        while events.len() > 0
            invariant
                wf_graph(self.kg@),
                i + events@.len() == events0.len(),
                events@ == events0.skip(i as int),
                0 <= i <= events0.len(),
                Some(self.kg@) == spec_fold_initial_editors(g_start, events0.take(i as int), block@),
            decreases events@.len(),
        {
            let event = events.remove(0);
            proof {
                assert(event == events0[i as int]);
                assert(events@ =~= events0.skip(i + 1));
            }
            let ghost pre = self.kg@;
            match self.handle_initial_space_editors_added(&event, block) {
                Ok(()) => {
                    proof {
                        assert(events0.take(i + 1).drop_last() =~= events0.take(i as int));
                        assert(events0.take(i + 1).last() == events0[i as int]);
                    }
                    i = i + 1;
                },
                Err(e) => {
                    proof {
                        assert(spec_handle_initial_editors(pre, event, block@) is None);
                        assert(events0.take(i + 1).drop_last() =~= events0.take(i as int));
                        assert(events0.take(i + 1).last() == events0[i as int]);
                        assert(spec_fold_initial_editors(g_start, events0.take(i + 1), block@) is None);
                        lemma_fold_initial_editors_none_extends(g_start, events0, i + 1, block@);
                    }
                    return Err(e);
                },
            }
        }
        proof {
            assert(events0.take(events0.len() as int) =~= events0);
        }
        Ok(())
    }

    /// The member phase of a bundle: members added, then removed.
    #[verifier::loop_isolation(false)]
    #[verifier::rlimit(100)]
    fn process_member_events(
        &mut self,
        block: &BlockMetadata,
        added: Vec<MembershipChange>,
        removed: Vec<MembershipChange>,
    ) -> (r: Result<(), StoreError>)
        requires
            wf_graph(old(self).kg@),
        ensures
            wf_graph(final (self).kg@),
            r is Ok ==> Some(final (self).kg@) == match spec_fold_membership(
                old(self).kg@,
                added@,
                false,
                true,
                block@,
            ) {
                Some(g1) => spec_fold_membership(g1, removed@, false, false, block@),
                None => None,
            },
            r is Err ==> r == Err::<(), StoreError>(StoreError::Consistency) && (match
                spec_fold_membership(old(self).kg@, added@, false, true, block@) {
                Some(g1) => spec_fold_membership(g1, removed@, false, false, block@),
                None => None,
            }) is None,
    {
        let ghost g_start = self.kg@;
        let ghost added0 = added@;
        let total_added = added.len();
        let mut added = added;
        let mut i_added: usize = 0;
        proof {
            assert(added0.take(0) =~= Seq::<MembershipChange>::empty());
            assert(added0.len() == total_added);
        }
        while added.len() > 0
            invariant
                wf_graph(self.kg@),
                i_added + added@.len() == added0.len(),
                added@ == added0.skip(i_added as int),
                0 <= i_added <= added0.len(),
                Some(self.kg@) == spec_fold_membership(g_start, added0.take(i_added as int), false, true, block@),
            decreases added@.len(),
        {
            let event = added.remove(0);
            proof {
                assert(event == added0[i_added as int]);
                assert(added@ =~= added0.skip(i_added + 1));
            }
            let ghost pre = self.kg@;
            match self.handle_member_added(&event, block) {
                Ok(()) => {
                    proof {
                        assert(added0.take(i_added + 1).drop_last() =~= added0.take(
                            i_added as int,
                        ));
                        assert(added0.take(i_added + 1).last() == added0[i_added as int]);
                    }
                    i_added = i_added + 1;
                },
                Err(e) => {
                    proof {
                        assert(spec_handle_membership_added(pre, event, false, block@) is None);
                        assert(added0.take(i_added + 1).drop_last() =~= added0.take(i_added as int));
                        assert(added0.take(i_added + 1).last() == added0[i_added as int]);
                        assert(spec_fold_membership(
                            g_start,
                            added0.take(i_added + 1),
                            false,
                            true,
                            block@,
                        ) is None);
                        lemma_fold_membership_none_extends(
                            g_start,
                            added0,
                            false,
                            true,
                            i_added + 1,
                            block@,
                        );
                    }
                    return Err(e);
                },
            }
        }
        proof {
            assert(added0.take(added0.len() as int) =~= added0);
        }
        let ghost g1 = self.kg@;
        let ghost removed0 = removed@;
        let total_removed = removed.len();
        let mut removed = removed;
        let mut i_removed: usize = 0;
        proof {
            assert(removed0.take(0) =~= Seq::<MembershipChange>::empty());
            assert(removed0.len() == total_removed);
        }
        while removed.len() > 0
            invariant
                wf_graph(self.kg@),
                i_removed + removed@.len() == removed0.len(),
                removed@ == removed0.skip(i_removed as int),
                0 <= i_removed <= removed0.len(),
                Some(self.kg@) == spec_fold_membership(g1, removed0.take(i_removed as int), false, false, block@),
            decreases removed@.len(),
        {
            let event = removed.remove(0);
            proof {
                assert(event == removed0[i_removed as int]);
                assert(removed@ =~= removed0.skip(i_removed + 1));
            }
            let ghost pre = self.kg@;
            match self.handle_member_removed(&event, block) {
                Ok(()) => {
                    proof {
                        assert(removed0.take(i_removed + 1).drop_last() =~= removed0.take(
                            i_removed as int,
                        ));
                        assert(removed0.take(i_removed + 1).last() == removed0[i_removed as int]);
                    }
                    i_removed = i_removed + 1;
                },
                Err(e) => {
                    proof {
                        assert(spec_handle_membership_removed(pre, event, false, block@) is None);
                        assert(removed0.take(i_removed + 1).drop_last() =~= removed0.take(
                            i_removed as int,
                        ));
                        assert(removed0.take(i_removed + 1).last() == removed0[i_removed as int]);
                        assert(spec_fold_membership(
                            g1,
                            removed0.take(i_removed + 1),
                            false,
                            false,
                            block@,
                        ) is None);
                        lemma_fold_membership_none_extends(
                            g1,
                            removed0,
                            false,
                            false,
                            i_removed + 1,
                            block@,
                        );
                    }
                    return Err(e);
                },
            }
        }
        proof {
            assert(removed0.take(removed0.len() as int) =~= removed0);
        }
        let ghost g2 = self.kg@;
        Ok(())
    }

    /// The editor phase of a bundle: editors added, then removed.
    #[verifier::loop_isolation(false)]
    #[verifier::rlimit(100)]
    fn process_editor_events(
        &mut self,
        block: &BlockMetadata,
        added: Vec<MembershipChange>,
        removed: Vec<MembershipChange>,
    ) -> (r: Result<(), StoreError>)
        requires
            wf_graph(old(self).kg@),
        ensures
            wf_graph(final (self).kg@),
            r is Ok ==> Some(final (self).kg@) == match spec_fold_membership(
                old(self).kg@,
                added@,
                true,
                true,
                block@,
            ) {
                Some(g1) => spec_fold_membership(g1, removed@, true, false, block@),
                None => None,
            },
            r is Err ==> r == Err::<(), StoreError>(StoreError::Consistency) && (match
                spec_fold_membership(old(self).kg@, added@, true, true, block@) {
                Some(g1) => spec_fold_membership(g1, removed@, true, false, block@),
                None => None,
            }) is None,
    {
        let ghost g_start = self.kg@;
        let ghost added0 = added@;
        let total_added = added.len();
        let mut added = added;
        let mut i_added: usize = 0;
        proof {
            assert(added0.take(0) =~= Seq::<MembershipChange>::empty());
            assert(added0.len() == total_added);
        }
        while added.len() > 0
            invariant
                wf_graph(self.kg@),
                i_added + added@.len() == added0.len(),
                added@ == added0.skip(i_added as int),
                0 <= i_added <= added0.len(),
                Some(self.kg@) == spec_fold_membership(g_start, added0.take(i_added as int), true, true, block@),
            decreases added@.len(),
        {
            let event = added.remove(0);
            proof {
                assert(event == added0[i_added as int]);
                assert(added@ =~= added0.skip(i_added + 1));
            }
            let ghost pre = self.kg@;
            match self.handle_editor_added(&event, block) {
                Ok(()) => {
                    proof {
                        assert(added0.take(i_added + 1).drop_last() =~= added0.take(
                            i_added as int,
                        ));
                        assert(added0.take(i_added + 1).last() == added0[i_added as int]);
                    }
                    i_added = i_added + 1;
                },
                Err(e) => {
                    proof {
                        assert(spec_handle_membership_added(pre, event, true, block@) is None);
                        assert(added0.take(i_added + 1).drop_last() =~= added0.take(i_added as int));
                        assert(added0.take(i_added + 1).last() == added0[i_added as int]);
                        assert(spec_fold_membership(
                            g_start,
                            added0.take(i_added + 1),
                            true,
                            true,
                            block@,
                        ) is None);
                        lemma_fold_membership_none_extends(
                            g_start,
                            added0,
                            true,
                            true,
                            i_added + 1,
                            block@,
                        );
                    }
                    return Err(e);
                },
            }
        }
        proof {
            assert(added0.take(added0.len() as int) =~= added0);
        }
        let ghost g1 = self.kg@;
        let ghost removed0 = removed@;
        let total_removed = removed.len();
        let mut removed = removed;
        let mut i_removed: usize = 0;
        proof {
            assert(removed0.take(0) =~= Seq::<MembershipChange>::empty());
            assert(removed0.len() == total_removed);
        }
        while removed.len() > 0
            invariant
                wf_graph(self.kg@),
                i_removed + removed@.len() == removed0.len(),
                removed@ == removed0.skip(i_removed as int),
                0 <= i_removed <= removed0.len(),
                Some(self.kg@) == spec_fold_membership(g1, removed0.take(i_removed as int), true, false, block@),
            decreases removed@.len(),
        {
            let event = removed.remove(0);
            proof {
                assert(event == removed0[i_removed as int]);
                assert(removed@ =~= removed0.skip(i_removed + 1));
            }
            let ghost pre = self.kg@;
            match self.handle_editor_removed(&event, block) {
                Ok(()) => {
                    proof {
                        assert(removed0.take(i_removed + 1).drop_last() =~= removed0.take(
                            i_removed as int,
                        ));
                        assert(removed0.take(i_removed + 1).last() == removed0[i_removed as int]);
                    }
                    i_removed = i_removed + 1;
                },
                Err(e) => {
                    proof {
                        assert(spec_handle_membership_removed(pre, event, true, block@) is None);
                        assert(removed0.take(i_removed + 1).drop_last() =~= removed0.take(
                            i_removed as int,
                        ));
                        assert(removed0.take(i_removed + 1).last() == removed0[i_removed as int]);
                        assert(spec_fold_membership(
                            g1,
                            removed0.take(i_removed + 1),
                            true,
                            false,
                            block@,
                        ) is None);
                        lemma_fold_membership_none_extends(
                            g1,
                            removed0,
                            true,
                            false,
                            i_removed + 1,
                            block@,
                        );
                    }
                    return Err(e);
                },
            }
        }
        proof {
            assert(removed0.take(removed0.len() as int) =~= removed0);
        }
        let ghost g2 = self.kg@;
        Ok(())
    }

    /// The hierarchy and voting phase of a bundle: subspace links and
    /// votes, in that order.
    #[verifier::loop_isolation(false)]
    #[verifier::rlimit(100)]
    fn process_hierarchy_events(
        &mut self,
        block: &BlockMetadata,
        subspaces_added: Vec<SubspaceChange>,
        subspaces_removed: Vec<SubspaceChange>,
        votes_cast: Vec<VoteCastEvent>,
    ) -> (r: Result<(), StoreError>)
        requires
            wf_graph(old(self).kg@),
        ensures
            wf_graph(final (self).kg@),
            r is Ok ==> Some(final (self).kg@) == match spec_fold_subspaces(
                old(self).kg@,
                subspaces_added@,
                true,
                block@,
            ) {
                Some(g1) => match spec_fold_subspaces(g1, subspaces_removed@, false, block@) {
                    Some(g2) => spec_fold_votes(g2, votes_cast@, block@),
                    None => None,
                },
                None => None,
            },
            r is Err ==> r == Err::<(), StoreError>(StoreError::Consistency) && (match
                spec_fold_subspaces(old(self).kg@, subspaces_added@, true, block@) {
                Some(g1) => match spec_fold_subspaces(g1, subspaces_removed@, false, block@) {
                    Some(g2) => spec_fold_votes(g2, votes_cast@, block@),
                    None => None,
                },
                None => None,
            }) is None,
    {
        let ghost g_start = self.kg@;
        let ghost subspaces_added0 = subspaces_added@;
        let total_subspaces_added = subspaces_added.len();
        let mut subspaces_added = subspaces_added;
        let mut i_subspaces_added: usize = 0;
        proof {
            assert(subspaces_added0.take(0) =~= Seq::<SubspaceChange>::empty());
            assert(subspaces_added0.len() == total_subspaces_added);
        }
        while subspaces_added.len() > 0
            invariant
                wf_graph(self.kg@),
                i_subspaces_added + subspaces_added@.len() == subspaces_added0.len(),
                subspaces_added@ == subspaces_added0.skip(i_subspaces_added as int),
                0 <= i_subspaces_added <= subspaces_added0.len(),
                Some(self.kg@) == spec_fold_subspaces(g_start, subspaces_added0.take(i_subspaces_added as int), true, block@),
            decreases subspaces_added@.len(),
        {
            let event = subspaces_added.remove(0);
            proof {
                assert(event == subspaces_added0[i_subspaces_added as int]);
                assert(subspaces_added@ =~= subspaces_added0.skip(i_subspaces_added + 1));
            }
            let ghost pre = self.kg@;
            match self.handle_subspace_added(&event, block) {
                Ok(()) => {
                    proof {
                        assert(subspaces_added0.take(i_subspaces_added + 1).drop_last() =~= subspaces_added0.take(
                            i_subspaces_added as int,
                        ));
                        assert(subspaces_added0.take(i_subspaces_added + 1).last() == subspaces_added0[i_subspaces_added as int]);
                    }
                    i_subspaces_added = i_subspaces_added + 1;
                },
                Err(e) => {
                    proof {
                        assert(spec_handle_subspace_link(pre, event, block@) is None);
                        assert(subspaces_added0.take(i_subspaces_added + 1).drop_last()
                            =~= subspaces_added0.take(i_subspaces_added as int));
                        assert(subspaces_added0.take(i_subspaces_added + 1).last()
                            == subspaces_added0[i_subspaces_added as int]);
                        assert(spec_fold_subspaces(
                            g_start,
                            subspaces_added0.take(i_subspaces_added + 1),
                            true,
                            block@,
                        ) is None);
                        lemma_fold_subspaces_none_extends(
                            g_start,
                            subspaces_added0,
                            true,
                            i_subspaces_added + 1,
                            block@,
                        );
                    }
                    return Err(e);
                },
            }
        }
        proof {
            assert(subspaces_added0.take(subspaces_added0.len() as int) =~= subspaces_added0);
        }
        let ghost g1 = self.kg@;
        let ghost subspaces_removed0 = subspaces_removed@;
        let total_subspaces_removed = subspaces_removed.len();
        let mut subspaces_removed = subspaces_removed;
        let mut i_subspaces_removed: usize = 0;
        proof {
            assert(subspaces_removed0.take(0) =~= Seq::<SubspaceChange>::empty());
            assert(subspaces_removed0.len() == total_subspaces_removed);
        }
        while subspaces_removed.len() > 0
            invariant
                wf_graph(self.kg@),
                i_subspaces_removed + subspaces_removed@.len() == subspaces_removed0.len(),
                subspaces_removed@ == subspaces_removed0.skip(i_subspaces_removed as int),
                0 <= i_subspaces_removed <= subspaces_removed0.len(),
                Some(self.kg@) == spec_fold_subspaces(g1, subspaces_removed0.take(i_subspaces_removed as int), false, block@),
            decreases subspaces_removed@.len(),
        {
            let event = subspaces_removed.remove(0);
            proof {
                assert(event == subspaces_removed0[i_subspaces_removed as int]);
                assert(subspaces_removed@ =~= subspaces_removed0.skip(i_subspaces_removed + 1));
            }
            let ghost pre = self.kg@;
            match self.handle_subspace_removed(&event, block) {
                Ok(()) => {
                    proof {
                        assert(subspaces_removed0.take(i_subspaces_removed + 1).drop_last() =~= subspaces_removed0.take(
                            i_subspaces_removed as int,
                        ));
                        assert(subspaces_removed0.take(i_subspaces_removed + 1).last() == subspaces_removed0[i_subspaces_removed as int]);
                    }
                    i_subspaces_removed = i_subspaces_removed + 1;
                },
                Err(e) => {
                    proof {
                        assert(spec_handle_subspace_unlink(pre, event, block@) is None);
                        assert(subspaces_removed0.take(i_subspaces_removed + 1).drop_last()
                            =~= subspaces_removed0.take(i_subspaces_removed as int));
                        assert(subspaces_removed0.take(i_subspaces_removed + 1).last()
                            == subspaces_removed0[i_subspaces_removed as int]);
                        assert(spec_fold_subspaces(
                            g1,
                            subspaces_removed0.take(i_subspaces_removed + 1),
                            false,
                            block@,
                        ) is None);
                        lemma_fold_subspaces_none_extends(
                            g1,
                            subspaces_removed0,
                            false,
                            i_subspaces_removed + 1,
                            block@,
                        );
                    }
                    return Err(e);
                },
            }
        }
        proof {
            assert(subspaces_removed0.take(subspaces_removed0.len() as int) =~= subspaces_removed0);
        }
        let ghost g2 = self.kg@;
        let ghost votes_cast0 = votes_cast@;
        let total_votes_cast = votes_cast.len();
        let mut votes_cast = votes_cast;
        let mut i_votes_cast: usize = 0;
        proof {
            assert(votes_cast0.take(0) =~= Seq::<VoteCastEvent>::empty());
            assert(votes_cast0.len() == total_votes_cast);
        }
        while votes_cast.len() > 0
            invariant
                wf_graph(self.kg@),
                i_votes_cast + votes_cast@.len() == votes_cast0.len(),
                votes_cast@ == votes_cast0.skip(i_votes_cast as int),
                0 <= i_votes_cast <= votes_cast0.len(),
                Some(self.kg@) == spec_fold_votes(g2, votes_cast0.take(i_votes_cast as int), block@),
            decreases votes_cast@.len(),
        {
            let event = votes_cast.remove(0);
            proof {
                assert(event == votes_cast0[i_votes_cast as int]);
                assert(votes_cast@ =~= votes_cast0.skip(i_votes_cast + 1));
            }
            let ghost pre = self.kg@;
            match self.handle_vote_cast(&event, block) {
                Ok(()) => {
                    proof {
                        assert(votes_cast0.take(i_votes_cast + 1).drop_last() =~= votes_cast0.take(
                            i_votes_cast as int,
                        ));
                        assert(votes_cast0.take(i_votes_cast + 1).last() == votes_cast0[i_votes_cast as int]);
                    }
                    i_votes_cast = i_votes_cast + 1;
                },
                Err(e) => {
                    proof {
                        assert(spec_handle_vote(pre, event, block@) is None);
                        assert(votes_cast0.take(i_votes_cast + 1).drop_last() =~= votes_cast0.take(
                            i_votes_cast as int,
                        ));
                        assert(votes_cast0.take(i_votes_cast + 1).last()
                            == votes_cast0[i_votes_cast as int]);
                        assert(spec_fold_votes(
                            g2,
                            votes_cast0.take(i_votes_cast + 1),
                            block@,
                        ) is None);
                        lemma_fold_votes_none_extends(g2, votes_cast0, i_votes_cast + 1, block@);
                    }
                    return Err(e);
                },
            }
        }
        proof {
            assert(votes_cast0.take(votes_cast0.len() as int) =~= votes_cast0);
        }
        let ghost g3 = self.kg@;
        Ok(())
    }

    /// Apply one block bundle: the event categories run in their
    /// fixed order, and the cursor advances only when every category
    /// applied. A consistency error aborts the bundle with the cursor
    /// unmoved; the mutations already applied are harmless to replay.
    pub fn process_block(&mut self, bundle: BlockBundle) -> (r: Result<(), StoreError>)
        requires
            wf_graph(old(self).kg@),
        ensures
            wf_graph(final (self).kg@),
            r is Ok ==> Some(final (self).kg@) == spec_process_block(old(self).kg@, bundle),
            r is Err ==> r == Err::<(), StoreError>(StoreError::Consistency)
                && spec_process_block(old(self).kg@, bundle) is None,
    {
        let ghost g0 = self.kg@;
        let ghost b0 = bundle;
        let BlockBundle {
            block,
            spaces_created,
            personal_plugins_created,
            governance_plugins_created,
            initial_editors_added,
            members_added,
            members_removed,
            editors_added,
            editors_removed,
            subspaces_added,
            subspaces_removed,
            votes_cast,
            edits,
        } = bundle;
        match self.process_space_events(
            &block,
            spaces_created,
            personal_plugins_created,
            governance_plugins_created,
            initial_editors_added,
        ) {
            Ok(()) => {},
            Err(e) => {
                proof {
                    assert(spec_process_block(g0, b0) is None);
                }
                return Err(e);
            },
        }
        let ghost gs1 = self.kg@;
        match self.process_member_events(&block, members_added, members_removed) {
            Ok(()) => {},
            Err(e) => {
                proof {
                    assert(spec_process_block(g0, b0) is None);
                }
                return Err(e);
            },
        }
        let ghost gs2 = self.kg@;
        match self.process_editor_events(&block, editors_added, editors_removed) {
            Ok(()) => {},
            Err(e) => {
                proof {
                    assert(spec_process_block(g0, b0) is None);
                }
                return Err(e);
            },
        }
        let ghost gs3 = self.kg@;
        match self.process_hierarchy_events(&block, subspaces_added, subspaces_removed, votes_cast)
        {
            Ok(()) => {},
            Err(e) => {
                proof {
                    assert(spec_process_block(g0, b0) is None);
                }
                return Err(e);
            },
        }
        let ghost gs4 = self.kg@;
        match self.handle_edits_published(edits, &block) {
            Ok(()) => {},
            Err(e) => {
                proof {
                    assert(spec_process_block(g0, b0) is None);
                }
                return Err(e);
            },
        }
        let ghost gs5 = self.kg@;
        let r = self.persist_cursor(&block);
        proof {
            if r is Err {
                assert(spec_process_block(g0, b0) is None);
            }
        }
        r
    }
}

/// One category folded over its events; a rejected mutation aborts.
pub open spec fn spec_fold_spaces_created(
    g: KnowledgeGraphView,
    events: Seq<SpaceCreated>,
    block: crate::block::BlockMetadataView,
) -> Option<KnowledgeGraphView>
    decreases events.len(),
{
    if events.len() == 0 {
        Some(g)
    } else {
        match spec_fold_spaces_created(g, events.drop_last(), block) {
            Some(g1) => spec_handle_space_created(
                g1,
                events.last().dao_address@,
                events.last().space_address@,
                block,
            ),
            None => None,
        }
    }
}

/// The personal plugin events folded in order.
pub open spec fn spec_fold_personal_plugins(
    g: KnowledgeGraphView,
    events: Seq<PersonalPluginCreated>,
    block: crate::block::BlockMetadataView,
) -> Option<KnowledgeGraphView>
    decreases events.len(),
{
    if events.len() == 0 {
        Some(g)
    } else {
        match spec_fold_personal_plugins(g, events.drop_last(), block) {
            Some(g1) => spec_handle_personal_plugin(
                g1,
                events.last().dao_address@,
                events.last().personal_admin_address@,
                block,
            ),
            None => None,
        }
    }
}

/// The governance plugin events folded in order.
pub open spec fn spec_fold_governance_plugins(
    g: KnowledgeGraphView,
    events: Seq<GovernancePluginCreated>,
    block: crate::block::BlockMetadataView,
) -> Option<KnowledgeGraphView>
    decreases events.len(),
{
    if events.len() == 0 {
        Some(g)
    } else {
        match spec_fold_governance_plugins(g, events.drop_last(), block) {
            Some(g1) => spec_handle_governance_plugin(
                g1,
                events.last().dao_address@,
                events.last().main_voting_address@,
                events.last().member_access_address@,
                block,
            ),
            None => None,
        }
    }
}

/// One initial-editors event: the whole address list attached, or
/// nothing where the space is unknown.
pub open spec fn spec_handle_initial_editors(
    g: KnowledgeGraphView,
    event: InitialEditorsAdded,
    block: crate::block::BlockMetadataView,
) -> Option<KnowledgeGraphView> {
    if crate::graph::entities_has(g.entities, space_id_of_dao(event.dao_address@)) {
        spec_add_editors(
            g,
            event.addresses@.map_values(|a: String| a@),
            space_id_of_dao(event.dao_address@),
            block,
        )
    } else {
        Some(g)
    }
}

/// The initial-editors events folded in order.
pub open spec fn spec_fold_initial_editors(
    g: KnowledgeGraphView,
    events: Seq<InitialEditorsAdded>,
    block: crate::block::BlockMetadataView,
) -> Option<KnowledgeGraphView>
    decreases events.len(),
{
    if events.len() == 0 {
        Some(g)
    } else {
        match spec_fold_initial_editors(g, events.drop_last(), block) {
            Some(g1) => spec_handle_initial_editors(g1, events.last(), block),
            None => None,
        }
    }
}

/// One membership attachment: the account and its relation, or
/// nothing where the space is unknown.
pub open spec fn spec_handle_membership_added(
    g: KnowledgeGraphView,
    event: MembershipChange,
    editor: bool,
    block: crate::block::BlockMetadataView,
) -> Option<KnowledgeGraphView> {
    if crate::graph::entities_has(g.entities, space_id_of_dao(event.dao_address@)) {
        spec_add_account_relation(
            g,
            event.account_address@,
            space_id_of_dao(event.dao_address@),
            editor,
            block,
        )
    } else {
        Some(g)
    }
}

/// One membership retirement.
pub open spec fn spec_handle_membership_removed(
    g: KnowledgeGraphView,
    event: MembershipChange,
    editor: bool,
    block: crate::block::BlockMetadataView,
) -> Option<KnowledgeGraphView> {
    let prefix = if editor {
        "EDITOR:"@
    } else {
        "MEMBER:"@
    };
    spec_ingest_delete_relation(
        g,
        crate::indexer_ids::INDEXER_SPACE_ID@,
        crate::ids::derived_id(
            prefix + space_id_of_dao(event.dao_address@) + ":"@ + crate::ids::derived_id(
                crate::ids::normal_address(event.account_address@),
            ),
        ),
        block,
    )
}

/// A membership category folded in order.
pub open spec fn spec_fold_membership(
    g: KnowledgeGraphView,
    events: Seq<MembershipChange>,
    editor: bool,
    added: bool,
    block: crate::block::BlockMetadataView,
) -> Option<KnowledgeGraphView>
    decreases events.len(),
{
    if events.len() == 0 {
        Some(g)
    } else {
        match spec_fold_membership(g, events.drop_last(), editor, added, block) {
            Some(g1) => if added {
                spec_handle_membership_added(g1, events.last(), editor, block)
            } else {
                spec_handle_membership_removed(g1, events.last(), editor, block)
            },
            None => None,
        }
    }
}

/// One subspace attachment.
pub open spec fn spec_handle_subspace_link(
    g: KnowledgeGraphView,
    event: SubspaceChange,
    block: crate::block::BlockMetadataView,
) -> Option<KnowledgeGraphView> {
    match subspace_parent(g, event.plugin_address@) {
        Some(parent) => {
            let sub = space_id_of_dao(event.subspace_dao_address@);
            if crate::graph::entities_has(g.entities, sub) {
                spec_ingest_relation(
                    g,
                    crate::indexer_ids::INDEXER_SPACE_ID@,
                    crate::ids::derived_id("PARENT_SPACE:"@ + sub + ":"@ + parent),
                    parent_space_payload(sub, parent),
                    block,
                )
            } else {
                Some(g)
            }
        },
        None => Some(g),
    }
}

/// One subspace retirement.
pub open spec fn spec_handle_subspace_unlink(
    g: KnowledgeGraphView,
    event: SubspaceChange,
    block: crate::block::BlockMetadataView,
) -> Option<KnowledgeGraphView> {
    match subspace_parent(g, event.plugin_address@) {
        Some(parent) => {
            let sub = space_id_of_dao(event.subspace_dao_address@);
            spec_ingest_delete_relation(
                g,
                crate::indexer_ids::INDEXER_SPACE_ID@,
                crate::ids::derived_id("PARENT_SPACE:"@ + sub + ":"@ + parent),
                block,
            )
        },
        None => Some(g),
    }
}

/// A subspace category folded in order.
pub open spec fn spec_fold_subspaces(
    g: KnowledgeGraphView,
    events: Seq<SubspaceChange>,
    added: bool,
    block: crate::block::BlockMetadataView,
) -> Option<KnowledgeGraphView>
    decreases events.len(),
{
    if events.len() == 0 {
        Some(g)
    } else {
        match spec_fold_subspaces(g, events.drop_last(), added, block) {
            Some(g1) => if added {
                spec_handle_subspace_link(g1, events.last(), block)
            } else {
                spec_handle_subspace_unlink(g1, events.last(), block)
            },
            None => None,
        }
    }
}

/// One vote: the relation recorded, or nothing where the option, the
/// space or the account is unknown.
pub open spec fn spec_handle_vote(
    g: KnowledgeGraphView,
    event: VoteCastEvent,
    block: crate::block::BlockMetadataView,
) -> Option<KnowledgeGraphView> {
    match crate::models::vote_type_of(event.vote_option) {
        Some(vt) => {
            let account = crate::ids::derived_id(crate::ids::normal_address(event.voter@));
            match vote_space(g, event.plugin_address@) {
                Some(_) => {
                    if crate::graph::entities_has(g.entities, account) {
                        spec_ingest_relation(
                            g,
                            crate::indexer_ids::INDEXER_SPACE_ID@,
                            crate::ids::derived_id(account + "-"@ + event.onchain_proposal_id@),
                            RelPayloadView {
                                from: account,
                                to: event.onchain_proposal_id@,
                                relation_type: crate::indexer_ids::VOTE_CAST@,
                                index: plain_value(vote_value(vt), ValueType::Text),
                            },
                            block,
                        )
                    } else {
                        Some(g)
                    }
                },
                None => Some(g),
            }
        },
        None => Some(g),
    }
}

/// The votes folded in order.
pub open spec fn spec_fold_votes(
    g: KnowledgeGraphView,
    events: Seq<VoteCastEvent>,
    block: crate::block::BlockMetadataView,
) -> Option<KnowledgeGraphView>
    decreases events.len(),
{
    if events.len() == 0 {
        Some(g)
    } else {
        match spec_fold_votes(g, events.drop_last(), block) {
            Some(g1) => spec_handle_vote(g1, events.last(), block),
            None => None,
        }
    }
}

/// A rejected prefix rejects the whole category, for each category
/// fold in turn.
proof fn lemma_fold_spaces_created_none_extends(
    g: KnowledgeGraphView,
    events: Seq<SpaceCreated>,
    p: int,
    block: crate::block::BlockMetadataView,
)
    requires
        0 <= p <= events.len(),
        spec_fold_spaces_created(g, events.take(p), block) is None,
    ensures
        spec_fold_spaces_created(g, events, block) is None,
    decreases events.len(),
{
    if p == events.len() {
        assert(events.take(p) =~= events);
    } else {
        assert(events.drop_last().take(p) =~= events.take(p));
        lemma_fold_spaces_created_none_extends(g, events.drop_last(), p, block);
    }
}

proof fn lemma_fold_personal_plugins_none_extends(
    g: KnowledgeGraphView,
    events: Seq<PersonalPluginCreated>,
    p: int,
    block: crate::block::BlockMetadataView,
)
    requires
        0 <= p <= events.len(),
        spec_fold_personal_plugins(g, events.take(p), block) is None,
    ensures
        spec_fold_personal_plugins(g, events, block) is None,
    decreases events.len(),
{
    if p == events.len() {
        assert(events.take(p) =~= events);
    } else {
        assert(events.drop_last().take(p) =~= events.take(p));
        lemma_fold_personal_plugins_none_extends(g, events.drop_last(), p, block);
    }
}

proof fn lemma_fold_governance_plugins_none_extends(
    g: KnowledgeGraphView,
    events: Seq<GovernancePluginCreated>,
    p: int,
    block: crate::block::BlockMetadataView,
)
    requires
        0 <= p <= events.len(),
        spec_fold_governance_plugins(g, events.take(p), block) is None,
    ensures
        spec_fold_governance_plugins(g, events, block) is None,
    decreases events.len(),
{
    if p == events.len() {
        assert(events.take(p) =~= events);
    } else {
        assert(events.drop_last().take(p) =~= events.take(p));
        lemma_fold_governance_plugins_none_extends(g, events.drop_last(), p, block);
    }
}

proof fn lemma_fold_initial_editors_none_extends(
    g: KnowledgeGraphView,
    events: Seq<InitialEditorsAdded>,
    p: int,
    block: crate::block::BlockMetadataView,
)
    requires
        0 <= p <= events.len(),
        spec_fold_initial_editors(g, events.take(p), block) is None,
    ensures
        spec_fold_initial_editors(g, events, block) is None,
    decreases events.len(),
{
    if p == events.len() {
        assert(events.take(p) =~= events);
    } else {
        assert(events.drop_last().take(p) =~= events.take(p));
        lemma_fold_initial_editors_none_extends(g, events.drop_last(), p, block);
    }
}

proof fn lemma_fold_membership_none_extends(
    g: KnowledgeGraphView,
    events: Seq<MembershipChange>,
    editor: bool,
    added: bool,
    p: int,
    block: crate::block::BlockMetadataView,
)
    requires
        0 <= p <= events.len(),
        spec_fold_membership(g, events.take(p), editor, added, block) is None,
    ensures
        spec_fold_membership(g, events, editor, added, block) is None,
    decreases events.len(),
{
    if p == events.len() {
        assert(events.take(p) =~= events);
    } else {
        assert(events.drop_last().take(p) =~= events.take(p));
        lemma_fold_membership_none_extends(g, events.drop_last(), editor, added, p, block);
    }
}

proof fn lemma_fold_subspaces_none_extends(
    g: KnowledgeGraphView,
    events: Seq<SubspaceChange>,
    added: bool,
    p: int,
    block: crate::block::BlockMetadataView,
)
    requires
        0 <= p <= events.len(),
        spec_fold_subspaces(g, events.take(p), added, block) is None,
    ensures
        spec_fold_subspaces(g, events, added, block) is None,
    decreases events.len(),
{
    if p == events.len() {
        assert(events.take(p) =~= events);
    } else {
        assert(events.drop_last().take(p) =~= events.take(p));
        lemma_fold_subspaces_none_extends(g, events.drop_last(), added, p, block);
    }
}

proof fn lemma_fold_votes_none_extends(
    g: KnowledgeGraphView,
    events: Seq<VoteCastEvent>,
    p: int,
    block: crate::block::BlockMetadataView,
)
    requires
        0 <= p <= events.len(),
        spec_fold_votes(g, events.take(p), block) is None,
    ensures
        spec_fold_votes(g, events, block) is None,
    decreases events.len(),
{
    if p == events.len() {
        assert(events.take(p) =~= events);
    } else {
        assert(events.drop_last().take(p) =~= events.take(p));
        lemma_fold_votes_none_extends(g, events.drop_last(), p, block);
    }
}

/// One whole bundle: the categories in their fixed order, then the
/// cursor.
pub open spec fn spec_process_block(
    g: KnowledgeGraphView,
    b: BlockBundle,
) -> Option<KnowledgeGraphView> {
    let bv = b.block@;
    match spec_fold_spaces_created(g, b.spaces_created@, bv) {
        Some(g1) => match spec_fold_personal_plugins(g1, b.personal_plugins_created@, bv) {
            Some(g2) => match spec_fold_governance_plugins(g2, b.governance_plugins_created@, bv) {
                Some(g3) => match spec_fold_initial_editors(g3, b.initial_editors_added@, bv) {
                    Some(g4) => match spec_fold_membership(g4, b.members_added@, false, true, bv) {
                        Some(g5) => match spec_fold_membership(
                            g5,
                            b.members_removed@,
                            false,
                            false,
                            bv,
                        ) {
                            Some(g6) => match spec_fold_membership(
                                g6,
                                b.editors_added@,
                                true,
                                true,
                                bv,
                            ) {
                                Some(g7) => match spec_fold_membership(
                                    g7,
                                    b.editors_removed@,
                                    true,
                                    false,
                                    bv,
                                ) {
                                    Some(g8) => match spec_fold_subspaces(
                                        g8,
                                        b.subspaces_added@,
                                        true,
                                        bv,
                                    ) {
                                        Some(g9) => match spec_fold_subspaces(
                                            g9,
                                            b.subspaces_removed@,
                                            false,
                                            bv,
                                        ) {
                                            Some(g10) => match spec_fold_votes(
                                                g10,
                                                b.votes_cast@,
                                                bv,
                                            ) {
                                                Some(g11) => match spec_apply_edits(
                                                    g11,
                                                    b.edits@,
                                                    bv,
                                                ) {
                                                    Some(g12) => spec_persist_cursor(g12, bv),
                                                    None => None,
                                                },
                                                None => None,
                                            },
                                            None => None,
                                        },
                                        None => None,
                                    },
                                    None => None,
                                },
                                None => None,
                            },
                            None => None,
                        },
                        None => None,
                    },
                    None => None,
                },
                None => None,
            },
            None => None,
        },
        None => None,
    }
}

/// Whether an on-chain vote option names no vote kind: such events
/// are skipped with a warning.
pub open spec fn vote_type_skipped(vote: u64) -> bool {
    crate::models::vote_type_of(vote) is None
}

} // verus!
