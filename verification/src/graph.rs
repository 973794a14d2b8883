//! The materialized knowledge graph.
//!
//! One value holding the node-level data plane (attribute edges), the
//! relation plane, the entity system properties and the
//! version-ordinal registry. Versions are opaque strings; every write
//! supplies the string with its externally assigned ordinal, and the
//! registry keeps the mapping so that reads can resolve a version
//! string to the ordinal the edges are tagged with.

use vstd::prelude::*;

use crate::block::BlockMetadata;
use crate::history::{hist_value_at, HistOp};
use crate::ids::str_eq;
use crate::relations::{
    rel_op_ok,
    spec_rel_op,
    RelationFilter,
    RelationNode,
    RelationStore,
    RelKey,
    RelPayloadView,
    wf_relation_store,
};
use crate::store::{
    entry_hist,
    spec_triple_op,
    triple_op_ok,
    StoreError,
    Triple,
    TripleKey,
    TripleStore,
    wf_triple_store,
};
use crate::value::{Value, ValueView};

verus! {

/// System properties of one entity: creation and last-update stamps.
#[derive(Debug)]
pub struct EntityRow {
    pub id: String,
    pub created_at: i64,
    pub created_at_block: u64,
    pub updated_at: i64,
    pub updated_at_block: u64,
}

/// Mathematical image of an [`EntityRow`].
pub ghost struct EntityRowView {
    pub id: Seq<char>,
    pub created_at: i64,
    pub created_at_block: u64,
    pub updated_at: i64,
    pub updated_at_block: u64,
}

impl View for EntityRow {
    type V = EntityRowView;

    open spec fn view(&self) -> EntityRowView {
        EntityRowView {
            id: self.id@,
            created_at: self.created_at,
            created_at_block: self.created_at_block,
            updated_at: self.updated_at,
            updated_at_block: self.updated_at_block,
        }
    }
}

/// One entry of the version registry: an opaque version string and
/// its externally assigned ordinal.
#[derive(Debug)]
pub struct VersionEntry {
    pub id: String,
    pub index: u64,
}

/// Mathematical image of a [`VersionEntry`].
pub ghost struct VersionEntryView {
    pub id: Seq<char>,
    pub index: u64,
}

impl View for VersionEntry {
    type V = VersionEntryView;

    open spec fn view(&self) -> VersionEntryView {
        VersionEntryView { id: self.id@, index: self.index }
    }
}

/// Whether the registry maps a version string.
pub open spec fn versions_has(s: Seq<VersionEntryView>, id: Seq<char>) -> bool {
    exists|i: int| 0 <= i < s.len() && (#[trigger] s[i]).id == id
}

/// The ordinal of a version string, if mapped.
pub open spec fn versions_lookup(s: Seq<VersionEntryView>, id: Seq<char>) -> Option<u64> {
    if versions_has(s, id) {
        Some(s[choose|i: int| 0 <= i < s.len() && (#[trigger] s[i]).id == id].index)
    } else {
        None
    }
}

/// Recording a version mapping: a new string is appended, a mapped
/// string leaves the registry unchanged.
pub open spec fn spec_register_version(
    s: Seq<VersionEntryView>,
    id: Seq<char>,
    index: u64,
) -> Seq<VersionEntryView> {
    if versions_lookup(s, id) is Some {
        s
    } else {
        s.push(VersionEntryView { id: id, index: index })
    }
}

/// Whether a version pair is consistent with the registry: unmapped,
/// or mapped to the same ordinal.
pub open spec fn version_ok(s: Seq<VersionEntryView>, id: Seq<char>, index: u64) -> bool {
    versions_lookup(s, id) is None || versions_lookup(s, id) == Some(index)
}

/// Registry strings are unique.
pub open spec fn wf_versions(s: Seq<VersionEntryView>) -> bool {
    forall|i: int, j: int| 0 <= i < j < s.len() ==> s[i].id != s[j].id
}

/// Whether the entity table holds an entity.
pub open spec fn entities_has(s: Seq<EntityRowView>, id: Seq<char>) -> bool {
    exists|i: int| 0 <= i < s.len() && (#[trigger] s[i]).id == id
}

/// The index of an entity row.
pub open spec fn entities_index_of(s: Seq<EntityRowView>, id: Seq<char>) -> int {
    choose|i: int| 0 <= i < s.len() && (#[trigger] s[i]).id == id
}

/// Entity identifiers are unique.
pub open spec fn wf_entities(s: Seq<EntityRowView>) -> bool {
    forall|i: int, j: int| 0 <= i < j < s.len() ==> s[i].id != s[j].id
}

/// Touching an entity at a block: on first sight the row is created
/// with creation and update stamps from the block; afterwards only
/// the update stamps move.
pub open spec fn spec_touch_entity(
    s: Seq<EntityRowView>,
    id: Seq<char>,
    block: crate::block::BlockMetadataView,
) -> Seq<EntityRowView> {
    if entities_has(s, id) {
        let i = entities_index_of(s, id);
        s.update(
            i,
            EntityRowView {
                updated_at: block.timestamp,
                updated_at_block: block.block_number,
                ..s[i]
            },
        )
    } else {
        s.push(
            EntityRowView {
                id: id,
                created_at: block.timestamp,
                created_at_block: block.block_number,
                updated_at: block.timestamp,
                updated_at_block: block.block_number,
            },
        )
    }
}

/// The materialized graph: triple plane, relation plane, entity
/// table and version registry.
#[derive(Debug)]
pub struct KnowledgeGraph {
    pub triples: TripleStore,
    pub relations: RelationStore,
    pub entities: Vec<EntityRow>,
    pub versions: Vec<VersionEntry>,
}

/// Mathematical image of the graph.
pub ghost struct KnowledgeGraphView {
    pub triples: Seq<crate::store::TripleEntryView>,
    pub relations: Seq<crate::relations::RelEntryView>,
    pub entities: Seq<EntityRowView>,
    pub versions: Seq<VersionEntryView>,
}

impl View for KnowledgeGraph {
    type V = KnowledgeGraphView;

    open spec fn view(&self) -> KnowledgeGraphView {
        KnowledgeGraphView {
            triples: self.triples@,
            relations: self.relations@,
            entities: self.entities@.map_values(|e: EntityRow| e@),
            versions: self.versions@.map_values(|v: VersionEntry| v@),
        }
    }
}

/// Well-formed graph.
pub open spec fn wf_graph(g: KnowledgeGraphView) -> bool {
    &&& wf_triple_store(g.triples)
    &&& wf_relation_store(g.relations)
    &&& wf_entities(g.entities)
    &&& wf_versions(g.versions)
}

impl KnowledgeGraph {
    /// The empty graph.
    pub fn new() -> (r: Self)
        ensures
            r@.triples == Seq::<crate::store::TripleEntryView>::empty(),
            r@.relations == Seq::<crate::relations::RelEntryView>::empty(),
            r@.entities == Seq::<EntityRowView>::empty(),
            r@.versions == Seq::<VersionEntryView>::empty(),
            wf_graph(r@),
    {
        let r = KnowledgeGraph {
            triples: TripleStore::new(),
            relations: RelationStore::new(),
            entities: Vec::new(),
            versions: Vec::new(),
        };
        proof {
            assert(r@.entities =~= Seq::<EntityRowView>::empty());
            assert(r@.versions =~= Seq::<VersionEntryView>::empty());
        }
        r
    }

    /// Resolve an opaque version string to its ordinal; an unmapped
    /// string resolves to nothing.
    pub fn resolve_version(&self, version_id: &str) -> (r: Option<u64>)
        requires
            wf_versions(self@.versions),
        ensures
            r == versions_lookup(self@.versions, version_id@),
    {
        let n = self.versions.len();
        let mut i: usize = 0;
        while i < n
            invariant
                n == self.versions@.len(),
                wf_versions(self@.versions),
                0 <= i <= n,
                forall|t: int| 0 <= t < i ==> (#[trigger] self@.versions[t]).id != version_id@,
            decreases n - i,
        {
            if str_eq(self.versions[i].id.as_str(), version_id) {
                proof {
                    assert(self@.versions[i as int].id == version_id@);
                    let j = choose|t: int|
                        0 <= t < self@.versions.len() && (#[trigger] self@.versions[t]).id
                            == version_id@;
                    if j != i {
                        assert(self@.versions[j].id != self@.versions[i as int].id);
                    }
                }
                return Some(self.versions[i].index);
            }
            i = i + 1;
        }
        None
    }

    /// Record the ordinal of a version string. Recording a mapping
    /// already present is a no-op; recording a different ordinal for
    /// a mapped string is a consistency error.
    pub fn register_version(&mut self, version_id: &str, version_index: u64) -> (r: Result<
        (),
        StoreError,
    >)
        requires
            wf_versions(old(self)@.versions),
        ensures
            wf_versions(final (self)@.versions),
            final (self)@.triples == old(self)@.triples,
            final (self)@.relations == old(self)@.relations,
            final (self)@.entities == old(self)@.entities,
            ({
                let prior = versions_lookup(old(self)@.versions, version_id@);
                &&& (r is Ok <==> (prior is None || prior == Some(version_index)))
                &&& prior is None && r is Ok ==> final (self)@.versions == old(
                    self,
                )@.versions.push(VersionEntryView { id: version_id@, index: version_index })
                &&& prior is Some ==> final (self)@.versions == old(self)@.versions
            }),
    {
        let n = self.versions.len();
        let mut i: usize = 0;
        while i < n
            invariant
                n == self.versions@.len(),
                wf_versions(self@.versions),
                *self == *old(self),
                0 <= i <= n,
                forall|t: int| 0 <= t < i ==> (#[trigger] self@.versions[t]).id != version_id@,
            decreases n - i,
        {
            if str_eq(self.versions[i].id.as_str(), version_id) {
                proof {
                    assert(self@.versions[i as int].id == version_id@);
                    let j = choose|t: int|
                        0 <= t < self@.versions.len() && (#[trigger] self@.versions[t]).id
                            == version_id@;
                    if j != i {
                        assert(self@.versions[j].id != self@.versions[i as int].id);
                    }
                }
                if self.versions[i].index == version_index {
                    return Ok(());
                } else {
                    return Err(StoreError::Consistency);
                }
            }
            i = i + 1;
        }
        let ghost pre = self@.versions;
        self.versions.push(VersionEntry { id: version_id.to_owned(), index: version_index });
        proof {
            assert(self@.versions =~= pre.push(
                VersionEntryView { id: version_id@, index: version_index },
            ));
            assert(wf_versions(self@.versions)) by {
                assert(forall|t: int|
                    0 <= t < pre.len() ==> (#[trigger] self@.versions[t]) == pre[t]);
            }
        }
        Ok(())
    }

    /// Stamp an entity with a block: created on first sight, updated
    /// always.
    fn touch_entity(&mut self, id: &str, block: &BlockMetadata)
        requires
            wf_entities(old(self)@.entities),
        ensures
            wf_entities(final (self)@.entities),
            final (self)@.entities == spec_touch_entity(old(self)@.entities, id@, block@),
            final (self)@.triples == old(self)@.triples,
            final (self)@.relations == old(self)@.relations,
            final (self)@.versions == old(self)@.versions,
    {
        let n = self.entities.len();
        let mut i: usize = 0;
        while i < n
            invariant
                n == self.entities@.len(),
                wf_entities(self@.entities),
                *self == *old(self),
                0 <= i <= n,
                forall|t: int| 0 <= t < i ==> (#[trigger] self@.entities[t]).id != id@,
            decreases n - i,
        {
            if str_eq(self.entities[i].id.as_str(), id) {
                proof {
                    assert(self@.entities[i as int].id == id@);
                    let j = entities_index_of(self@.entities, id@);
                    if j != i {
                        assert(self@.entities[j].id != self@.entities[i as int].id);
                    }
                }
                let ghost pre = self@.entities;
                let mut row = self.entities.remove(i);
                row.updated_at = block.timestamp;
                row.updated_at_block = block.block_number;
                self.entities.insert(i, row);
                proof {
                    assert(self@.entities =~= spec_touch_entity(pre, id@, block@));
                    assert(wf_entities(self@.entities)) by {
                        assert(forall|t: int|
                            0 <= t < pre.len() ==> (#[trigger] self@.entities[t]).id == pre[t].id);
                    }
                }
                return ;
            }
            i = i + 1;
        }
        let ghost pre = self@.entities;
        self.entities.push(
            EntityRow {
                id: id.to_owned(),
                created_at: block.timestamp,
                created_at_block: block.block_number,
                updated_at: block.timestamp,
                updated_at_block: block.block_number,
            },
        );
        proof {
            assert(self@.entities =~= spec_touch_entity(pre, id@, block@));
            assert(wf_entities(self@.entities)) by {
                assert(forall|t: int|
                    0 <= t < pre.len() ==> (#[trigger] self@.entities[t]) == pre[t]);
            }
        }
    }

    /// The system properties of an entity, if it has been seen.
    pub fn find_entity(&self, id: &str) -> (r: Option<&EntityRow>)
        requires
            wf_entities(self@.entities),
        ensures
            match r {
                Some(row) => entities_has(self@.entities, id@) && row@ == self@.entities[
                    entities_index_of(self@.entities, id@)
                ],
                None => !entities_has(self@.entities, id@),
            },
    {
        let n = self.entities.len();
        let mut i: usize = 0;
        while i < n
            invariant
                n == self.entities@.len(),
                wf_entities(self@.entities),
                0 <= i <= n,
                forall|t: int| 0 <= t < i ==> (#[trigger] self@.entities[t]).id != id@,
            decreases n - i,
        {
            if str_eq(self.entities[i].id.as_str(), id) {
                proof {
                    assert(self@.entities[i as int].id == id@);
                    let j = entities_index_of(self@.entities, id@);
                    if j != i {
                        assert(self@.entities[j].id != self@.entities[i as int].id);
                    }
                }
                return Some(&self.entities[i]);
            }
            i = i + 1;
        }
        None
    }

    /// Insert a triple at `(version_id, version_index)` in a space:
    /// the version mapping is recorded, the entity is stamped with the
    /// block, the displaced live edge is retired and the new edge
    /// installed. Rejected exactly when the version string is already
    /// mapped to a different ordinal or the ordinal lies before the
    /// key's frontier; a rejected insert leaves the graph unchanged.
    pub fn insert_triple(
        &mut self,
        block: &BlockMetadata,
        space: &str,
        version_id: &str,
        version_index: u64,
        triple: Triple,
    ) -> (r: Result<(), StoreError>)
        requires
            wf_graph(old(self)@),
        ensures
            wf_graph(final (self)@),
            ({
                let k = TripleKey {
                    entity: triple@.entity,
                    attribute: triple@.attribute,
                    space: space@,
                };
                let prior = versions_lookup(old(self)@.versions, version_id@);
                let version_ok = prior is None || prior == Some(version_index);
                &&& (r is Ok <==> version_ok && triple_op_ok(
                    old(self)@.triples,
                    k,
                    version_index,
                ))
                &&& r is Ok ==> final (self)@.triples == spec_triple_op(
                    old(self)@.triples,
                    k,
                    HistOp::Write(triple@.value),
                    version_index,
                ) && final (self)@.entities == spec_touch_entity(
                    old(self)@.entities,
                    triple@.entity,
                    block@,
                ) && final (self)@.relations == old(self)@.relations && final (self)@.versions
                    == spec_register_version(old(self)@.versions, version_id@, version_index)
                &&& r is Err ==> final (self)@ == old(self)@ && r == Err::<
                    (),
                    StoreError,
                >(StoreError::Consistency)
            }),
    {
        // Check every condition before mutating, so that a rejected
        // insert leaves the graph untouched.
        match self.resolve_version(version_id) {
            Some(x) => {
                if x != version_index {
                    return Err(StoreError::Consistency);
                }
            },
            None => {},
        }
        let f = self.triples.frontier(triple.entity.as_str(), triple.attribute.as_str(), space);
        if version_index < f {
            return Err(StoreError::Consistency);
        }
        match self.register_version(version_id, version_index) {
            Ok(()) => {},
            Err(e) => {
                proof {
                    assert(false);
                }
                return Err(e);
            },
        }
        let entity_id = triple.entity.clone();
        match self.triples.insert_triple(space, version_index, triple) {
            Ok(()) => {},
            Err(e) => {
                proof {
                    assert(false);
                }
                return Err(e);
            },
        }
        self.touch_entity(entity_id.as_str(), block);
        Ok(())
    }

    /// Retire the live edge of `(entity, attribute, space)` at a
    /// version. Idempotent where no live edge exists. Rejected exactly
    /// as [`KnowledgeGraph::insert_triple`] is; a delete stamps the
    /// entity only when it changes something.
    pub fn delete_triple(
        &mut self,
        block: &BlockMetadata,
        space: &str,
        version_id: &str,
        version_index: u64,
        entity: &str,
        attribute: &str,
    ) -> (r: Result<(), StoreError>)
        requires
            wf_graph(old(self)@),
        ensures
            wf_graph(final (self)@),
            ({
                let k = TripleKey { entity: entity@, attribute: attribute@, space: space@ };
                let prior = versions_lookup(old(self)@.versions, version_id@);
                let version_ok = prior is None || prior == Some(version_index);
                &&& (r is Ok <==> version_ok && triple_op_ok(
                    old(self)@.triples,
                    k,
                    version_index,
                ))
                &&& r is Ok ==> final (self)@.triples == spec_triple_op(
                    old(self)@.triples,
                    k,
                    HistOp::Delete,
                    version_index,
                ) && final (self)@.entities == spec_touch_entity(
                    old(self)@.entities,
                    entity@,
                    block@,
                ) && final (self)@.relations == old(self)@.relations && final (self)@.versions
                    == spec_register_version(old(self)@.versions, version_id@, version_index)
                &&& r is Err ==> final (self)@ == old(self)@ && r == Err::<
                    (),
                    StoreError,
                >(StoreError::Consistency)
            }),
    {
        match self.resolve_version(version_id) {
            Some(x) => {
                if x != version_index {
                    return Err(StoreError::Consistency);
                }
            },
            None => {},
        }
        let f = self.triples.frontier(entity, attribute, space);
        if version_index < f {
            return Err(StoreError::Consistency);
        }
        match self.register_version(version_id, version_index) {
            Ok(()) => {},
            Err(e) => {
                proof {
                    assert(false);
                }
                return Err(e);
            },
        }
        match self.triples.delete_triple(space, version_index, entity, attribute) {
            Ok(()) => {},
            Err(e) => {
                proof {
                    assert(false);
                }
                return Err(e);
            },
        }
        self.touch_entity(entity, block);
        Ok(())
    }

    /// The value of `(entity, attribute, space)` live at a version
    /// string, or at the live view when no version is given.
    pub fn find_triple(&self, attribute: &str, entity: &str, space: &str, version: Option<&str>) -> (
        r: Option<&Value>)
        requires
            wf_graph(self@),
        ensures
            ({
                let k = TripleKey { entity: entity@, attribute: attribute@, space: space@ };
                let at = match version {
                    Some(vid) => versions_lookup(self@.versions, vid@),
                    None => None,
                };
                match version {
                    Some(vid) => if versions_lookup(self@.versions, vid@) is Some {
                        match r {
                            Some(val) => hist_value_at(entry_hist(self@.triples, k), at) == Some(
                                val@,
                            ),
                            None => hist_value_at(entry_hist(self@.triples, k), at) is None,
                        }
                    } else {
                        r is None
                    },
                    None => match r {
                        Some(val) => hist_value_at(entry_hist(self@.triples, k), None) == Some(
                            val@,
                        ),
                        None => hist_value_at(entry_hist(self@.triples, k), None) is None,
                    },
                }
            }),
    {
        match version {
            Some(vid) => match self.resolve_version(vid) {
                Some(ord) => self.triples.find_triple(attribute, entity, space, Some(ord)),
                None => None,
            },
            None => self.triples.find_triple(attribute, entity, space, None),
        }
    }

    /// Insert a relation at `(version_id, version_index)` in a space:
    /// the four constituent edges are installed together, retiring the
    /// displaced live version. Rejected exactly as a triple insert is.
    pub fn insert_relation(
        &mut self,
        block: &BlockMetadata,
        space: &str,
        version_id: &str,
        version_index: u64,
        relation: RelationNode,
    ) -> (r: Result<(), StoreError>)
        requires
            wf_graph(old(self)@),
        ensures
            wf_graph(final (self)@),
            ({
                let k = RelKey { id: relation@.id, space: space@ };
                let p = RelPayloadView {
                    from: relation@.from,
                    to: relation@.to,
                    relation_type: relation@.relation_type,
                    index: relation@.index,
                };
                let prior = versions_lookup(old(self)@.versions, version_id@);
                let version_ok = prior is None || prior == Some(version_index);
                &&& (r is Ok <==> version_ok && rel_op_ok(old(self)@.relations, k, version_index))
                &&& r is Ok ==> final (self)@.relations == spec_rel_op(
                    old(self)@.relations,
                    k,
                    HistOp::Write(p),
                    version_index,
                ) && final (self)@.entities == spec_touch_entity(
                    old(self)@.entities,
                    relation@.id,
                    block@,
                ) && final (self)@.triples == old(self)@.triples && final (self)@.versions
                    == spec_register_version(old(self)@.versions, version_id@, version_index)
                &&& r is Err ==> final (self)@ == old(self)@ && r == Err::<
                    (),
                    StoreError,
                >(StoreError::Consistency)
            }),
    {
        match self.resolve_version(version_id) {
            Some(x) => {
                if x != version_index {
                    return Err(StoreError::Consistency);
                }
            },
            None => {},
        }
        let f = self.relations.frontier(relation.id.as_str(), space);
        if version_index < f {
            return Err(StoreError::Consistency);
        }
        match self.register_version(version_id, version_index) {
            Ok(()) => {},
            Err(e) => {
                proof {
                    assert(false);
                }
                return Err(e);
            },
        }
        let rel_id = relation.id.clone();
        match self.relations.insert_relation(space, version_index, relation) {
            Ok(()) => {},
            Err(e) => {
                proof {
                    assert(false);
                }
                return Err(e);
            },
        }
        self.touch_entity(rel_id.as_str(), block);
        Ok(())
    }

    /// Retire all four live edges of a relation at a version.
    /// Idempotent. Rejected exactly as a triple delete is.
    pub fn delete_relation(
        &mut self,
        block: &BlockMetadata,
        space: &str,
        version_id: &str,
        version_index: u64,
        id: &str,
    ) -> (r: Result<(), StoreError>)
        requires
            wf_graph(old(self)@),
        ensures
            wf_graph(final (self)@),
            ({
                let k = RelKey { id: id@, space: space@ };
                let prior = versions_lookup(old(self)@.versions, version_id@);
                let version_ok = prior is None || prior == Some(version_index);
                &&& (r is Ok <==> version_ok && rel_op_ok(old(self)@.relations, k, version_index))
                &&& r is Ok ==> final (self)@.relations == spec_rel_op(
                    old(self)@.relations,
                    k,
                    HistOp::Delete,
                    version_index,
                ) && final (self)@.entities == spec_touch_entity(old(self)@.entities, id@, block@)
                    && final (self)@.triples == old(self)@.triples && final (self)@.versions
                    == spec_register_version(old(self)@.versions, version_id@, version_index)
                &&& r is Err ==> final (self)@ == old(self)@ && r == Err::<
                    (),
                    StoreError,
                >(StoreError::Consistency)
            }),
    {
        match self.resolve_version(version_id) {
            Some(x) => {
                if x != version_index {
                    return Err(StoreError::Consistency);
                }
            },
            None => {},
        }
        let f = self.relations.frontier(id, space);
        if version_index < f {
            return Err(StoreError::Consistency);
        }
        match self.register_version(version_id, version_index) {
            Ok(()) => {},
            Err(e) => {
                proof {
                    assert(false);
                }
                return Err(e);
            },
        }
        match self.relations.delete_relation(space, version_index, id) {
            Ok(()) => {},
            Err(e) => {
                proof {
                    assert(false);
                }
                return Err(e);
            },
        }
        self.touch_entity(id, block);
        Ok(())
    }

    /// The relation of `(id, space)` visible at a version string, or
    /// at the live view.
    pub fn find_relation(&self, id: &str, space: &str, version: Option<&str>) -> (r: Option<
        RelationNode,
    >)
        requires
            wf_graph(self@),
        ensures
            ({
                let k = RelKey { id: id@, space: space@ };
                let at = match version {
                    Some(vid) => versions_lookup(self@.versions, vid@),
                    None => None,
                };
                match version {
                    Some(vid) => versions_lookup(self@.versions, vid@) is None ==> r is None,
                    None => true,
                }
            }),
            ({
                let k = RelKey { id: id@, space: space@ };
                let resolved = match version {
                    Some(vid) => versions_lookup(self@.versions, vid@),
                    None => None,
                };
                (version is None || resolved is Some) ==> match r {
                    Some(rel) => crate::history::hist_value_at(
                        crate::relations::rel_hist(self@.relations, k),
                        resolved,
                    ) == Some(
                        RelPayloadView {
                            from: rel@.from,
                            to: rel@.to,
                            relation_type: rel@.relation_type,
                            index: rel@.index,
                        },
                    ) && rel@.id == id@,
                    None => crate::history::hist_value_at(
                        crate::relations::rel_hist(self@.relations, k),
                        resolved,
                    ) is None,
                }
            }),
    {
        match version {
            Some(vid) => match self.resolve_version(vid) {
                Some(ord) => self.relations.find_relation(id, space, Some(ord)),
                None => None,
            },
            None => self.relations.find_relation(id, space, None),
        }
    }

    /// All triples visible under a filter, in store order.
    pub fn find_triples(&self, filter: &crate::store::TripleFilter) -> (r: Vec<Triple>)
        requires
            wf_graph(self@),
        ensures
            crate::store::triple_views(r@) == crate::store::triple_filter_matches(
                self@.triples,
                filter@,
            ),
    {
        self.triples.find_triples(filter)
    }

    /// All relations visible under a filter, ordered by index value,
    /// ties broken by relation identifier.
    pub fn find_relations(&self, filter: &RelationFilter) -> (r: Vec<RelationNode>)
        requires
            wf_graph(self@),
        ensures
            crate::relations::rel_views(r@).to_multiset() == crate::relations::rel_filter_matches(
                self@.relations,
                filter@,
            ).to_multiset(),
            forall|i: int, j: int|
                0 <= i < j < r@.len() ==> crate::relations::rel_leq(
                    crate::relations::rel_views(r@)[i],
                    crate::relations::rel_views(r@)[j],
                ),
    {
        self.relations.find_relations(filter)
    }

    /// Retire all live attribute edges of an entity in a space at a
    /// version: the per-space logical delete. Rejected exactly when
    /// the version pair conflicts with the registry or some matching
    /// key's frontier lies past the ordinal.
    pub fn delete_entity(
        &mut self,
        block: &BlockMetadata,
        space: &str,
        version_id: &str,
        version_index: u64,
        entity: &str,
    ) -> (r: Result<(), StoreError>)
        requires
            wf_graph(old(self)@),
        ensures
            wf_graph(final (self)@),
            ({
                let prior = versions_lookup(old(self)@.versions, version_id@);
                let vok = prior is None || prior == Some(version_index);
                &&& (r is Ok <==> vok && crate::store::delete_entity_ok(
                    old(self)@.triples,
                    entity@,
                    space@,
                    version_index,
                ))
                &&& r is Ok ==> final (self)@.triples == crate::store::spec_delete_entity(
                    old(self)@.triples,
                    entity@,
                    space@,
                    version_index,
                ) && final (self)@.entities == spec_touch_entity(
                    old(self)@.entities,
                    entity@,
                    block@,
                ) && final (self)@.relations == old(self)@.relations && final (self)@.versions
                    == spec_register_version(old(self)@.versions, version_id@, version_index)
                &&& r is Err ==> final (self)@ == old(self)@ && r == Err::<
                    (),
                    StoreError,
                >(StoreError::Consistency)
            }),
    {
        match self.resolve_version(version_id) {
            Some(x) => {
                if x != version_index {
                    return Err(StoreError::Consistency);
                }
            },
            None => {},
        }
        match self.triples.delete_entity(space, version_index, entity) {
            Ok(()) => {},
            Err(e) => {
                return Err(e);
            },
        }
        match self.register_version(version_id, version_index) {
            Ok(()) => {},
            Err(e) => {
                proof {
                    assert(false);
                }
                return Err(e);
            },
        }
        self.touch_entity(entity, block);
        Ok(())
    }
}



/// The attribute bag an entity shows in a space at a read version:
/// one attribute per visible edge, in store order.
pub open spec fn entity_bag(
    triples: Seq<crate::store::TripleEntryView>,
    entity: Seq<char>,
    space: Seq<char>,
    at: Option<u64>,
) -> Seq<crate::attributes::AttributeNodeView> {
    crate::store::triple_filter_matches(triples, entity_bag_filter(entity, space, at)).map_values(
        |t: crate::store::TripleView|
            crate::attributes::AttributeNodeView { id: t.attribute, value: t.value },
    )
}

/// The filter selecting one entity's edges in one space.
pub open spec fn entity_bag_filter(
    entity: Seq<char>,
    space: Seq<char>,
    at: Option<u64>,
) -> crate::store::TripleFilterView {
    crate::store::TripleFilterView {
        entity: Some(crate::filters::PropFilterView {
            value: Some(entity),
            value_gt: None,
            value_gte: None,
            value_lt: None,
            value_lte: None,
            value_not: None,
            value_in: None,
            value_not_in: None,
        }),
        attribute: None,
        space: Some(crate::filters::PropFilterView {
            value: Some(space),
            value_gt: None,
            value_gte: None,
            value_lt: None,
            value_lte: None,
            value_not: None,
            value_in: None,
            value_not_in: None,
        }),
        value: None,
        version: at,
    }
}

impl KnowledgeGraph {
    /// The attribute-batch read of the typed entity facade: every
    /// attribute the entity shows in a space at a read version,
    /// gathered into one bag.
    #[verifier::loop_isolation(false)]
    pub fn entity_attributes(&self, entity: &str, space: &str, version: Option<u64>) -> (r:
        crate::attributes::Attributes)
        requires
            wf_graph(self@),
        ensures
            r@ == entity_bag(self@.triples, entity@, space@, version),
    {
        let mut filter = crate::store::TripleFilter::default().entity(
            crate::filters::value(entity.to_owned()),
        ).space(crate::filters::value(space.to_owned()));
        if let Some(v) = version {
            filter = filter.version(v);
        }
        proof {
            assert(filter@ == entity_bag_filter(entity@, space@, version));
        }
        let triples = self.triples.find_triples(&filter);
        let ghost matched = crate::store::triple_filter_matches(self@.triples, filter@);
        let mut bag: Vec<crate::attributes::AttributeNode> = Vec::new();
        let total = triples.len();
        let mut triples = triples;
        let mut i: usize = 0;
        proof {
            assert(crate::store::triple_views(triples@) == matched);
            assert(matched.len() == total);
        }
        while triples.len() > 0
            invariant
                i + triples@.len() == matched.len(),
                crate::store::triple_views(triples@) == matched.skip(i as int),
                0 <= i <= matched.len(),
                bag@.len() == i,
                forall|t: int|
                    0 <= t < i ==> (#[trigger] bag@[t])@ == (crate::attributes::AttributeNodeView {
                        id: matched[t].attribute,
                        value: matched[t].value,
                    }),
            decreases triples@.len(),
        {
            let ghost pre = triples@;
            let t = triples.remove(0);
            proof {
                let f = |x: crate::store::Triple| x@;
                assert(pre.map_values(f)[0] == t@);
                assert(matched.skip(i as int)[0] == matched[i as int]);
                assert(triples@ =~= pre.drop_first());
                assert(triples@.map_values(f) =~= pre.map_values(f).drop_first());
                assert(matched.skip(i as int).drop_first() =~= matched.skip(i + 1));
            }
            let crate::store::Triple { entity: _, attribute, value } = t;
            bag.push(crate::attributes::AttributeNode { id: attribute, value });
            i = i + 1;
        }
        let r = crate::attributes::Attributes(bag);
        proof {
            assert(r@ =~= entity_bag(self@.triples, entity@, space@, version));
        }
        r
    }
}

/// One version that has been applied to an entity: the version
/// entity's identifier and its ordinal rendered in decimal.
#[derive(Debug)]
pub struct EntityVersion {
    pub entity_id: String,
    pub id: String,
    pub index: String,
}

impl KnowledgeGraph {
    /// The versions that have been applied to an entity in a space:
    /// one record per distinct version ordinal among the entity's
    /// edges, carrying the registered version string of the ordinal.
    pub fn versions(&self, entity: &str, space: &str) -> (r: Vec<EntityVersion>)
        requires
            wf_graph(self@),
        ensures
            forall|i: int| 0 <= i < r@.len() ==> (#[trigger] r@[i]).entity_id@ == entity@,
    {
        let mut ordinals: Vec<u64> = Vec::new();
        let n = self.triples.entries.len();
        let mut i: usize = 0;
        while i < n
            invariant
                n == self.triples.entries@.len(),
                0 <= i <= n,
            decreases n - i,
        {
            let e = &self.triples.entries[i];
            if str_eq(e.entity.as_str(), entity) && str_eq(e.space.as_str(), space) {
                let m = e.retired.len();
                let mut j: usize = 0;
                while j < m
                    invariant
                        m == e.retired@.len(),
                        0 <= j <= m,
                    decreases m - j,
                {
                    push_unique(&mut ordinals, e.retired[j].min_version);
                    j = j + 1;
                }
                match &e.live {
                    Some(l) => push_unique(&mut ordinals, l.min_version),
                    None => {},
                }
            }
            i = i + 1;
        }
        let mut out: Vec<EntityVersion> = Vec::new();
        let total = ordinals.len();
        let mut t: usize = 0;
        while t < total
            invariant
                total == ordinals@.len(),
                0 <= t <= total,
                forall|a: int| 0 <= a < out@.len() ==> (#[trigger] out@[a]).entity_id@ == entity@,
            decreases total - t,
        {
            let ordinal = ordinals[t];
            let id = self.version_id_of(ordinal);
            out.push(
                EntityVersion {
                    entity_id: entity.to_owned(),
                    id,
                    index: crate::value::u64_to_decimal(ordinal),
                },
            );
            t = t + 1;
        }
        out
    }

    /// The first registered version string of an ordinal, or its
    /// decimal rendering where none is registered.
    fn version_id_of(&self, ordinal: u64) -> (r: String) {
        let n = self.versions.len();
        let mut i: usize = 0;
        while i < n
            invariant
                n == self.versions@.len(),
                0 <= i <= n,
            decreases n - i,
        {
            if self.versions[i].index == ordinal {
                return self.versions[i].id.clone();
            }
            i = i + 1;
        }
        crate::value::u64_to_decimal(ordinal)
    }
}

/// Append a number where the list does not hold it yet.
fn push_unique(list: &mut Vec<u64>, value: u64)
    ensures
        final (list)@ == if old(list)@.contains(value) {
            old(list)@
        } else {
            old(list)@.push(value)
        },
{
    let n = list.len();
    let mut i: usize = 0;
    while i < n
        invariant
            n == list@.len(),
            *list == *old(list),
            0 <= i <= n,
            forall|t: int| 0 <= t < i ==> list@[t] != value,
        decreases n - i,
    {
        if list[i] == value {
            proof {
                assert(list@.contains(value));
            }
            return ;
        }
        i = i + 1;
    }
    proof {
        assert(!old(list)@.contains(value));
    }
    list.push(value);
}

} // verus!
