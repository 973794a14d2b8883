//! Versioned triple store.
//!
//! The node-level data plane: attribute edges keyed by
//! `(entity, attribute, space)`, each key carrying a version history.
//! A write retires the displaced live edge and installs the new one in
//! one step; a write of the live value is a no-op; a delete retires
//! the live edge. Reads resolve a version to the edge whose interval
//! contains it.

use vstd::prelude::*;

use crate::history::{
    apply_hist_op,
    empty_hist,
    hist_frontier,
    hist_value_at,
    wf_hist,
    Hist,
    HistLive,
    HistOp,
    HistSlice,
};
use crate::ids::str_eq;
use crate::value::{Value, ValueView};

verus! {

/// The error classes a store mutation can surface.
#[derive(Clone, Copy, Debug, PartialEq, Eq, Structural)]
pub enum StoreError {
    /// The mutation would violate the version invariants: its version
    /// lies before the version frontier of an edge it must displace.
    Consistency,
    /// A read target the caller required is absent.
    NotFound,
}

/// The logical tuple `(entity, attribute, value)`.
#[derive(Debug)]
pub struct Triple {
    pub entity: String,
    pub attribute: String,
    pub value: Value,
}

/// Mathematical image of a [`Triple`].
pub ghost struct TripleView {
    pub entity: Seq<char>,
    pub attribute: Seq<char>,
    pub value: ValueView,
}

impl View for Triple {
    type V = TripleView;

    open spec fn view(&self) -> TripleView {
        TripleView { entity: self.entity@, attribute: self.attribute@, value: self.value@ }
    }
}

impl Triple {
    /// A triple from its three parts.
    pub fn new(entity: String, attribute: String, value: Value) -> (r: Self)
        ensures
            r@.entity == entity@,
            r@.attribute == attribute@,
            r@.value == value@,
    {
        Triple { entity, attribute, value }
    }
}

impl Clone for Triple {
    fn clone(&self) -> (r: Self)
        ensures
            r@ == self@,
    {
        Triple {
            entity: self.entity.clone(),
            attribute: self.attribute.clone(),
            value: self.value.clone(),
        }
    }
}

/// A retired attribute edge: a value with a closed version interval.
#[derive(Debug)]
pub struct VersionSlice {
    pub value: Value,
    pub min_version: u64,
    pub max_version: u64,
}

impl View for VersionSlice {
    type V = HistSlice<ValueView>;

    open spec fn view(&self) -> HistSlice<ValueView> {
        HistSlice {
            value: self.value@,
            min_version: self.min_version,
            max_version: self.max_version,
        }
    }
}

/// The live attribute edge: a value live from `min_version` on.
#[derive(Debug)]
pub struct LiveEdge {
    pub value: Value,
    pub min_version: u64,
}

impl View for LiveEdge {
    type V = HistLive<ValueView>;

    open spec fn view(&self) -> HistLive<ValueView> {
        HistLive { value: self.value@, min_version: self.min_version }
    }
}

/// All edges of one `(entity, attribute, space)` key.
#[derive(Debug)]
pub struct TripleEntry {
    pub entity: String,
    pub attribute: String,
    pub space: String,
    pub retired: Vec<VersionSlice>,
    pub live: Option<LiveEdge>,
}

/// Mathematical image of a [`TripleEntry`].
pub ghost struct TripleEntryView {
    pub entity: Seq<char>,
    pub attribute: Seq<char>,
    pub space: Seq<char>,
    pub hist: Hist<ValueView>,
}

impl View for TripleEntry {
    type V = TripleEntryView;

    open spec fn view(&self) -> TripleEntryView {
        TripleEntryView {
            entity: self.entity@,
            attribute: self.attribute@,
            space: self.space@,
            hist: Hist {
                retired: self.retired@.map_values(|s: VersionSlice| s@),
                live: match self.live {
                    Some(ref l) => Some(l@),
                    None => None,
                },
            },
        }
    }
}

/// The key of an attribute edge.
pub ghost struct TripleKey {
    pub entity: Seq<char>,
    pub attribute: Seq<char>,
    pub space: Seq<char>,
}

/// The key of an entry.
pub open spec fn entry_key(e: TripleEntryView) -> TripleKey {
    TripleKey { entity: e.entity, attribute: e.attribute, space: e.space }
}

/// Whether the store holds an entry for a key.
pub open spec fn store_has_key(s: Seq<TripleEntryView>, k: TripleKey) -> bool {
    exists|i: int| 0 <= i < s.len() && entry_key(#[trigger] s[i]) == k
}

/// The index of the entry for a key.
pub open spec fn store_index_of(s: Seq<TripleEntryView>, k: TripleKey) -> int {
    choose|i: int| 0 <= i < s.len() && entry_key(#[trigger] s[i]) == k
}

/// The history of a key: the entry's history, or the empty history
/// where the store holds no entry.
pub open spec fn entry_hist(s: Seq<TripleEntryView>, k: TripleKey) -> Hist<ValueView> {
    if store_has_key(s, k) {
        s[store_index_of(s, k)].hist
    } else {
        empty_hist()
    }
}

/// Well-formed store: keys are unique and every history is
/// well-formed.
pub open spec fn wf_triple_store(s: Seq<TripleEntryView>) -> bool {
    &&& forall|i: int, j: int|
        0 <= i < j < s.len() ==> entry_key(s[i]) != entry_key(s[j])
    &&& forall|i: int| 0 <= i < s.len() ==> wf_hist(#[trigger] s[i].hist)
}

/// One mutation of the store at a key: the key's history absorbs the
/// mutation; a write on an unknown key appends a fresh entry; a delete
/// on an unknown key changes nothing.
pub open spec fn spec_triple_op(
    s: Seq<TripleEntryView>,
    k: TripleKey,
    op: HistOp<ValueView>,
    v: u64,
) -> Seq<TripleEntryView> {
    if store_has_key(s, k) {
        let i = store_index_of(s, k);
        s.update(i, TripleEntryView { hist: apply_hist_op(s[i].hist, op, v), ..s[i] })
    } else {
        match op {
            HistOp::Write(_) => s.push(
                TripleEntryView {
                    entity: k.entity,
                    attribute: k.attribute,
                    space: k.space,
                    hist: apply_hist_op(empty_hist(), op, v),
                },
            ),
            HistOp::Delete => s,
        }
    }
}

/// The condition under which a mutation at a key is consistent: its
/// version is at or past the key's frontier.
pub open spec fn triple_op_ok(s: Seq<TripleEntryView>, k: TripleKey, v: u64) -> bool {
    v >= hist_frontier(entry_hist(s, k))
}

/// The versioned triple store.
#[derive(Debug)]
pub struct TripleStore {
    pub entries: Vec<TripleEntry>,
}

impl View for TripleStore {
    type V = Seq<TripleEntryView>;

    open spec fn view(&self) -> Seq<TripleEntryView> {
        self.entries@.map_values(|e: TripleEntry| e@)
    }
}

impl TripleStore {
    /// The empty store.
    pub fn new() -> (r: Self)
        ensures
            r@ == Seq::<TripleEntryView>::empty(),
            wf_triple_store(r@),
    {
        let r = TripleStore { entries: Vec::new() };
        proof {
            assert(r@ =~= Seq::<TripleEntryView>::empty());
        }
        r
    }

    /// Locate the entry of a key.
    fn find_entry(&self, entity: &str, attribute: &str, space: &str) -> (r: Option<usize>)
        ensures
            match r {
                Some(i) => i < self@.len() && entry_key(self@[i as int]) == (TripleKey {
                    entity: entity@,
                    attribute: attribute@,
                    space: space@,
                }),
                None => !store_has_key(
                    self@,
                    TripleKey { entity: entity@, attribute: attribute@, space: space@ },
                ),
            },
    {
        let ghost k = TripleKey { entity: entity@, attribute: attribute@, space: space@ };
        let n = self.entries.len();
        let mut i: usize = 0;
        while i < n
            invariant
                n == self.entries@.len(),
                n == self@.len(),
                0 <= i <= n,
                k == (TripleKey { entity: entity@, attribute: attribute@, space: space@ }),
                forall|t: int| 0 <= t < i ==> entry_key(self@[t]) != k,
            decreases n - i,
        {
            let e = &self.entries[i];
            if str_eq(e.entity.as_str(), entity) && str_eq(e.attribute.as_str(), attribute)
                && str_eq(e.space.as_str(), space) {
                proof {
                    assert(entry_key(self@[i as int]) == k);
                }
                return Some(i);
            }
            proof {
                assert(entry_key(self@[i as int]) != k);
            }
            i = i + 1;
        }
        None
    }

    /// The version frontier of the entry at `i`.
    fn entry_frontier(&self, i: usize) -> (r: u64)
        requires
            i < self@.len(),
        ensures
            r == hist_frontier(self@[i as int].hist),
    {
        match &self.entries[i].live {
            Some(l) => l.min_version,
            None => {
                let m = self.entries[i].retired.len();
                if m > 0 {
                    self.entries[i].retired[m - 1].max_version
                } else {
                    0
                }
            },
        }
    }

    /// Insert an attribute edge: retire any live edge of
    /// `(entity, attribute, space)` displaced at `version` and install
    /// the new value; inserting the value already live is a no-op.
    /// Rejected exactly when `version` lies before the key's frontier.
    pub fn insert_triple(&mut self, space: &str, version: u64, triple: Triple) -> (r: Result<
        (),
        StoreError,
    >)
        requires
            wf_triple_store(old(self)@),
        ensures
            wf_triple_store(final (self)@),
            ({
                let k = TripleKey {
                    entity: triple@.entity,
                    attribute: triple@.attribute,
                    space: space@,
                };
                &&& (r is Ok <==> triple_op_ok(old(self)@, k, version))
                &&& r is Ok ==> final (self)@ == spec_triple_op(
                    old(self)@,
                    k,
                    HistOp::Write(triple@.value),
                    version,
                )
                &&& r is Err ==> final (self)@ == old(self)@ && r == Err::<
                    (),
                    StoreError,
                >(StoreError::Consistency)
            }),
    {
        let ghost k = TripleKey {
            entity: triple@.entity,
            attribute: triple@.attribute,
            space: space@,
        };
        let Triple { entity, attribute, value } = triple;
        match self.find_entry(entity.as_str(), attribute.as_str(), space) {
            Some(i) => {
                proof {
                    lemma_key_index(old(self)@, k, i as int);
                }
                let f = self.entry_frontier(i);
                if version < f {
                    return Err(StoreError::Consistency);
                }
                let ghost pre = self@;
                let mut e = self.entries.remove(i);
                entry_apply_write(&mut e, value, version);
                self.entries.insert(i, e);
                proof {
                    assert(self@ =~= pre.update(
                        i as int,
                        TripleEntryView {
                            hist: apply_hist_op(pre[i as int].hist, HistOp::Write(value@), version),
                            ..pre[i as int]
                        },
                    ));
                    crate::history::lemma_apply_op_wf(
                        pre[i as int].hist,
                        HistOp::Write(value@),
                        version,
                    );
                    lemma_store_update_wf(
                        pre,
                        i as int,
                        apply_hist_op(pre[i as int].hist, HistOp::Write(value@), version),
                    );
                }
                Ok(())
            },
            None => {
                let ghost pre = self@;
                self.entries.push(
                    TripleEntry {
                        entity,
                        attribute,
                        space: space.to_owned(),
                        retired: Vec::new(),
                        live: Some(LiveEdge { value, min_version: version }),
                    },
                );
                proof {
                    let fresh = TripleEntryView {
                        entity: k.entity,
                        attribute: k.attribute,
                        space: k.space,
                        hist: apply_hist_op(
                            empty_hist::<ValueView>(),
                            HistOp::Write(value@),
                            version,
                        ),
                    };
                    assert(self@.last().hist.retired =~= fresh.hist.retired);
                    assert(self@ =~= pre.push(fresh));
                    assert(wf_triple_store(self@)) by {
                        assert(forall|t: int|
                            0 <= t < pre.len() ==> entry_key(#[trigger] self@[t]) == entry_key(
                                pre[t],
                            ));
                        crate::history::lemma_apply_op_wf(
                            empty_hist::<ValueView>(),
                            HistOp::Write(value@),
                            version,
                        );
                    }
                }
                Ok(())
            },
        }
    }

    /// Retire the live edge of `(entity, attribute, space)` at
    /// `version`. Idempotent: with no live edge there is nothing to
    /// retire. Rejected exactly when `version` lies before the key's
    /// frontier.
    pub fn delete_triple(&mut self, space: &str, version: u64, entity: &str, attribute: &str) -> (r:
        Result<(), StoreError>)
        requires
            wf_triple_store(old(self)@),
        ensures
            wf_triple_store(final (self)@),
            ({
                let k = TripleKey { entity: entity@, attribute: attribute@, space: space@ };
                &&& (r is Ok <==> triple_op_ok(old(self)@, k, version))
                &&& r is Ok ==> final (self)@ == spec_triple_op(
                    old(self)@,
                    k,
                    HistOp::Delete,
                    version,
                )
                &&& r is Err ==> final (self)@ == old(self)@ && r == Err::<
                    (),
                    StoreError,
                >(StoreError::Consistency)
            }),
    {
        let ghost k = TripleKey { entity: entity@, attribute: attribute@, space: space@ };
        match self.find_entry(entity, attribute, space) {
            Some(i) => {
                proof {
                    lemma_key_index(old(self)@, k, i as int);
                }
                let f = self.entry_frontier(i);
                if version < f {
                    return Err(StoreError::Consistency);
                }
                let ghost pre = self@;
                let mut e = self.entries.remove(i);
                entry_apply_delete(&mut e, version);
                self.entries.insert(i, e);
                proof {
                    assert(self@ =~= pre.update(
                        i as int,
                        TripleEntryView {
                            hist: apply_hist_op(pre[i as int].hist, HistOp::Delete, version),
                            ..pre[i as int]
                        },
                    ));
                    crate::history::lemma_apply_op_wf(pre[i as int].hist, HistOp::Delete, version);
                    lemma_store_update_wf(
                        pre,
                        i as int,
                        apply_hist_op(pre[i as int].hist, HistOp::Delete, version),
                    );
                }
                Ok(())
            },
            None => {
                proof {
                    assert(self@ == spec_triple_op(self@, k, HistOp::Delete, version));
                }
                Ok(())
            },
        }
    }

    /// The version frontier of a key: the least version at which a
    /// mutation of it is consistent. A key without an entry has
    /// frontier zero.
    pub fn frontier(&self, entity: &str, attribute: &str, space: &str) -> (r: u64)
        requires
            wf_triple_store(self@),
        ensures
            r == crate::history::hist_frontier(
                entry_hist(
                    self@,
                    TripleKey { entity: entity@, attribute: attribute@, space: space@ },
                ),
            ),
    {
        let ghost k = TripleKey { entity: entity@, attribute: attribute@, space: space@ };
        match self.find_entry(entity, attribute, space) {
            Some(i) => {
                proof {
                    lemma_key_index(self@, k, i as int);
                }
                self.entry_frontier(i)
            },
            None => 0,
        }
    }

    /// The value of `(entity, attribute, space)` visible at a version:
    /// `None` reads the live view; `Some(v)` reads the edge whose
    /// interval contains `v`. Returns the value, or nothing where no
    /// edge is visible.
    pub fn find_triple(&self, attribute: &str, entity: &str, space: &str, version: Option<u64>) -> (
        r: Option<&Value>)
        requires
            wf_triple_store(self@),
        ensures
            ({
                let k = TripleKey { entity: entity@, attribute: attribute@, space: space@ };
                match r {
                    Some(val) => hist_value_at(entry_hist(self@, k), version) == Some(val@),
                    None => hist_value_at(entry_hist(self@, k), version) is None,
                }
            }),
    {
        let ghost k = TripleKey { entity: entity@, attribute: attribute@, space: space@ };
        match self.find_entry(entity, attribute, space) {
            Some(i) => {
                proof {
                    lemma_key_index(self@, k, i as int);
                }
                entry_value_at(&self.entries[i], version)
            },
            None => None,
        }
    }
}


/// Retiring every live edge of an entity in a space at `v`: each
/// matching key's history absorbs a delete; other keys are untouched.
pub open spec fn spec_delete_entity(
    s: Seq<TripleEntryView>,
    entity: Seq<char>,
    space: Seq<char>,
    v: u64,
) -> Seq<TripleEntryView> {
    Seq::new(
        s.len(),
        |i: int|
            if s[i].entity == entity && s[i].space == space {
                TripleEntryView { hist: apply_hist_op(s[i].hist, HistOp::Delete, v), ..s[i] }
            } else {
                s[i]
            },
    )
}

/// The condition under which retiring an entity is consistent: the
/// version is at or past the frontier of every matching key.
pub open spec fn delete_entity_ok(
    s: Seq<TripleEntryView>,
    entity: Seq<char>,
    space: Seq<char>,
    v: u64,
) -> bool {
    forall|i: int|
        0 <= i < s.len() && (#[trigger] s[i]).entity == entity && s[i].space == space
            ==> v >= hist_frontier(s[i].hist)
}

impl TripleStore {
    /// Retire all live attribute edges of an entity in a space at
    /// `version`: a logical per-space delete that keeps every retired
    /// edge readable at earlier versions. Does not cascade across
    /// spaces. Rejected, changing nothing, exactly when some matching
    /// key's frontier lies past `version`.
    #[verifier::loop_isolation(false)]
    pub fn delete_entity(&mut self, space: &str, version: u64, entity: &str) -> (r: Result<
        (),
        StoreError,
    >)
        requires
            wf_triple_store(old(self)@),
        ensures
            wf_triple_store(final (self)@),
            r is Ok <==> delete_entity_ok(old(self)@, entity@, space@, version),
            r is Ok ==> final (self)@ == spec_delete_entity(old(self)@, entity@, space@, version),
            r is Err ==> final (self)@ == old(self)@ && r == Err::<
                (),
                StoreError,
            >(StoreError::Consistency),
    {
        let ghost pre = self@;
        let n = self.entries.len();
        // First pass: check every matching key's frontier, so that a
        // rejected delete leaves the store untouched.
        let mut i: usize = 0;
        while i < n
            invariant
                0 <= i <= n,
                forall|t: int|
                    0 <= t < i && (#[trigger] pre[t]).entity == entity@ && pre[t].space == space@
                        ==> version >= hist_frontier(pre[t].hist),
            decreases n - i,
        {
            let e = &self.entries[i];
            proof {
                assert(self@[i as int] == e@);
            }
            if str_eq(e.entity.as_str(), entity) && str_eq(e.space.as_str(), space) {
                let f = self.entry_frontier(i);
                if version < f {
                    return Err(StoreError::Consistency);
                }
            }
            i = i + 1;
        }
        // Second pass: retire each matching key.
        let mut i: usize = 0;
        while i < n
            invariant
                0 <= i <= n,
                self@.len() == pre.len(),
                n == pre.len(),
                delete_entity_ok(pre, entity@, space@, version),
                forall|t: int|
                    0 <= t < pre.len() ==> (#[trigger] self@[t]) == if t < i && pre[t].entity
                        == entity@ && pre[t].space == space@ {
                        TripleEntryView {
                            hist: apply_hist_op(pre[t].hist, HistOp::Delete, version),
                            ..pre[t]
                        }
                    } else {
                        pre[t]
                    },
            decreases n - i,
        {
            let matches_key = {
                let e = &self.entries[i];
                proof {
                    assert(self@[i as int] == pre[i as int]);
                }
                str_eq(e.entity.as_str(), entity) && str_eq(e.space.as_str(), space)
            };
            if matches_key {
                let ghost mid = self@;
                let mut e = self.entries.remove(i);
                entry_apply_delete(&mut e, version);
                self.entries.insert(i, e);
                proof {
                    assert(self@ =~= mid.update(
                        i as int,
                        TripleEntryView {
                            hist: apply_hist_op(mid[i as int].hist, HistOp::Delete, version),
                            ..mid[i as int]
                        },
                    ));
                }
            }
            i = i + 1;
        }
        proof {
            assert(self@ =~= spec_delete_entity(pre, entity@, space@, version));
            assert(wf_triple_store(self@)) by {
                assert forall|t: int| 0 <= t < self@.len() implies wf_hist(
                    #[trigger] self@[t].hist,
                ) by {
                    if pre[t].entity == entity@ && pre[t].space == space@ {
                        crate::history::lemma_apply_op_wf(pre[t].hist, HistOp::Delete, version);
                    }
                }
                assert(forall|t: int|
                    0 <= t < self@.len() ==> entry_key(#[trigger] self@[t]) == entry_key(pre[t]));
            }
        }
        Ok(())
    }
}


/// Filter of a triple listing: any of the three key parts and the
/// raw value may be constrained; the version picks which edges are
/// read.
#[derive(Debug)]
pub struct TripleFilter {
    pub entity: Option<crate::filters::PropFilter<String>>,
    pub attribute: Option<crate::filters::PropFilter<String>>,
    pub space: Option<crate::filters::PropFilter<String>>,
    pub value: Option<crate::filters::PropFilter<String>>,
    pub version: Option<u64>,
}

/// Mathematical image of a [`TripleFilter`].
pub ghost struct TripleFilterView {
    pub entity: Option<crate::filters::PropFilterView>,
    pub attribute: Option<crate::filters::PropFilterView>,
    pub space: Option<crate::filters::PropFilterView>,
    pub value: Option<crate::filters::PropFilterView>,
    pub version: Option<u64>,
}

impl View for TripleFilter {
    type V = TripleFilterView;

    open spec fn view(&self) -> TripleFilterView {
        TripleFilterView {
            entity: match self.entity {
                Some(ref f) => Some(f@),
                None => None,
            },
            attribute: match self.attribute {
                Some(ref f) => Some(f@),
                None => None,
            },
            space: match self.space {
                Some(ref f) => Some(f@),
                None => None,
            },
            value: match self.value {
                Some(ref f) => Some(f@),
                None => None,
            },
            version: self.version,
        }
    }
}

impl Default for TripleFilter {
    fn default() -> (r: Self)
        ensures
            r@ == (TripleFilterView {
                entity: None,
                attribute: None,
                space: None,
                value: None,
                version: None,
            }),
    {
        TripleFilter { entity: None, attribute: None, space: None, value: None, version: None }
    }
}

impl TripleFilter {
    /// Constrain the entity.
    pub fn entity(self, entity: crate::filters::PropFilter<String>) -> (r: Self)
        ensures
            r@ == (TripleFilterView { entity: Some(entity@), ..self@ }),
    {
        TripleFilter { entity: Some(entity), ..self }
    }

    /// Constrain the attribute.
    pub fn attribute(self, attribute: crate::filters::PropFilter<String>) -> (r: Self)
        ensures
            r@ == (TripleFilterView { attribute: Some(attribute@), ..self@ }),
    {
        TripleFilter { attribute: Some(attribute), ..self }
    }

    /// Constrain the space.
    pub fn space(self, space: crate::filters::PropFilter<String>) -> (r: Self)
        ensures
            r@ == (TripleFilterView { space: Some(space@), ..self@ }),
    {
        TripleFilter { space: Some(space), ..self }
    }

    /// Constrain the raw value string.
    pub fn value(self, value: crate::filters::PropFilter<String>) -> (r: Self)
        ensures
            r@ == (TripleFilterView { value: Some(value@), ..self@ }),
    {
        TripleFilter { value: Some(value), ..self }
    }

    /// Read at a version instead of the live view.
    pub fn version(self, version: u64) -> (r: Self)
        ensures
            r@ == (TripleFilterView { version: Some(version), ..self@ }),
    {
        TripleFilter { version: Some(version), ..self }
    }
}

/// Whether an optional property filter accepts a string.
pub open spec fn opt_matches(
    f: Option<crate::filters::PropFilterView>,
    s: Seq<char>,
) -> bool {
    match f {
        Some(pf) => crate::filters::prop_filter_matches(pf, s),
        None => true,
    }
}

/// The triple an entry shows under a filter: the value visible at
/// the filter's read version, where every constrained part accepts.
pub open spec fn triple_filter_match(f: TripleFilterView, e: TripleEntryView) -> Option<
    TripleView,
> {
    if opt_matches(f.entity, e.entity) && opt_matches(f.attribute, e.attribute) && opt_matches(
        f.space,
        e.space,
    ) {
        match hist_value_at(e.hist, f.version) {
            Some(v) => if opt_matches(f.value, v.value) {
                Some(TripleView { entity: e.entity, attribute: e.attribute, value: v })
            } else {
                None
            },
            None => None,
        }
    } else {
        None
    }
}

/// The triples a store shows under a filter, in store order.
pub open spec fn triple_filter_matches(
    s: Seq<TripleEntryView>,
    f: TripleFilterView,
) -> Seq<TripleView>
    decreases s.len(),
{
    if s.len() == 0 {
        Seq::empty()
    } else {
        triple_filter_matches(s.drop_last(), f) + match triple_filter_match(f, s.last()) {
            Some(x) => seq![x],
            None => Seq::empty(),
        }
    }
}

/// The views of a triple list.
pub open spec fn triple_views(s: Seq<Triple>) -> Seq<TripleView> {
    s.map_values(|t: Triple| t@)
}

impl TripleStore {
    /// All triples the store shows under a filter, in store order:
    /// a lazy finite listing of the visible data plane.
    pub fn find_triples(&self, filter: &TripleFilter) -> (r: Vec<Triple>)
        requires
            wf_triple_store(self@),
        ensures
            triple_views(r@) == triple_filter_matches(self@, filter@),
    {
        let mut picked: Vec<Triple> = Vec::new();
        let n = self.entries.len();
        let mut i: usize = 0;
        while i < n
            invariant
                n == self.entries@.len(),
                n == self@.len(),
                0 <= i <= n,
                wf_triple_store(self@),
                triple_views(picked@) == triple_filter_matches(self@.take(i as int), filter@),
            decreases n - i,
        {
            let ghost pre = triple_views(picked@);
            let e = &self.entries[i];
            proof {
                assert(self@[i as int] == e@);
                assert(self@.take(i + 1).drop_last() =~= self@.take(i as int));
                assert(self@.take(i + 1).last() == e@);
            }
            let entity_ok = match &filter.entity {
                Some(pf) => pf.matches(e.entity.as_str()),
                None => true,
            };
            let attribute_ok = match &filter.attribute {
                Some(pf) => pf.matches(e.attribute.as_str()),
                None => true,
            };
            let space_ok = match &filter.space {
                Some(pf) => pf.matches(e.space.as_str()),
                None => true,
            };
            if entity_ok && attribute_ok && space_ok {
                match entry_value_at(e, filter.version) {
                    Some(v) => {
                        let value_ok = match &filter.value {
                            Some(pf) => pf.matches(v.value.as_str()),
                            None => true,
                        };
                        if value_ok {
                            let t = Triple::new(e.entity.clone(), e.attribute.clone(), v.clone());
                            let ghost tv = t@;
                            proof {
                                assert(triple_filter_match(filter@, e@) == Some(tv));
                            }
                            picked.push(t);
                            proof {
                                assert(triple_views(picked@) =~= pre.push(tv));
                                assert(triple_views(picked@) =~= triple_filter_matches(
                                    self@.take(i + 1),
                                    filter@,
                                ));
                            }
                        } else {
                            proof {
                                assert(triple_filter_match(filter@, e@) is None);
                                assert(triple_views(picked@) =~= triple_filter_matches(
                                    self@.take(i + 1),
                                    filter@,
                                ));
                            }
                        }
                    },
                    None => {
                        proof {
                            assert(triple_filter_match(filter@, e@) is None);
                            assert(triple_views(picked@) =~= triple_filter_matches(
                                self@.take(i + 1),
                                filter@,
                            ));
                        }
                    },
                }
            } else {
                proof {
                    assert(triple_filter_match(filter@, e@) is None);
                    assert(triple_views(picked@) =~= triple_filter_matches(
                        self@.take(i + 1),
                        filter@,
                    ));
                }
            }
            i = i + 1;
        }
        proof {
            assert(self@.take(n as int) =~= self@);
        }
        picked
    }
}


/// One attribute edge as the data plane shows it: a value with a
/// version interval, an absent end meaning live.
pub ghost struct AttrEdge {
    pub value: ValueView,
    pub min_version: u64,
    pub max_version: Option<u64>,
}

/// The edges of one key's history: the retired slices and, last, the
/// live edge if one stands.
pub open spec fn edges_of(h: Hist<ValueView>) -> Seq<AttrEdge> {
    h.retired.map_values(
        |s: crate::history::HistSlice<ValueView>|
            AttrEdge {
                value: s.value,
                min_version: s.min_version,
                max_version: Some(s.max_version),
            },
    ) + (match h.live {
        Some(l) => seq![
            AttrEdge { value: l.value, min_version: l.min_version, max_version: None },
        ],
        None => Seq::empty(),
    })
}

/// Whether an edge's interval covers a version.
pub open spec fn edge_covers(e: AttrEdge, v: u64) -> bool {
    e.min_version <= v && match e.max_version {
        Some(m) => v < m,
        None => true,
    }
}

/// Among the edges of one key, at most one is live: the count of
/// edges with an absent end never exceeds one.
pub proof fn lemma_single_live_edge(h: Hist<ValueView>, i: int, j: int)
    requires
        0 <= i < edges_of(h).len(),
        0 <= j < edges_of(h).len(),
        edges_of(h)[i].max_version is None,
        edges_of(h)[j].max_version is None,
    ensures
        i == j,
{
    let n = h.retired.len();
    if i < n {
        assert(edges_of(h)[i].max_version == Some(h.retired[i].max_version));
    }
    if j < n {
        assert(edges_of(h)[j].max_version == Some(h.retired[j].max_version));
    }
}

/// Among the edges of one well-formed key, version intervals are
/// pairwise disjoint: no version is covered by two edges.
pub proof fn lemma_intervals_disjoint(h: Hist<ValueView>, v: u64, i: int, j: int)
    requires
        wf_hist(h),
        0 <= i < edges_of(h).len(),
        0 <= j < edges_of(h).len(),
        edge_covers(edges_of(h)[i], v),
        edge_covers(edges_of(h)[j], v),
    ensures
        i == j,
{
    let n = h.retired.len();
    if i < n && j < n {
        assert(edges_of(h)[i].max_version == Some(h.retired[i].max_version));
        assert(edges_of(h)[j].max_version == Some(h.retired[j].max_version));
        crate::history::lemma_unique_slice(h, v, i, j);
    } else if i < n && j >= n {
        assert(h.retired[i].max_version <= h.live->Some_0.min_version);
        assert(edge_covers(edges_of(h)[i], v) && v < h.retired[i].max_version);
        assert(edges_of(h)[j].min_version == h.live->Some_0.min_version);
    } else if j < n && i >= n {
        assert(h.retired[j].max_version <= h.live->Some_0.min_version);
        assert(edge_covers(edges_of(h)[j], v) && v < h.retired[j].max_version);
        assert(edges_of(h)[i].min_version == h.live->Some_0.min_version);
    }
}

/// A key found at an index is the key's unique index.
pub proof fn lemma_key_index(s: Seq<TripleEntryView>, k: TripleKey, i: int)
    requires
        wf_triple_store(s),
        0 <= i < s.len(),
        entry_key(s[i]) == k,
    ensures
        store_has_key(s, k),
        store_index_of(s, k) == i,
        entry_hist(s, k) == s[i].hist,
{
    assert(store_has_key(s, k));
    let j = store_index_of(s, k);
    if i != j {
        assert(entry_key(s[i]) != entry_key(s[j]));
    }
}

/// Updating one entry's history keeps the store well-formed when the
/// new history is.
proof fn lemma_store_update_wf(s: Seq<TripleEntryView>, i: int, h: Hist<ValueView>)
    requires
        wf_triple_store(s),
        0 <= i < s.len(),
        wf_hist(h),
    ensures
        wf_triple_store(s.update(i, TripleEntryView { hist: h, ..s[i] })),
{
    let s2 = s.update(i, TripleEntryView { hist: h, ..s[i] });
    assert(forall|t: int| 0 <= t < s.len() ==> entry_key(#[trigger] s2[t]) == entry_key(s[t]));
    assert(forall|t: int|
        0 <= t < s2.len() ==> wf_hist(#[trigger] s2[t].hist) == if t == i {
            wf_hist(h)
        } else {
            wf_hist(s[t].hist)
        });
}

/// Mirror of one [`HistOp::Write`] on an entry.
fn entry_apply_write(e: &mut TripleEntry, value: Value, v: u64)
    ensures
        final (e)@ == (TripleEntryView {
            hist: apply_hist_op(old(e)@.hist, HistOp::Write(value@), v),
            ..old(e)@
        }),
{
    let ghost pre = e@;
    let is_noop = match &e.live {
        Some(l) => l.value == value,
        None => false,
    };
    if is_noop {
        return ;
    }
    match e.live.take() {
        Some(l) => {
            if l.min_version < v {
                let ghost old_retired = e.retired@;
                e.retired.push(
                    VersionSlice { value: l.value, min_version: l.min_version, max_version: v },
                );
                proof {
                    assert(e.retired@.map_values(|s: VersionSlice| s@) =~= old_retired.map_values(
                        |s: VersionSlice| s@,
                    ).push(
                        HistSlice { value: l@.value, min_version: l@.min_version, max_version: v },
                    ));
                }
            }
        },
        None => {},
    }
    e.live = Some(LiveEdge { value, min_version: v });
    proof {
        assert(final (e)@.hist =~= apply_hist_op(pre.hist, HistOp::Write(value@), v)) by {
            assert(final (e)@.hist.retired =~= crate::history::retired_after(pre.hist, v));
        }
    }
}

/// Mirror of one [`HistOp::Delete`] on an entry.
fn entry_apply_delete(e: &mut TripleEntry, v: u64)
    ensures
        final (e)@ == (TripleEntryView {
            hist: apply_hist_op(old(e)@.hist, HistOp::Delete, v),
            ..old(e)@
        }),
{
    let ghost pre = e@;
    match e.live.take() {
        Some(l) => {
            if l.min_version < v {
                let ghost old_retired = e.retired@;
                e.retired.push(
                    VersionSlice { value: l.value, min_version: l.min_version, max_version: v },
                );
                proof {
                    assert(e.retired@.map_values(|s: VersionSlice| s@) =~= old_retired.map_values(
                        |s: VersionSlice| s@,
                    ).push(
                        HistSlice { value: l@.value, min_version: l@.min_version, max_version: v },
                    ));
                }
            }
        },
        None => {},
    }
    proof {
        assert(final (e)@.hist =~= apply_hist_op(pre.hist, HistOp::Delete, v)) by {
            assert(final (e)@.hist.retired =~= crate::history::retired_after(pre.hist, v));
        }
    }
}

/// The value of an entry visible at a version.
fn entry_value_at(e: &TripleEntry, version: Option<u64>) -> (r: Option<&Value>)
    requires
        wf_hist(e@.hist),
    ensures
        match r {
            Some(val) => hist_value_at(e@.hist, version) == Some(val@),
            None => hist_value_at(e@.hist, version) is None,
        },
{
    match version {
        None => match &e.live {
            Some(l) => Some(&l.value),
            None => None,
        },
        Some(v) => {
            match &e.live {
                Some(l) => {
                    if l.min_version <= v {
                        return Some(&l.value);
                    }
                },
                None => {},
            }
            let n = e.retired.len();
            let mut i: usize = 0;
            while i < n
                invariant
                    version == Some(v),
                    n == e.retired@.len(),
                    0 <= i <= n,
                    wf_hist(e@.hist),
                    !(e@.hist.live is Some && e@.hist.live->Some_0.min_version <= v),
                    forall|t: int|
                        0 <= t < i ==> !((#[trigger] e@.hist.retired[t]).min_version <= v
                            < e@.hist.retired[t].max_version),
                decreases n - i,
            {
                let s = &e.retired[i];
                proof {
                    assert(e@.hist.retired[i as int] == e.retired@[i as int]@);
                }
                if s.min_version <= v && v < s.max_version {
                    proof {
                        assert(exists|t: int|
                            0 <= t < e@.hist.retired.len() && (
                            #[trigger] e@.hist.retired[t]).min_version <= v
                                < e@.hist.retired[t].max_version) by {
                            assert(e@.hist.retired[i as int].min_version <= v
                                < e@.hist.retired[i as int].max_version);
                        }
                        let w = choose|t: int|
                            0 <= t < e@.hist.retired.len() && (
                            #[trigger] e@.hist.retired[t]).min_version <= v
                                < e@.hist.retired[t].max_version;
                        crate::history::lemma_unique_slice(e@.hist, v, w, i as int);
                        assert(e@.hist.retired[i as int].value == s.value@);
                        assert(version == Some(v));
                        assert(hist_value_at(e@.hist, version) == Some((&s.value)@));
                    }
                    return Some(&s.value);
                }
                i = i + 1;
            }
            None
        },
    }
}

} // verus!
