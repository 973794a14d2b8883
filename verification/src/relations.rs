//! Versioned relation store.
//!
//! A relation is a first-class edge with its own identity: `id`,
//! `from`, `to`, `relation_type` and a sortable `index` value. Its
//! four constituent edges share one version tag per space and are
//! retired together, so the store keys a single history by
//! `(id, space)` whose payload carries all four parts. Listings come
//! back ordered by the index value, ties broken by the relation
//! identifier.

use vstd::multiset::Multiset;
use vstd::prelude::*;

use crate::attributes::AttributeNode;
use crate::history::{
    apply_hist_op,
    empty_hist,
    hist_frontier,
    hist_value_at,
    wf_hist,
    Hist,
    HistLive,
    HistOp,
    HistSlice,
};
use crate::filters::{prop_filter_matches, PropFilter, PropFilterView};
use crate::ids::{lex_lt, str_eq, str_lt};
use crate::store::StoreError;
use crate::system_ids;
use crate::value::{Value, ValueView};

verus! {

/// A relation as read and written: identity, endpoints, type and
/// ordering index.
#[derive(Debug)]
pub struct RelationNode {
    pub id: String,
    pub from: String,
    pub to: String,
    pub relation_type: String,
    pub index: AttributeNode,
}

/// Mathematical image of a [`RelationNode`].
pub ghost struct RelationNodeView {
    pub id: Seq<char>,
    pub from: Seq<char>,
    pub to: Seq<char>,
    pub relation_type: Seq<char>,
    pub index: ValueView,
}

impl View for RelationNode {
    type V = RelationNodeView;

    open spec fn view(&self) -> RelationNodeView {
        RelationNodeView {
            id: self.id@,
            from: self.from@,
            to: self.to@,
            relation_type: self.relation_type@,
            index: self.index@.value,
        }
    }
}

impl RelationNode {
    /// A relation from its parts.
    pub fn new(id: String, from: String, to: String, relation_type: String, index: Value) -> (r:
        Self)
        ensures
            r@.id == id@,
            r@.from == from@,
            r@.to == to@,
            r@.relation_type == relation_type@,
            r@.index == index@,
            r.index@.id == system_ids::RELATION_INDEX@,
    {
        RelationNode {
            id,
            from,
            to,
            relation_type,
            index: AttributeNode::new(system_ids::RELATION_INDEX, index),
        }
    }

    /// A relation of the TYPES relation type.
    pub fn new_types(id: String, from: String, to: String, index: Value) -> (r: Self)
        ensures
            r@.id == id@,
            r@.from == from@,
            r@.to == to@,
            r@.relation_type == system_ids::TYPES_ATTRIBUTE@,
            r@.index == index@,
    {
        RelationNode::new(id, from, to, system_ids::TYPES_ATTRIBUTE.to_owned(), index)
    }
}

impl Clone for RelationNode {
    fn clone(&self) -> (r: Self)
        ensures
            r@ == self@,
            r.index@.id == self.index@.id,
    {
        RelationNode {
            id: self.id.clone(),
            from: self.from.clone(),
            to: self.to.clone(),
            relation_type: self.relation_type.clone(),
            index: self.index.clone(),
        }
    }
}

/// The four-part payload of one relation version.
#[derive(Debug)]
pub struct RelPayload {
    pub from: String,
    pub to: String,
    pub relation_type: String,
    pub index: Value,
}

/// Mathematical image of a [`RelPayload`].
pub ghost struct RelPayloadView {
    pub from: Seq<char>,
    pub to: Seq<char>,
    pub relation_type: Seq<char>,
    pub index: ValueView,
}

impl View for RelPayload {
    type V = RelPayloadView;

    open spec fn view(&self) -> RelPayloadView {
        RelPayloadView {
            from: self.from@,
            to: self.to@,
            relation_type: self.relation_type@,
            index: self.index@,
        }
    }
}

impl Clone for RelPayload {
    fn clone(&self) -> (r: Self)
        ensures
            r@ == self@,
    {
        RelPayload {
            from: self.from.clone(),
            to: self.to.clone(),
            relation_type: self.relation_type.clone(),
            index: self.index.clone(),
        }
    }
}

fn rel_payload_eq(a: &RelPayload, b: &RelPayload) -> (r: bool)
    ensures
        r == (a@ == b@),
{
    let vals_eq = a.index == b.index;
    if str_eq(a.from.as_str(), b.from.as_str()) && str_eq(a.to.as_str(), b.to.as_str()) && str_eq(
        a.relation_type.as_str(),
        b.relation_type.as_str(),
    ) && vals_eq {
        true
    } else {
        false
    }
}

/// A retired relation version.
#[derive(Debug)]
pub struct RelSlice {
    pub payload: RelPayload,
    pub min_version: u64,
    pub max_version: u64,
}

impl View for RelSlice {
    type V = HistSlice<RelPayloadView>;

    open spec fn view(&self) -> HistSlice<RelPayloadView> {
        HistSlice {
            value: self.payload@,
            min_version: self.min_version,
            max_version: self.max_version,
        }
    }
}

/// The live relation version.
#[derive(Debug)]
pub struct RelLive {
    pub payload: RelPayload,
    pub min_version: u64,
}

impl View for RelLive {
    type V = HistLive<RelPayloadView>;

    open spec fn view(&self) -> HistLive<RelPayloadView> {
        HistLive { value: self.payload@, min_version: self.min_version }
    }
}

/// All versions of one `(id, space)` relation key.
#[derive(Debug)]
pub struct RelEntry {
    pub id: String,
    pub space: String,
    pub retired: Vec<RelSlice>,
    pub live: Option<RelLive>,
}

/// Mathematical image of a [`RelEntry`].
pub ghost struct RelEntryView {
    pub id: Seq<char>,
    pub space: Seq<char>,
    pub hist: Hist<RelPayloadView>,
}

impl View for RelEntry {
    type V = RelEntryView;

    open spec fn view(&self) -> RelEntryView {
        RelEntryView {
            id: self.id@,
            space: self.space@,
            hist: Hist {
                retired: self.retired@.map_values(|s: RelSlice| s@),
                live: match self.live {
                    Some(ref l) => Some(l@),
                    None => None,
                },
            },
        }
    }
}

/// The key of a relation history.
pub ghost struct RelKey {
    pub id: Seq<char>,
    pub space: Seq<char>,
}

/// The key of an entry.
pub open spec fn rel_entry_key(e: RelEntryView) -> RelKey {
    RelKey { id: e.id, space: e.space }
}

/// Whether the store holds an entry for a key.
pub open spec fn rel_has_key(s: Seq<RelEntryView>, k: RelKey) -> bool {
    exists|i: int| 0 <= i < s.len() && rel_entry_key(#[trigger] s[i]) == k
}

/// The index of the entry for a key.
pub open spec fn rel_index_of(s: Seq<RelEntryView>, k: RelKey) -> int {
    choose|i: int| 0 <= i < s.len() && rel_entry_key(#[trigger] s[i]) == k
}

/// The history of a key, or the empty history.
pub open spec fn rel_hist(s: Seq<RelEntryView>, k: RelKey) -> Hist<RelPayloadView> {
    if rel_has_key(s, k) {
        s[rel_index_of(s, k)].hist
    } else {
        empty_hist()
    }
}

/// Well-formed relation store: keys unique, histories well-formed.
pub open spec fn wf_relation_store(s: Seq<RelEntryView>) -> bool {
    &&& forall|i: int, j: int|
        0 <= i < j < s.len() ==> rel_entry_key(s[i]) != rel_entry_key(s[j])
    &&& forall|i: int| 0 <= i < s.len() ==> wf_hist(#[trigger] s[i].hist)
}

/// One mutation of the relation store at a key.
pub open spec fn spec_rel_op(
    s: Seq<RelEntryView>,
    k: RelKey,
    op: HistOp<RelPayloadView>,
    v: u64,
) -> Seq<RelEntryView> {
    if rel_has_key(s, k) {
        let i = rel_index_of(s, k);
        s.update(i, RelEntryView { hist: apply_hist_op(s[i].hist, op, v), ..s[i] })
    } else {
        match op {
            HistOp::Write(_) => s.push(
                RelEntryView { id: k.id, space: k.space, hist: apply_hist_op(empty_hist(), op, v) },
            ),
            HistOp::Delete => s,
        }
    }
}

/// The consistency condition of a relation mutation.
pub open spec fn rel_op_ok(s: Seq<RelEntryView>, k: RelKey, v: u64) -> bool {
    v >= hist_frontier(rel_hist(s, k))
}

/// The versioned relation store.
#[derive(Debug)]
pub struct RelationStore {
    pub entries: Vec<RelEntry>,
}

impl View for RelationStore {
    type V = Seq<RelEntryView>;

    open spec fn view(&self) -> Seq<RelEntryView> {
        self.entries@.map_values(|e: RelEntry| e@)
    }
}

/// A key found at an index is the key's unique index.
pub proof fn lemma_rel_key_index(s: Seq<RelEntryView>, k: RelKey, i: int)
    requires
        wf_relation_store(s),
        0 <= i < s.len(),
        rel_entry_key(s[i]) == k,
    ensures
        rel_has_key(s, k),
        rel_index_of(s, k) == i,
        rel_hist(s, k) == s[i].hist,
{
    assert(rel_has_key(s, k));
    let j = rel_index_of(s, k);
    if i != j {
        assert(rel_entry_key(s[i]) != rel_entry_key(s[j]));
    }
}

proof fn lemma_rel_update_wf(s: Seq<RelEntryView>, i: int, h: Hist<RelPayloadView>)
    requires
        wf_relation_store(s),
        0 <= i < s.len(),
        wf_hist(h),
    ensures
        wf_relation_store(s.update(i, RelEntryView { hist: h, ..s[i] })),
{
    let s2 = s.update(i, RelEntryView { hist: h, ..s[i] });
    assert(forall|t: int| 0 <= t < s.len() ==> rel_entry_key(#[trigger] s2[t]) == rel_entry_key(
        s[t],
    ));
    assert(forall|t: int|
        0 <= t < s2.len() ==> wf_hist(#[trigger] s2[t].hist) == if t == i {
            wf_hist(h)
        } else {
            wf_hist(s[t].hist)
        });
}

fn rel_apply_write(e: &mut RelEntry, payload: RelPayload, v: u64)
    ensures
        final (e)@ == (RelEntryView {
            hist: apply_hist_op(old(e)@.hist, HistOp::Write(payload@), v),
            ..old(e)@
        }),
{
    let ghost pre = e@;
    let is_noop = match &e.live {
        Some(l) => rel_payload_eq(&l.payload, &payload),
        None => false,
    };
    if is_noop {
        return ;
    }
    match e.live.take() {
        Some(l) => {
            if l.min_version < v {
                let ghost old_retired = e.retired@;
                e.retired.push(
                    RelSlice { payload: l.payload, min_version: l.min_version, max_version: v },
                );
                proof {
                    assert(e.retired@.map_values(|s: RelSlice| s@) =~= old_retired.map_values(
                        |s: RelSlice| s@,
                    ).push(
                        HistSlice { value: l@.value, min_version: l@.min_version, max_version: v },
                    ));
                }
            }
        },
        None => {},
    }
    e.live = Some(RelLive { payload, min_version: v });
    proof {
        assert(final (e)@.hist =~= apply_hist_op(pre.hist, HistOp::Write(payload@), v)) by {
            assert(final (e)@.hist.retired =~= crate::history::retired_after(pre.hist, v));
        }
    }
}

fn rel_apply_delete(e: &mut RelEntry, v: u64)
    ensures
        final (e)@ == (RelEntryView {
            hist: apply_hist_op(old(e)@.hist, HistOp::Delete, v),
            ..old(e)@
        }),
{
    let ghost pre = e@;
    match e.live.take() {
        Some(l) => {
            if l.min_version < v {
                let ghost old_retired = e.retired@;
                e.retired.push(
                    RelSlice { payload: l.payload, min_version: l.min_version, max_version: v },
                );
                proof {
                    assert(e.retired@.map_values(|s: RelSlice| s@) =~= old_retired.map_values(
                        |s: RelSlice| s@,
                    ).push(
                        HistSlice { value: l@.value, min_version: l@.min_version, max_version: v },
                    ));
                }
            }
        },
        None => {},
    }
    proof {
        assert(final (e)@.hist =~= apply_hist_op(pre.hist, HistOp::Delete, v)) by {
            assert(final (e)@.hist.retired =~= crate::history::retired_after(pre.hist, v));
        }
    }
}

impl RelationStore {
    /// The empty store.
    pub fn new() -> (r: Self)
        ensures
            r@ == Seq::<RelEntryView>::empty(),
            wf_relation_store(r@),
    {
        let r = RelationStore { entries: Vec::new() };
        proof {
            assert(r@ =~= Seq::<RelEntryView>::empty());
        }
        r
    }

    /// Locate the entry of a key.
    fn find_entry(&self, id: &str, space: &str) -> (r: Option<usize>)
        ensures
            match r {
                Some(i) => i < self@.len() && rel_entry_key(self@[i as int]) == (RelKey {
                    id: id@,
                    space: space@,
                }),
                None => !rel_has_key(self@, RelKey { id: id@, space: space@ }),
            },
    {
        let ghost k = RelKey { id: id@, space: space@ };
        let n = self.entries.len();
        let mut i: usize = 0;
        while i < n
            invariant
                n == self.entries@.len(),
                n == self@.len(),
                0 <= i <= n,
                k == (RelKey { id: id@, space: space@ }),
                forall|t: int| 0 <= t < i ==> rel_entry_key(self@[t]) != k,
            decreases n - i,
        {
            let e = &self.entries[i];
            if str_eq(e.id.as_str(), id) && str_eq(e.space.as_str(), space) {
                proof {
                    assert(rel_entry_key(self@[i as int]) == k);
                }
                return Some(i);
            }
            proof {
                assert(rel_entry_key(self@[i as int]) != k);
            }
            i = i + 1;
        }
        None
    }

    fn entry_frontier(&self, i: usize) -> (r: u64)
        requires
            i < self@.len(),
        ensures
            r == hist_frontier(self@[i as int].hist),
    {
        match &self.entries[i].live {
            Some(l) => l.min_version,
            None => {
                let m = self.entries[i].retired.len();
                if m > 0 {
                    self.entries[i].retired[m - 1].max_version
                } else {
                    0
                }
            },
        }
    }

    /// Insert a relation: retire any live version of the same
    /// `(id, space)` displaced at `version`, and install the four
    /// parts together under one tag. Inserting the version already
    /// live is a no-op. Rejected exactly when `version` lies before
    /// the key's frontier.
    pub fn insert_relation(&mut self, space: &str, version: u64, relation: RelationNode) -> (r:
        Result<(), StoreError>)
        requires
            wf_relation_store(old(self)@),
        ensures
            wf_relation_store(final (self)@),
            ({
                let k = RelKey { id: relation@.id, space: space@ };
                let p = RelPayloadView {
                    from: relation@.from,
                    to: relation@.to,
                    relation_type: relation@.relation_type,
                    index: relation@.index,
                };
                &&& (r is Ok <==> rel_op_ok(old(self)@, k, version))
                &&& r is Ok ==> final (self)@ == spec_rel_op(
                    old(self)@,
                    k,
                    HistOp::Write(p),
                    version,
                )
                &&& r is Err ==> final (self)@ == old(self)@ && r == Err::<
                    (),
                    StoreError,
                >(StoreError::Consistency)
            }),
    {
        let ghost k = RelKey { id: relation@.id, space: space@ };
        let RelationNode { id, from, to, relation_type, index } = relation;
        let payload = RelPayload { from, to, relation_type, index: index.value };
        match self.find_entry(id.as_str(), space) {
            Some(i) => {
                proof {
                    lemma_rel_key_index(old(self)@, k, i as int);
                }
                let f = self.entry_frontier(i);
                if version < f {
                    return Err(StoreError::Consistency);
                }
                let ghost pre = self@;
                let mut e = self.entries.remove(i);
                rel_apply_write(&mut e, payload, version);
                self.entries.insert(i, e);
                proof {
                    assert(self@ =~= pre.update(
                        i as int,
                        RelEntryView {
                            hist: apply_hist_op(
                                pre[i as int].hist,
                                HistOp::Write(payload@),
                                version,
                            ),
                            ..pre[i as int]
                        },
                    ));
                    crate::history::lemma_apply_op_wf(
                        pre[i as int].hist,
                        HistOp::Write(payload@),
                        version,
                    );
                    lemma_rel_update_wf(
                        pre,
                        i as int,
                        apply_hist_op(pre[i as int].hist, HistOp::Write(payload@), version),
                    );
                }
                Ok(())
            },
            None => {
                let ghost pre = self@;
                self.entries.push(
                    RelEntry {
                        id,
                        space: space.to_owned(),
                        retired: Vec::new(),
                        live: Some(RelLive { payload, min_version: version }),
                    },
                );
                proof {
                    let fresh = RelEntryView {
                        id: k.id,
                        space: k.space,
                        hist: apply_hist_op(
                            empty_hist::<RelPayloadView>(),
                            HistOp::Write(payload@),
                            version,
                        ),
                    };
                    assert(self@.last().hist.retired =~= fresh.hist.retired);
                    assert(self@ =~= pre.push(fresh));
                    assert(wf_relation_store(self@)) by {
                        assert(forall|t: int|
                            0 <= t < pre.len() ==> rel_entry_key(#[trigger] self@[t])
                                == rel_entry_key(pre[t]));
                        crate::history::lemma_apply_op_wf(
                            empty_hist::<RelPayloadView>(),
                            HistOp::Write(payload@),
                            version,
                        );
                    }
                }
                Ok(())
            },
        }
    }

    /// Retire all four live edges of a relation at `version`.
    /// Idempotent. Rejected exactly when `version` lies before the
    /// key's frontier.
    pub fn delete_relation(&mut self, space: &str, version: u64, id: &str) -> (r: Result<
        (),
        StoreError,
    >)
        requires
            wf_relation_store(old(self)@),
        ensures
            wf_relation_store(final (self)@),
            ({
                let k = RelKey { id: id@, space: space@ };
                &&& (r is Ok <==> rel_op_ok(old(self)@, k, version))
                &&& r is Ok ==> final (self)@ == spec_rel_op(old(self)@, k, HistOp::Delete, version)
                &&& r is Err ==> final (self)@ == old(self)@ && r == Err::<
                    (),
                    StoreError,
                >(StoreError::Consistency)
            }),
    {
        let ghost k = RelKey { id: id@, space: space@ };
        match self.find_entry(id, space) {
            Some(i) => {
                proof {
                    lemma_rel_key_index(old(self)@, k, i as int);
                }
                let f = self.entry_frontier(i);
                if version < f {
                    return Err(StoreError::Consistency);
                }
                let ghost pre = self@;
                let mut e = self.entries.remove(i);
                rel_apply_delete(&mut e, version);
                self.entries.insert(i, e);
                proof {
                    assert(self@ =~= pre.update(
                        i as int,
                        RelEntryView {
                            hist: apply_hist_op(pre[i as int].hist, HistOp::Delete, version),
                            ..pre[i as int]
                        },
                    ));
                    crate::history::lemma_apply_op_wf(pre[i as int].hist, HistOp::Delete, version);
                    lemma_rel_update_wf(
                        pre,
                        i as int,
                        apply_hist_op(pre[i as int].hist, HistOp::Delete, version),
                    );
                }
                Ok(())
            },
            None => {
                proof {
                    assert(self@ == spec_rel_op(self@, k, HistOp::Delete, version));
                }
                Ok(())
            },
        }
    }

    /// The version frontier of a relation key. A key without an entry
    /// has frontier zero.
    pub fn frontier(&self, id: &str, space: &str) -> (r: u64)
        requires
            wf_relation_store(self@),
        ensures
            r == hist_frontier(rel_hist(self@, RelKey { id: id@, space: space@ })),
    {
        let ghost k = RelKey { id: id@, space: space@ };
        match self.find_entry(id, space) {
            Some(i) => {
                proof {
                    lemma_rel_key_index(self@, k, i as int);
                }
                self.entry_frontier(i)
            },
            None => 0,
        }
    }

    /// The relation of `(id, space)` visible at a version.
    pub fn find_relation(&self, id: &str, space: &str, version: Option<u64>) -> (r: Option<
        RelationNode,
    >)
        requires
            wf_relation_store(self@),
        ensures
            ({
                let k = RelKey { id: id@, space: space@ };
                match r {
                    Some(rel) => hist_value_at(rel_hist(self@, k), version) == Some(
                        RelPayloadView {
                            from: rel@.from,
                            to: rel@.to,
                            relation_type: rel@.relation_type,
                            index: rel@.index,
                        },
                    ) && rel@.id == id@,
                    None => hist_value_at(rel_hist(self@, k), version) is None,
                }
            }),
    {
        let ghost k = RelKey { id: id@, space: space@ };
        match self.find_entry(id, space) {
            Some(i) => {
                proof {
                    lemma_rel_key_index(self@, k, i as int);
                }
                match rel_entry_value_at(&self.entries[i], version) {
                    Some(p) => Some(
                        RelationNode::new(
                            id.to_owned(),
                            p.from.clone(),
                            p.to.clone(),
                            p.relation_type.clone(),
                            p.index.clone(),
                        ),
                    ),
                    None => None,
                }
            },
            None => None,
        }
    }
}

/// The payload of an entry visible at a version.
fn rel_entry_value_at(e: &RelEntry, version: Option<u64>) -> (r: Option<&RelPayload>)
    requires
        wf_hist(e@.hist),
    ensures
        match r {
            Some(p) => hist_value_at(e@.hist, version) == Some(p@),
            None => hist_value_at(e@.hist, version) is None,
        },
{
    match version {
        None => match &e.live {
            Some(l) => Some(&l.payload),
            None => None,
        },
        Some(v) => {
            match &e.live {
                Some(l) => {
                    if l.min_version <= v {
                        return Some(&l.payload);
                    }
                },
                None => {},
            }
            let n = e.retired.len();
            let mut i: usize = 0;
            while i < n
                invariant
                    version == Some(v),
                    n == e.retired@.len(),
                    0 <= i <= n,
                    wf_hist(e@.hist),
                    !(e@.hist.live is Some && e@.hist.live->Some_0.min_version <= v),
                    forall|t: int|
                        0 <= t < i ==> !((#[trigger] e@.hist.retired[t]).min_version <= v
                            < e@.hist.retired[t].max_version),
                decreases n - i,
            {
                let s = &e.retired[i];
                proof {
                    assert(e@.hist.retired[i as int] == e.retired@[i as int]@);
                }
                if s.min_version <= v && v < s.max_version {
                    proof {
                        assert(exists|t: int|
                            0 <= t < e@.hist.retired.len() && (
                            #[trigger] e@.hist.retired[t]).min_version <= v
                                < e@.hist.retired[t].max_version) by {
                            assert(e@.hist.retired[i as int].min_version <= v
                                < e@.hist.retired[i as int].max_version);
                        }
                        let w = choose|t: int|
                            0 <= t < e@.hist.retired.len() && (
                            #[trigger] e@.hist.retired[t]).min_version <= v
                                < e@.hist.retired[t].max_version;
                        crate::history::lemma_unique_slice(e@.hist, v, w, i as int);
                        assert(e@.hist.retired[i as int].value == s.payload@);
                        assert(hist_value_at(e@.hist, version) == Some(s.payload@));
                    }
                    return Some(&s.payload);
                }
                i = i + 1;
            }
            None
        },
    }
}


/// Filter of a relation listing: any of the five fields may be
/// constrained; the version picks which relation versions are read.
#[derive(Debug)]
pub struct RelationFilter {
    pub id: Option<PropFilter<String>>,
    pub space_id: Option<PropFilter<String>>,
    pub relation_type: Option<PropFilter<String>>,
    pub from_id: Option<PropFilter<String>>,
    pub to_id: Option<PropFilter<String>>,
    pub version: Option<u64>,
}

/// Mathematical image of a [`RelationFilter`].
pub ghost struct RelationFilterView {
    pub id: Option<PropFilterView>,
    pub space_id: Option<PropFilterView>,
    pub relation_type: Option<PropFilterView>,
    pub from_id: Option<PropFilterView>,
    pub to_id: Option<PropFilterView>,
    pub version: Option<u64>,
}

impl View for RelationFilter {
    type V = RelationFilterView;

    open spec fn view(&self) -> RelationFilterView {
        RelationFilterView {
            id: match self.id {
                Some(ref f) => Some(f@),
                None => None,
            },
            space_id: match self.space_id {
                Some(ref f) => Some(f@),
                None => None,
            },
            relation_type: match self.relation_type {
                Some(ref f) => Some(f@),
                None => None,
            },
            from_id: match self.from_id {
                Some(ref f) => Some(f@),
                None => None,
            },
            to_id: match self.to_id {
                Some(ref f) => Some(f@),
                None => None,
            },
            version: self.version,
        }
    }
}

impl Default for RelationFilter {
    fn default() -> (r: Self)
        ensures
            r@ == (RelationFilterView {
                id: None,
                space_id: None,
                relation_type: None,
                from_id: None,
                to_id: None,
                version: None,
            }),
    {
        RelationFilter {
            id: None,
            space_id: None,
            relation_type: None,
            from_id: None,
            to_id: None,
            version: None,
        }
    }
}

impl RelationFilter {
    /// Constrain the relation identifier.
    pub fn id(self, id: PropFilter<String>) -> (r: Self)
        ensures
            r@ == (RelationFilterView { id: Some(id@), ..self@ }),
    {
        RelationFilter { id: Some(id), ..self }
    }

    /// Constrain the space.
    pub fn space_id(self, space_id: PropFilter<String>) -> (r: Self)
        ensures
            r@ == (RelationFilterView { space_id: Some(space_id@), ..self@ }),
    {
        RelationFilter { space_id: Some(space_id), ..self }
    }

    /// Constrain the relation type.
    pub fn relation_type(self, relation_type: PropFilter<String>) -> (r: Self)
        ensures
            r@ == (RelationFilterView { relation_type: Some(relation_type@), ..self@ }),
    {
        RelationFilter { relation_type: Some(relation_type), ..self }
    }

    /// Constrain the source entity.
    pub fn from_id(self, from_id: PropFilter<String>) -> (r: Self)
        ensures
            r@ == (RelationFilterView { from_id: Some(from_id@), ..self@ }),
    {
        RelationFilter { from_id: Some(from_id), ..self }
    }

    /// Constrain the target entity.
    pub fn to_id(self, to_id: PropFilter<String>) -> (r: Self)
        ensures
            r@ == (RelationFilterView { to_id: Some(to_id@), ..self@ }),
    {
        RelationFilter { to_id: Some(to_id), ..self }
    }

    /// Read at a version instead of the live view.
    pub fn version(self, version: u64) -> (r: Self)
        ensures
            r@ == (RelationFilterView { version: Some(version), ..self@ }),
    {
        RelationFilter { version: Some(version), ..self }
    }
}

/// Whether an optional property filter accepts a string.
pub open spec fn opt_filter_matches(f: Option<PropFilterView>, s: Seq<char>) -> bool {
    match f {
        Some(pf) => prop_filter_matches(pf, s),
        None => true,
    }
}

/// The relation an entry shows under a filter: the version visible at
/// the filter's read version, where every constrained field accepts.
pub open spec fn rel_filter_match(f: RelationFilterView, e: RelEntryView) -> Option<
    RelationNodeView,
> {
    if opt_filter_matches(f.id, e.id) && opt_filter_matches(f.space_id, e.space) {
        match hist_value_at(e.hist, f.version) {
            Some(p) => if opt_filter_matches(f.relation_type, p.relation_type)
                && opt_filter_matches(f.from_id, p.from) && opt_filter_matches(f.to_id, p.to) {
                Some(
                    RelationNodeView {
                        id: e.id,
                        from: p.from,
                        to: p.to,
                        relation_type: p.relation_type,
                        index: p.index,
                    },
                )
            } else {
                None
            },
            None => None,
        }
    } else {
        None
    }
}

/// The relations a store shows under a filter, in store order.
pub open spec fn rel_filter_matches(
    s: Seq<RelEntryView>,
    f: RelationFilterView,
) -> Seq<RelationNodeView>
    decreases s.len(),
{
    if s.len() == 0 {
        Seq::empty()
    } else {
        rel_filter_matches(s.drop_last(), f) + match rel_filter_match(f, s.last()) {
            Some(x) => seq![x],
            None => Seq::empty(),
        }
    }
}

/// Listing order: by index value, ties broken by relation identifier.
pub open spec fn rel_leq(a: RelationNodeView, b: RelationNodeView) -> bool {
    lex_lt(a.index.value, b.index.value) || (a.index.value == b.index.value && (lex_lt(a.id, b.id)
        || a.id == b.id))
}

/// Lexicographic order is total: two sequences neither of which comes
/// before the other are equal.
pub proof fn lemma_lex_total(a: Seq<char>, b: Seq<char>)
    requires
        !lex_lt(a, b),
        !lex_lt(b, a),
    ensures
        a == b,
    decreases a.len(),
{
    if b.len() == 0 {
        assert(a.len() == 0);
        assert(a =~= b);
    } else if a.len() == 0 {
        assert(lex_lt(a, b));
    } else {
        if a[0] != b[0] {
        } else {
            assert(lex_lt(a, b) == lex_lt(a.skip(1), b.skip(1)));
            assert(lex_lt(b, a) == lex_lt(b.skip(1), a.skip(1)));
            lemma_lex_total(a.skip(1), b.skip(1));
            assert(a.skip(1).len() == a.len() - 1);
            assert(b.skip(1).len() == b.len() - 1);
            assert(a.len() == b.len());
            assert forall|i: int| 0 <= i < a.len() implies a[i] == b[i] by {
                if i > 0 {
                    assert(a[i] == a.skip(1)[i - 1]);
                    assert(b[i] == b.skip(1)[i - 1]);
                }
            }
            assert(a =~= b);
        }
    }
}

/// Exec form of [`rel_leq`].
fn rel_le(a: &RelationNode, b: &RelationNode) -> (r: bool)
    ensures
        r == rel_leq(a@, b@),
{
    if str_lt(a.index.value.value.as_str(), b.index.value.value.as_str()) {
        return true;
    }
    if str_lt(b.index.value.value.as_str(), a.index.value.value.as_str()) {
        return false;
    }
    proof {
        lemma_lex_total(a@.index.value, b@.index.value);
    }
    str_lt(a.id.as_str(), b.id.as_str()) || str_eq(a.id.as_str(), b.id.as_str())
}

/// The views of a relation list.
pub open spec fn rel_views(s: Seq<RelationNode>) -> Seq<RelationNodeView> {
    s.map_values(|r: RelationNode| r@)
}

/// Sort relations by `(index, id)`: the result is ordered and holds
/// exactly the input's relations.
fn sort_relations(input: Vec<RelationNode>) -> (r: Vec<RelationNode>)
    ensures
        rel_views(r@).to_multiset() == rel_views(input@).to_multiset(),
        forall|i: int, j: int|
            0 <= i < j < r@.len() ==> rel_leq(rel_views(r@)[i], rel_views(r@)[j]),
{
    broadcast use vstd::seq_lib::group_to_multiset_ensures;

    let ghost m0 = rel_views(input@).to_multiset();
    let mut rest = input;
    let mut out: Vec<RelationNode> = Vec::new();
    while rest.len() > 0
        invariant
            rel_views(out@).to_multiset().add(rel_views(rest@).to_multiset()) == m0,
            forall|i: int, j: int|
                0 <= i < j < out@.len() ==> rel_leq(rel_views(out@)[i], rel_views(out@)[j]),
            forall|i: int, j: int|
                0 <= i < out@.len() && 0 <= j < rest@.len() ==> rel_leq(
                    rel_views(out@)[i],
                    rel_views(rest@)[j],
                ),
        decreases rest@.len(),
    {
        broadcast use vstd::seq_lib::group_to_multiset_ensures;

        let n = rest.len();
        let mut best: usize = 0;
        let mut j: usize = 1;
        while j < n
            invariant
                n == rest@.len(),
                0 <= best < n,
                1 <= j <= n,
                forall|t: int| 0 <= t < j ==> rel_leq(rel_views(rest@)[best as int], rel_views(
                    rest@,
                )[t]),
            decreases n - j,
        {
            if !rel_le(&rest[best], &rest[j]) {
                proof {
                    lemma_rel_leq_total(rest@[best as int]@, rest@[j as int]@);
                    assert forall|t: int| 0 <= t < j + 1 implies rel_leq(
                        rel_views(rest@)[j as int],
                        rel_views(rest@)[t],
                    ) by {
                        assert(rel_views(rest@)[best as int] == rest@[best as int]@);
                        assert(rel_views(rest@)[j as int] == rest@[j as int]@);
                        assert(rel_views(rest@)[t] == rest@[t]@);
                        if t != j {
                            lemma_rel_leq_trans(
                                rest@[j as int]@,
                                rest@[best as int]@,
                                rest@[t]@,
                            );
                        }
                    }
                }
                best = j;
            }
            j = j + 1;
        }
        let ghost pre_rest = rest@;
        let ghost pre_out = out@;
        let x = rest.remove(best);
        out.push(x);
        proof {
            assert(rel_views(pre_rest).contains(x@)) by {
                assert(rel_views(pre_rest)[best as int] == x@);
            }
            assert(rel_views(rest@) =~= rel_views(pre_rest).remove(best as int));
            assert(rel_views(out@) =~= rel_views(pre_out).push(x@));
            assert(rel_views(out@).to_multiset() =~= rel_views(pre_out).to_multiset().insert(x@));
            assert(rel_views(rest@).to_multiset() =~= rel_views(pre_rest).to_multiset().remove(
                x@,
            ));
            assert(rel_views(pre_rest).to_multiset().count(x@) > 0);
            assert(rel_views(out@).to_multiset().add(rel_views(rest@).to_multiset())
                =~= rel_views(pre_out).to_multiset().add(rel_views(pre_rest).to_multiset()));
            assert forall|i: int, j2: int|
                0 <= i < out@.len() && 0 <= j2 < rest@.len() implies rel_leq(
                rel_views(out@)[i],
                rel_views(rest@)[j2],
            ) by {
                let y = rel_views(rest@)[j2];
                assert(rel_views(rest@)[j2] == if j2 < best {
                    rel_views(pre_rest)[j2]
                } else {
                    rel_views(pre_rest)[j2 + 1]
                });
                if i < out@.len() - 1 {
                    assert(rel_views(out@)[i] == rel_views(pre_out)[i]);
                } else {
                    assert(rel_views(out@)[i] == x@);
                }
            }
        }
    }
    proof {
        assert(rel_views(rest@).to_multiset() =~= Multiset::<RelationNodeView>::empty()) by {
            assert(rest@.len() == 0);
            assert(rel_views(rest@) =~= Seq::<RelationNodeView>::empty());
        }
        assert(rel_views(out@).to_multiset() =~= m0);
    }
    out
}

/// The listing order is total.
proof fn lemma_rel_leq_total(a: RelationNodeView, b: RelationNodeView)
    ensures
        rel_leq(a, b) || rel_leq(b, a),
{
    if !lex_lt(a.index.value, b.index.value) && !lex_lt(b.index.value, a.index.value) {
        lemma_lex_total(a.index.value, b.index.value);
        if !lex_lt(a.id, b.id) && !lex_lt(b.id, a.id) {
            lemma_lex_total(a.id, b.id);
        }
    }
}

/// Lexicographic order is transitive.
proof fn lemma_lex_trans(a: Seq<char>, b: Seq<char>, c: Seq<char>)
    requires
        lex_lt(a, b),
        lex_lt(b, c),
    ensures
        lex_lt(a, c),
    decreases a.len(),
{
    if c.len() == 0 {
        assert(!lex_lt(b, c));
    } else if a.len() == 0 {
    } else {
        assert(b.len() > 0);
        if a[0] != b[0] {
            if b[0] != c[0] {
            } else {
            }
        } else {
            if b[0] != c[0] {
            } else {
                lemma_lex_trans(a.skip(1), b.skip(1), c.skip(1));
            }
        }
    }
}

/// The listing order is transitive.
proof fn lemma_rel_leq_trans(a: RelationNodeView, b: RelationNodeView, c: RelationNodeView)
    requires
        rel_leq(a, b),
        rel_leq(b, c),
    ensures
        rel_leq(a, c),
{
    if lex_lt(a.index.value, b.index.value) && lex_lt(b.index.value, c.index.value) {
        lemma_lex_trans(a.index.value, b.index.value, c.index.value);
    } else if a.index.value == b.index.value && b.index.value == c.index.value {
        if lex_lt(a.id, b.id) && lex_lt(b.id, c.id) {
            lemma_lex_trans(a.id, b.id, c.id);
        }
    }
}

impl RelationStore {
    /// All relations the store shows under a filter, ordered by index
    /// value ascending, ties broken by relation identifier.
    pub fn find_relations(&self, filter: &RelationFilter) -> (r: Vec<RelationNode>)
        requires
            wf_relation_store(self@),
        ensures
            rel_views(r@).to_multiset() == rel_filter_matches(self@, filter@).to_multiset(),
            forall|i: int, j: int|
                0 <= i < j < r@.len() ==> rel_leq(rel_views(r@)[i], rel_views(r@)[j]),
    {
        let mut picked: Vec<RelationNode> = Vec::new();
        let n = self.entries.len();
        let mut i: usize = 0;
        while i < n
            invariant
                n == self.entries@.len(),
                n == self@.len(),
                0 <= i <= n,
                wf_relation_store(self@),
                rel_views(picked@) == rel_filter_matches(self@.take(i as int), filter@),
            decreases n - i,
        {
            let ghost pre = rel_views(picked@);
            let e = &self.entries[i];
            proof {
                assert(self@[i as int] == e@);
                assert(self@.take(i + 1).drop_last() =~= self@.take(i as int));
                assert(self@.take(i + 1).last() == e@);
            }
            let space_ok = match &filter.space_id {
                Some(pf) => pf.matches(e.space.as_str()),
                None => true,
            };
            let id_ok = match &filter.id {
                Some(pf) => pf.matches(e.id.as_str()),
                None => true,
            };
            if space_ok && id_ok {
                match rel_entry_value_at(e, filter.version) {
                    Some(p) => {
                        let rt_ok = match &filter.relation_type {
                            Some(pf) => pf.matches(p.relation_type.as_str()),
                            None => true,
                        };
                        let from_ok = match &filter.from_id {
                            Some(pf) => pf.matches(p.from.as_str()),
                            None => true,
                        };
                        let to_ok = match &filter.to_id {
                            Some(pf) => pf.matches(p.to.as_str()),
                            None => true,
                        };
                        if rt_ok && from_ok && to_ok {
                            let node = RelationNode::new(
                                e.id.clone(),
                                p.from.clone(),
                                p.to.clone(),
                                p.relation_type.clone(),
                                p.index.clone(),
                            );
                            let ghost nv = node@;
                            proof {
                                assert(rel_filter_match(filter@, e@) == Some(nv));
                            }
                            picked.push(node);
                            proof {
                                assert(rel_views(picked@) =~= pre.push(nv));
                                assert(rel_views(picked@) =~= rel_filter_matches(
                                    self@.take(i + 1),
                                    filter@,
                                ));
                            }
                        } else {
                            proof {
                                assert(rel_filter_match(filter@, e@) is None);
                                assert(rel_views(picked@) =~= rel_filter_matches(
                                    self@.take(i + 1),
                                    filter@,
                                ));
                            }
                        }
                    },
                    None => {
                        proof {
                            assert(rel_filter_match(filter@, e@) is None);
                            assert(rel_views(picked@) =~= rel_filter_matches(
                                self@.take(i + 1),
                                filter@,
                            ));
                        }
                    },
                }
            } else {
                proof {
                    assert(rel_filter_match(filter@, e@) is None);
                    assert(rel_views(picked@) =~= rel_filter_matches(self@.take(i + 1), filter@));
                }
            }
            i = i + 1;
        }
        proof {
            assert(self@.take(n as int) =~= self@);
        }
        sort_relations(picked)
    }
}



/// One more part merged onto an accumulated compile, checked.
pub open spec fn opt_part_merge(
    acc: Option<crate::query::QueryPartView>,
    p: crate::query::QueryPartView,
) -> Option<crate::query::QueryPartView> {
    match acc {
        Some(q) => crate::filters::check_merge(q, p),
        None => None,
    }
}

/// An optional property filter's part merged onto an accumulated
/// compile; an unset field merges nothing.
pub open spec fn opt_prop_merge(
    acc: Option<crate::query::QueryPartView>,
    pf: Option<crate::filters::PropFilterView>,
    nv: Seq<char>,
    key: Seq<char>,
) -> Option<crate::query::QueryPartView> {
    match pf {
        Some(x) => opt_part_merge(acc, crate::filters::prop_filter_part(x, nv, key)),
        None => acc,
    }
}

/// The compiled query of a relation filter: the five-way `MATCH` of
/// the relation's constituent edges, the constrained field filters
/// with the version clauses on each constrained edge, the record
/// `RETURN` and the ascending index order, or `None` on a parameter
/// collision anywhere along the chain.
pub open spec fn relation_filter_part(f: RelationFilterView) -> Option<
    crate::query::QueryPartView,
> {
    let version = match f.version {
        Some(v) => Some(crate::value::decimal_chars(v as int)),
        None => None,
    };
    let base = crate::query::QueryPartView {
        match_clauses: seq![
            "(e)"@,
            "(e) -[r_rt:`"@ + system_ids::RELATION_TYPE_ATTRIBUTE@ + "`]-> (rt)"@,
            "(e) -[r_from:`"@ + system_ids::RELATION_FROM_ATTRIBUTE@ + "`]-> (from)"@,
            "(e) -[r_to:`"@ + system_ids::RELATION_TO_ATTRIBUTE@ + "`]-> (to)"@,
            "(e) -[r_index:ATTRIBUTE]-> (index {id: \""@ + system_ids::RELATION_INDEX@ + "\"})"@,
        ],
        return_clause: Some(
            "e{.id, from: from.id, to: to.id, relation_type: rt.id, index: index}"@,
        ),
        order_by_clause: Some("index.value"@),
        ..crate::query::empty_query_part()
    };
    let q1 = opt_part_merge(
        Some(base),
        crate::filters::version_filter_part(
            crate::filters::VersionFilterView { version: version },
            "r_index"@,
        ),
    );
    let q2 = opt_prop_merge(q1, f.id, "e"@, "id"@);
    let q3 = opt_prop_merge(q2, f.from_id, "from"@, "id"@);
    let q4 = match f.from_id {
        Some(_) => opt_part_merge(
            q3,
            crate::filters::version_filter_part(
                crate::filters::VersionFilterView { version: version },
                "r_from"@,
            ),
        ),
        None => q3,
    };
    let q5 = opt_prop_merge(q4, f.to_id, "to"@, "id"@);
    let q6 = match f.to_id {
        Some(_) => opt_part_merge(
            q5,
            crate::filters::version_filter_part(
                crate::filters::VersionFilterView { version: version },
                "r_to"@,
            ),
        ),
        None => q5,
    };
    let q7 = opt_prop_merge(q6, f.relation_type, "rt"@, "id"@);
    let q8 = match f.relation_type {
        Some(_) => opt_part_merge(
            q7,
            crate::filters::version_filter_part(
                crate::filters::VersionFilterView { version: version },
                "r_rt"@,
            ),
        ),
        None => q7,
    };
    match f.space_id {
        Some(pf) => opt_part_merge(
            opt_part_merge(
                opt_part_merge(
                    opt_part_merge(
                        q8,
                        crate::filters::prop_filter_part(pf, "r_from"@, "space_id"@),
                    ),
                    crate::filters::prop_filter_part(pf, "r_to"@, "space_id"@),
                ),
                crate::filters::prop_filter_part(pf, "r_rt"@, "space_id"@),
            ),
            crate::filters::prop_filter_part(pf, "r_index"@, "space_id"@),
        ),
        None => q8,
    }
}

impl RelationFilter {
    /// Compile to a backend query: the five-way `MATCH` of the
    /// relation's constituent edges, the field filters, the version
    /// clauses on each constrained edge, a `RETURN` of the assembled
    /// record and an ascending `ORDER BY` on the index value. All
    /// parameters are derived from the fixed edge variables, so the
    /// merges are collision-free; a collision is still surfaced
    /// rather than silently dropped.
    #[verifier::rlimit(100)]
    pub fn into_query_part(self) -> (r: Result<crate::query::QueryPart, String>)
        ensures
            r is Ok <==> relation_filter_part(self@) is Some,
            r is Ok ==> Some(r->Ok_0@) == relation_filter_part(self@),
    {
        let version_str = match self.version {
            Some(v) => Some(crate::value::u64_to_decimal(v)),
            None => None,
        };
        let mut qp = crate::query::QueryPart::new().match_clause("(e)".to_owned()).match_clause(
            String::from_str("(e) -[r_rt:`").concat(system_ids::RELATION_TYPE_ATTRIBUTE).concat(
                "`]-> (rt)",
            ),
        ).match_clause(
            String::from_str("(e) -[r_from:`").concat(system_ids::RELATION_FROM_ATTRIBUTE).concat(
                "`]-> (from)",
            ),
        ).match_clause(
            String::from_str("(e) -[r_to:`").concat(system_ids::RELATION_TO_ATTRIBUTE).concat(
                "`]-> (to)",
            ),
        ).match_clause(
            String::from_str("(e) -[r_index:ATTRIBUTE]-> (index {id: \"").concat(
                system_ids::RELATION_INDEX,
            ).concat("\"})"),
        ).return_clause(
            "e{.id, from: from.id, to: to.id, relation_type: rt.id, index: index}".to_owned(),
        ).order_by_clause("index.value".to_owned());
        proof {
            assert(qp@.match_clauses =~= seq![
                "(e)"@,
                "(e) -[r_rt:`"@ + system_ids::RELATION_TYPE_ATTRIBUTE@ + "`]-> (rt)"@,
                "(e) -[r_from:`"@ + system_ids::RELATION_FROM_ATTRIBUTE@ + "`]-> (from)"@,
                "(e) -[r_to:`"@ + system_ids::RELATION_TO_ATTRIBUTE@ + "`]-> (to)"@,
                "(e) -[r_index:ATTRIBUTE]-> (index {id: \""@ + system_ids::RELATION_INDEX@
                    + "\"})"@,
            ]);
            assert(qp@.where_clauses =~= Seq::<Seq<char>>::empty());
            assert(qp@.with_clauses =~= Seq::<Seq<char>>::empty());
            assert(qp@.params =~= Seq::<crate::query::ParamView>::empty());
        }
        let index_version = crate::filters::VersionFilter::new(clone_opt(&version_str));
        match qp.merge_mut(index_version.into_query_part("r_index")) {
            Ok(()) => {},
            Err(e) => {
                return Err(e);
            },
        }
        if let Some(id) = self.id {
            match qp.merge_mut(id.into_query_part("e", "id")) {
                Ok(()) => {},
                Err(e) => {
                    return Err(e);
                },
            }
        }
        if let Some(from_id) = self.from_id {
            match qp.merge_mut(from_id.into_query_part("from", "id")) {
                Ok(()) => {},
                Err(e) => {
                    return Err(e);
                },
            }
            let vf = crate::filters::VersionFilter::new(clone_opt(&version_str));
            match qp.merge_mut(vf.into_query_part("r_from")) {
                Ok(()) => {},
                Err(e) => {
                    return Err(e);
                },
            }
        }
        if let Some(to_id) = self.to_id {
            match qp.merge_mut(to_id.into_query_part("to", "id")) {
                Ok(()) => {},
                Err(e) => {
                    return Err(e);
                },
            }
            let vf = crate::filters::VersionFilter::new(clone_opt(&version_str));
            match qp.merge_mut(vf.into_query_part("r_to")) {
                Ok(()) => {},
                Err(e) => {
                    return Err(e);
                },
            }
        }
        if let Some(relation_type) = self.relation_type {
            match qp.merge_mut(relation_type.into_query_part("rt", "id")) {
                Ok(()) => {},
                Err(e) => {
                    return Err(e);
                },
            }
            let vf = crate::filters::VersionFilter::new(clone_opt(&version_str));
            match qp.merge_mut(vf.into_query_part("r_rt")) {
                Ok(()) => {},
                Err(e) => {
                    return Err(e);
                },
            }
        }
        if let Some(space_id) = self.space_id {
            match qp.merge_mut(clone_prop_filter(&space_id).into_query_part("r_from", "space_id"))
            {
                Ok(()) => {},
                Err(e) => {
                    return Err(e);
                },
            }
            match qp.merge_mut(clone_prop_filter(&space_id).into_query_part("r_to", "space_id")) {
                Ok(()) => {},
                Err(e) => {
                    return Err(e);
                },
            }
            match qp.merge_mut(clone_prop_filter(&space_id).into_query_part("r_rt", "space_id")) {
                Ok(()) => {},
                Err(e) => {
                    return Err(e);
                },
            }
            match qp.merge_mut(space_id.into_query_part("r_index", "space_id")) {
                Ok(()) => {},
                Err(e) => {
                    return Err(e);
                },
            }
        }
        Ok(qp)
    }
}

/// A copy of an optional string list with the same image.
fn clone_opt_string_list(o: &Option<Vec<String>>) -> (r: Option<Vec<String>>)
    ensures
        crate::filters::view_opt_string_list(r) == crate::filters::view_opt_string_list(*o),
{
    match o {
        Some(vs) => {
            let mut out: Vec<String> = Vec::new();
            let n = vs.len();
            let mut i: usize = 0;
            while i < n
                invariant
                    n == vs@.len(),
                    0 <= i <= n,
                    out@.len() == i,
                    forall|t: int| 0 <= t < i ==> (#[trigger] out@[t])@ == (vs@[t])@,
                decreases n - i,
            {
                out.push(vs[i].clone());
                i = i + 1;
            }
            proof {
                assert(out@.map_values(|s: String| s@) =~= vs@.map_values(|s: String| s@));
            }
            Some(out)
        },
        None => None,
    }
}

/// A copy of a string property filter with the same image.
fn clone_prop_filter(f: &PropFilter<String>) -> (r: PropFilter<String>)
    ensures
        r@ == f@,
{
    PropFilter {
        value: clone_opt(&f.value),
        value_gt: clone_opt(&f.value_gt),
        value_gte: clone_opt(&f.value_gte),
        value_lt: clone_opt(&f.value_lt),
        value_lte: clone_opt(&f.value_lte),
        value_not: clone_opt(&f.value_not),
        value_in: clone_opt_string_list(&f.value_in),
        value_not_in: clone_opt_string_list(&f.value_not_in),
    }
}

fn clone_opt(o: &Option<String>) -> (r: Option<String>)
    ensures
        crate::filters::view_opt_string(r) == match o {
            Some(s) => Some(s@),
            None => None,
        },
{
    match o {
        Some(s) => Some(s.clone()),
        None => None,
    }
}

/// One constituent edge of a relation version: the label, the
/// target, and the shared version tag.
pub ghost struct RelationEdge {
    pub relation_id: Seq<char>,
    pub label: Seq<char>,
    pub target: Seq<char>,
    pub space: Seq<char>,
    pub min_version: u64,
    pub max_version: Option<u64>,
}

/// The four constituent edges of one relation version: source,
/// target, type and index, all under one version tag.
pub open spec fn constituent_edges(
    id: Seq<char>,
    space: Seq<char>,
    payload: RelPayloadView,
    min_version: u64,
    max_version: Option<u64>,
) -> Seq<RelationEdge> {
    seq![
        RelationEdge {
            relation_id: id,
            label: system_ids::RELATION_FROM_ATTRIBUTE@,
            target: payload.from,
            space: space,
            min_version: min_version,
            max_version: max_version,
        },
        RelationEdge {
            relation_id: id,
            label: system_ids::RELATION_TO_ATTRIBUTE@,
            target: payload.to,
            space: space,
            min_version: min_version,
            max_version: max_version,
        },
        RelationEdge {
            relation_id: id,
            label: system_ids::RELATION_TYPE_ATTRIBUTE@,
            target: payload.relation_type,
            space: space,
            min_version: min_version,
            max_version: max_version,
        },
        RelationEdge {
            relation_id: id,
            label: system_ids::RELATION_INDEX@,
            target: payload.index.value,
            space: space,
            min_version: min_version,
            max_version: max_version,
        },
    ]
}

/// The four constituent edges of every relation version share one
/// `min_version` and one `max_version`: the store keys all four by a
/// single history, so they are installed and retired atomically.
pub proof fn lemma_constituent_edges_share_tag(
    id: Seq<char>,
    space: Seq<char>,
    payload: RelPayloadView,
    min_version: u64,
    max_version: Option<u64>,
    i: int,
    j: int,
)
    requires
        0 <= i < 4,
        0 <= j < 4,
    ensures
        constituent_edges(id, space, payload, min_version, max_version)[i].min_version
            == constituent_edges(id, space, payload, min_version, max_version)[j].min_version,
        constituent_edges(id, space, payload, min_version, max_version)[i].max_version
            == constituent_edges(id, space, payload, min_version, max_version)[j].max_version,
{
}

} // verus!
