//! Replay safety of the data plane.
//!
//! A crashed ingestion run may re-apply a bundle it had already
//! applied. All the bundle's mutations run at one version, and at one
//! version every mutation is absorbing: the central theorem here says
//! that applying a batch of keyed mutations to its own result changes
//! nothing. Together with the per-key replay law of the histories it
//! makes a replayed bundle harmless.

use vstd::prelude::*;

use crate::history::{
    apply_hist_op,
    apply_hist_ops,
    lemma_apply_ops_append,
    lemma_hist_replay,
    HistOp,
};
use crate::relations::{
    rel_entry_key,
    rel_has_key,
    rel_hist,
    rel_index_of,
    spec_rel_op,
    RelEntryView,
    RelKey,
    RelPayloadView,
};
use crate::store::{
    entry_hist,
    entry_key,
    spec_triple_op,
    store_has_key,
    store_index_of,
    TripleEntryView,
    TripleKey,
};
use crate::value::ValueView;

verus! {

/// One keyed mutation of the triple store.
pub ghost struct KeyedOp {
    pub key: TripleKey,
    pub op: HistOp<ValueView>,
}

/// A batch of keyed mutations applied in order at one version.
pub open spec fn apply_triple_ops(
    s: Seq<TripleEntryView>,
    ops: Seq<KeyedOp>,
    v: u64,
) -> Seq<TripleEntryView>
    decreases ops.len(),
{
    if ops.len() == 0 {
        s
    } else {
        spec_triple_op(apply_triple_ops(s, ops.drop_last(), v), ops.last().key, ops.last().op, v)
    }
}

/// The mutations of a batch that touch one key, in order.
pub open spec fn ops_for(ops: Seq<KeyedOp>, k: TripleKey) -> Seq<HistOp<ValueView>>
    decreases ops.len(),
{
    if ops.len() == 0 {
        Seq::empty()
    } else {
        ops_for(ops.drop_last(), k) + (if ops.last().key == k {
            seq![ops.last().op]
        } else {
            Seq::empty()
        })
    }
}

/// The key sequence of a store.
pub open spec fn key_seq(s: Seq<TripleEntryView>) -> Seq<TripleKey> {
    s.map_values(|e: TripleEntryView| entry_key(e))
}

/// Keys are unique: the only part of store well-formedness the
/// replay argument needs.
pub open spec fn unique_keys(s: Seq<TripleEntryView>) -> bool {
    forall|i: int, j: int| 0 <= i < j < s.len() ==> entry_key(s[i]) != entry_key(s[j])
}

/// What one mutation does, seen through keys and histories: the
/// touched key's history absorbs the mutation and every other key is
/// untouched; the key sequence grows only by a write on a fresh key.
proof fn lemma_op_pointwise(s: Seq<TripleEntryView>, k: TripleKey, op: HistOp<ValueView>, v: u64)
    requires
        unique_keys(s),
    ensures
        unique_keys(spec_triple_op(s, k, op, v)),
        entry_hist(spec_triple_op(s, k, op, v), k) == apply_hist_op(entry_hist(s, k), op, v),
        forall|k2: TripleKey|
            k2 != k ==> entry_hist(spec_triple_op(s, k, op, v), k2) == entry_hist(s, k2),
        forall|k2: TripleKey|
            store_has_key(s, k2) ==> store_has_key(spec_triple_op(s, k, op, v), k2),
        key_seq(spec_triple_op(s, k, op, v)) == if store_has_key(s, k) || op is Delete {
            key_seq(s)
        } else {
            key_seq(s).push(k)
        },
{
    let r = spec_triple_op(s, k, op, v);
    if store_has_key(s, k) {
        let i = store_index_of(s, k);
        assert(0 <= i < s.len() && entry_key(s[i]) == k);
        assert(r == s.update(i, TripleEntryView { hist: apply_hist_op(s[i].hist, op, v), ..s[i] }));
        assert(forall|t: int| 0 <= t < r.len() ==> entry_key(#[trigger] r[t]) == entry_key(s[t]));
        assert(key_seq(r) =~= key_seq(s));
        assert(unique_keys(r));
        // The touched key is still at its index, still unique.
        assert(store_has_key(r, k)) by {
            assert(entry_key(r[i]) == k);
        }
        let i2 = store_index_of(r, k);
        if i2 != i {
            assert(entry_key(r[i2]) != entry_key(r[i]));
        }
        assert(entry_hist(r, k) == apply_hist_op(entry_hist(s, k), op, v));
        assert forall|k2: TripleKey| k2 != k implies entry_hist(r, k2) == entry_hist(s, k2) by {
            if store_has_key(s, k2) {
                let j = store_index_of(s, k2);
                assert(entry_key(s[j]) == k2);
                assert(j != i);
                assert(entry_key(r[j]) == k2);
                assert(store_has_key(r, k2));
                let j2 = store_index_of(r, k2);
                if j2 != j {
                    assert(entry_key(r[j2]) != entry_key(r[j]));
                }
                assert(r[j] == s[j]);
            } else {
                if store_has_key(r, k2) {
                    let j2 = store_index_of(r, k2);
                    assert(entry_key(s[j2]) == k2);
                }
            }
        }
        assert forall|k2: TripleKey|
            store_has_key(s, k2) implies store_has_key(r, k2) by {
            let j = store_index_of(s, k2);
            assert(entry_key(r[j]) == k2);
        }
    } else {
        match op {
            HistOp::Write(_) => {
                assert(r == s.push(
                    TripleEntryView {
                        entity: k.entity,
                        attribute: k.attribute,
                        space: k.space,
                        hist: apply_hist_op(crate::history::empty_hist(), op, v),
                    },
                ));
                assert(entry_key(r[s.len() as int]) == k);
                assert(forall|t: int|
                    0 <= t < s.len() ==> entry_key(#[trigger] r[t]) == entry_key(s[t]));
                assert(key_seq(r) =~= key_seq(s).push(k));
                assert(unique_keys(r)) by {
                    assert forall|a: int, b: int|
                        0 <= a < b < r.len() implies entry_key(r[a]) != entry_key(r[b]) by {
                        if b == s.len() {
                            assert(entry_key(r[a]) == entry_key(s[a]));
                            if entry_key(s[a]) == k {
                                assert(store_has_key(s, k));
                            }
                        }
                    }
                }
                assert(store_has_key(r, k));
                let i2 = store_index_of(r, k);
                if i2 != s.len() {
                    assert(entry_key(s[i2]) == k);
                    assert(store_has_key(s, k));
                }
                assert(entry_hist(r, k) == apply_hist_op(entry_hist(s, k), op, v));
                assert forall|k2: TripleKey| k2 != k implies entry_hist(r, k2) == entry_hist(
                    s,
                    k2,
                ) by {
                    if store_has_key(s, k2) {
                        let j = store_index_of(s, k2);
                        assert(entry_key(r[j]) == k2);
                        let j2 = store_index_of(r, k2);
                        if j2 != j {
                            assert(entry_key(r[j2]) != entry_key(r[j]));
                        }
                    } else {
                        if store_has_key(r, k2) {
                            let j2 = store_index_of(r, k2);
                            assert(j2 != s.len());
                            assert(entry_key(s[j2]) == k2);
                        }
                    }
                }
                assert forall|k2: TripleKey|
                    store_has_key(s, k2) implies store_has_key(r, k2) by {
                    let j = store_index_of(s, k2);
                    assert(entry_key(r[j]) == k2);
                }
            },
            HistOp::Delete => {
                assert(r == s);
                // Deleting an unknown key is a no-op, and so is the
                // delete on its empty history.
                assert(apply_hist_op(entry_hist(s, k), op, v) == entry_hist(s, k));
            },
        }
    }
}

/// A batch seen through keys and histories: each key's history
/// absorbs exactly the batch's mutations of it, in order, and keys
/// present before stay present.
proof fn lemma_ops_pointwise(s: Seq<TripleEntryView>, ops: Seq<KeyedOp>, v: u64)
    requires
        unique_keys(s),
    ensures
        unique_keys(apply_triple_ops(s, ops, v)),
        forall|k: TripleKey|
            entry_hist(apply_triple_ops(s, ops, v), k) == apply_hist_ops(
                entry_hist(s, k),
                #[trigger] ops_for(ops, k),
                v,
            ),
        forall|k: TripleKey|
            store_has_key(s, k) ==> store_has_key(apply_triple_ops(s, ops, v), k),
    decreases ops.len(),
{
    if ops.len() == 0 {
        assert forall|k: TripleKey|
            entry_hist(apply_triple_ops(s, ops, v), k) == apply_hist_ops(
                entry_hist(s, k),
                #[trigger] ops_for(ops, k),
                v,
            ) by {
            assert(ops_for(ops, k) =~= Seq::<HistOp<ValueView>>::empty());
        }
    } else {
        let m = ops.drop_last();
        let last = ops.last();
        lemma_ops_pointwise(s, m, v);
        let mid = apply_triple_ops(s, m, v);
        lemma_op_pointwise(mid, last.key, last.op, v);
        assert forall|k: TripleKey|
            entry_hist(apply_triple_ops(s, ops, v), k) == apply_hist_ops(
                entry_hist(s, k),
                #[trigger] ops_for(ops, k),
                v,
            ) by {
            if k == last.key {
                assert(ops_for(ops, k) =~= ops_for(m, k).push(last.op));
                lemma_apply_ops_append(entry_hist(s, k), ops_for(m, k), last.op, v);
            } else {
                assert(ops_for(ops, k) =~= ops_for(m, k));
            }
        }
    }
}

/// A written key is present after the batch.
proof fn lemma_write_key_present(s: Seq<TripleEntryView>, ops: Seq<KeyedOp>, v: u64, i: int)
    requires
        unique_keys(s),
        0 <= i < ops.len(),
        ops[i].op is Write,
    ensures
        store_has_key(apply_triple_ops(s, ops, v), ops[i].key),
    decreases ops.len(),
{
    let m = ops.drop_last();
    let last = ops.last();
    lemma_ops_pointwise(s, m, v);
    let mid = apply_triple_ops(s, m, v);
    lemma_op_pointwise(mid, last.key, last.op, v);
    if i == ops.len() - 1 {
        assert(store_has_key(spec_triple_op(mid, last.key, last.op, v), last.key)) by {
            if store_has_key(mid, last.key) {
            } else {
                let r = spec_triple_op(mid, last.key, last.op, v);
                assert(entry_key(r[mid.len() as int]) == last.key);
            }
        }
    } else {
        assert(m[i] == ops[i]);
        lemma_write_key_present(s, m, v, i);
    }
}

/// After a batch whose write keys are all present, the key sequence
/// is unchanged.
proof fn lemma_keys_stable(s: Seq<TripleEntryView>, ops: Seq<KeyedOp>, v: u64)
    requires
        unique_keys(s),
        forall|i: int| 0 <= i < ops.len() && (#[trigger] ops[i]).op is Write ==> store_has_key(
            s,
            ops[i].key,
        ),
    ensures
        key_seq(apply_triple_ops(s, ops, v)) == key_seq(s),
    decreases ops.len(),
{
    if ops.len() > 0 {
        let m = ops.drop_last();
        let last = ops.last();
        assert(forall|i: int|
            0 <= i < m.len() && (#[trigger] m[i]).op is Write ==> store_has_key(s, m[i].key));
        lemma_keys_stable(s, m, v);
        lemma_ops_pointwise(s, m, v);
        let mid = apply_triple_ops(s, m, v);
        lemma_op_pointwise(mid, last.key, last.op, v);
        match last.op {
            HistOp::Write(_) => {
                assert(store_has_key(s, last.key));
                assert(store_has_key(mid, last.key));
            },
            HistOp::Delete => {},
        }
    }
}

/// Replay of the data plane: applying a batch of keyed mutations at
/// one version to its own result changes nothing. A bundle applied
/// after a crash repeats only no-ops.
pub proof fn lemma_store_replay(s: Seq<TripleEntryView>, ops: Seq<KeyedOp>, v: u64)
    requires
        unique_keys(s),
    ensures
        apply_triple_ops(apply_triple_ops(s, ops, v), ops, v) == apply_triple_ops(s, ops, v),
{
    let f = apply_triple_ops(s, ops, v);
    let g = apply_triple_ops(f, ops, v);
    lemma_ops_pointwise(s, ops, v);
    lemma_ops_pointwise(f, ops, v);
    // No key is new in the second pass, so the key sequences agree.
    assert forall|i: int|
        0 <= i < ops.len() && (#[trigger] ops[i]).op is Write implies store_has_key(
        f,
        ops[i].key,
    ) by {
        lemma_write_key_present(s, ops, v, i);
    }
    lemma_keys_stable(f, ops, v);
    assert(key_seq(g) == key_seq(f));
    assert(g.len() == f.len()) by {
        assert(key_seq(g).len() == g.len());
        assert(key_seq(f).len() == f.len());
    }
    // Every key's history is already settled by the first pass.
    assert forall|k: TripleKey| entry_hist(g, k) == entry_hist(f, k) by {
        assert(entry_hist(f, k) == apply_hist_ops(entry_hist(s, k), ops_for(ops, k), v));
        assert(entry_hist(g, k) == apply_hist_ops(entry_hist(f, k), ops_for(ops, k), v));
        lemma_hist_replay(entry_hist(s, k), ops_for(ops, k), v);
    }
    // Equal keys and equal histories make equal entries.
    assert forall|i: int| 0 <= i < f.len() implies g[i] == f[i] by {
        assert(key_seq(g)[i] == key_seq(f)[i]);
        assert(entry_key(g[i]) == entry_key(f[i]));
        let k = entry_key(f[i]);
        assert(store_has_key(f, k)) by {
            assert(entry_key(f[i]) == k);
        }
        let jf = store_index_of(f, k);
        if jf != i {
            assert(entry_key(f[jf]) != entry_key(f[i]));
        }
        assert(entry_hist(f, k) == f[i].hist);
        assert(store_has_key(g, k)) by {
            assert(entry_key(g[i]) == k);
        }
        let jg = store_index_of(g, k);
        if jg != i {
            assert(entry_key(g[jg]) != entry_key(g[i]));
        }
        assert(entry_hist(g, k) == g[i].hist);
        assert(g[i].hist == f[i].hist);
    }
    assert(g =~= f);
}


/// One keyed mutation of the relation store.
pub ghost struct KeyedRelOp {
    pub key: RelKey,
    pub op: HistOp<RelPayloadView>,
}

/// A batch of keyed relation mutations applied in order at one
/// version.
pub open spec fn apply_rel_ops(
    s: Seq<RelEntryView>,
    ops: Seq<KeyedRelOp>,
    v: u64,
) -> Seq<RelEntryView>
    decreases ops.len(),
{
    if ops.len() == 0 {
        s
    } else {
        spec_rel_op(apply_rel_ops(s, ops.drop_last(), v), ops.last().key, ops.last().op, v)
    }
}

/// The relation mutations of a batch that touch one key, in order.
pub open spec fn rel_ops_for(ops: Seq<KeyedRelOp>, k: RelKey) -> Seq<HistOp<RelPayloadView>>
    decreases ops.len(),
{
    if ops.len() == 0 {
        Seq::empty()
    } else {
        rel_ops_for(ops.drop_last(), k) + (if ops.last().key == k {
            seq![ops.last().op]
        } else {
            Seq::empty()
        })
    }
}

/// The key sequence of a relation store.
pub open spec fn rel_key_seq(s: Seq<RelEntryView>) -> Seq<RelKey> {
    s.map_values(|e: RelEntryView| rel_entry_key(e))
}

/// Unique relation keys.
pub open spec fn unique_rel_keys(s: Seq<RelEntryView>) -> bool {
    forall|i: int, j: int| 0 <= i < j < s.len() ==> rel_entry_key(s[i]) != rel_entry_key(s[j])
}

/// What one relation mutation does, seen through keys and histories.
proof fn lemma_rel_op_pointwise(s: Seq<RelEntryView>, k: RelKey, op: HistOp<RelPayloadView>, v: u64)
    requires
        unique_rel_keys(s),
    ensures
        unique_rel_keys(spec_rel_op(s, k, op, v)),
        rel_hist(spec_rel_op(s, k, op, v), k) == apply_hist_op(rel_hist(s, k), op, v),
        forall|k2: RelKey| k2 != k ==> rel_hist(spec_rel_op(s, k, op, v), k2) == rel_hist(s, k2),
        forall|k2: RelKey| rel_has_key(s, k2) ==> rel_has_key(spec_rel_op(s, k, op, v), k2),
        rel_key_seq(spec_rel_op(s, k, op, v)) == if rel_has_key(s, k) || op is Delete {
            rel_key_seq(s)
        } else {
            rel_key_seq(s).push(k)
        },
{
    let r = spec_rel_op(s, k, op, v);
    if rel_has_key(s, k) {
        let i = rel_index_of(s, k);
        assert(0 <= i < s.len() && rel_entry_key(s[i]) == k);
        assert(r == s.update(i, RelEntryView { hist: apply_hist_op(s[i].hist, op, v), ..s[i] }));
        assert(forall|t: int|
            0 <= t < r.len() ==> rel_entry_key(#[trigger] r[t]) == rel_entry_key(s[t]));
        assert(rel_key_seq(r) =~= rel_key_seq(s));
        assert(unique_rel_keys(r));
        assert(rel_has_key(r, k)) by {
            assert(rel_entry_key(r[i]) == k);
        }
        let i2 = rel_index_of(r, k);
        if i2 != i {
            assert(rel_entry_key(r[i2]) != rel_entry_key(r[i]));
        }
        assert(rel_hist(r, k) == apply_hist_op(rel_hist(s, k), op, v));
        assert forall|k2: RelKey| k2 != k implies rel_hist(r, k2) == rel_hist(s, k2) by {
            if rel_has_key(s, k2) {
                let j = rel_index_of(s, k2);
                assert(rel_entry_key(s[j]) == k2);
                assert(j != i);
                assert(rel_entry_key(r[j]) == k2);
                assert(rel_has_key(r, k2));
                let j2 = rel_index_of(r, k2);
                if j2 != j {
                    assert(rel_entry_key(r[j2]) != rel_entry_key(r[j]));
                }
                assert(r[j] == s[j]);
            } else {
                if rel_has_key(r, k2) {
                    let j2 = rel_index_of(r, k2);
                    assert(rel_entry_key(s[j2]) == k2);
                }
            }
        }
        assert forall|k2: RelKey| rel_has_key(s, k2) implies rel_has_key(r, k2) by {
            let j = rel_index_of(s, k2);
            assert(rel_entry_key(r[j]) == k2);
        }
    } else {
        match op {
            HistOp::Write(_) => {
                assert(r == s.push(
                    RelEntryView {
                        id: k.id,
                        space: k.space,
                        hist: apply_hist_op(crate::history::empty_hist(), op, v),
                    },
                ));
                assert(rel_entry_key(r[s.len() as int]) == k);
                assert(forall|t: int|
                    0 <= t < s.len() ==> rel_entry_key(#[trigger] r[t]) == rel_entry_key(s[t]));
                assert(rel_key_seq(r) =~= rel_key_seq(s).push(k));
                assert(unique_rel_keys(r)) by {
                    assert forall|a: int, b: int|
                        0 <= a < b < r.len() implies rel_entry_key(r[a]) != rel_entry_key(r[b]) by {
                        if b == s.len() {
                            assert(rel_entry_key(r[a]) == rel_entry_key(s[a]));
                            if rel_entry_key(s[a]) == k {
                                assert(rel_has_key(s, k));
                            }
                        }
                    }
                }
                assert(rel_has_key(r, k));
                let i2 = rel_index_of(r, k);
                if i2 != s.len() {
                    assert(rel_entry_key(s[i2]) == k);
                    assert(rel_has_key(s, k));
                }
                assert(rel_hist(r, k) == apply_hist_op(rel_hist(s, k), op, v));
                assert forall|k2: RelKey| k2 != k implies rel_hist(r, k2) == rel_hist(s, k2) by {
                    if rel_has_key(s, k2) {
                        let j = rel_index_of(s, k2);
                        assert(rel_entry_key(r[j]) == k2);
                        let j2 = rel_index_of(r, k2);
                        if j2 != j {
                            assert(rel_entry_key(r[j2]) != rel_entry_key(r[j]));
                        }
                    } else {
                        if rel_has_key(r, k2) {
                            let j2 = rel_index_of(r, k2);
                            assert(j2 != s.len());
                            assert(rel_entry_key(s[j2]) == k2);
                        }
                    }
                }
                assert forall|k2: RelKey| rel_has_key(s, k2) implies rel_has_key(r, k2) by {
                    let j = rel_index_of(s, k2);
                    assert(rel_entry_key(r[j]) == k2);
                }
            },
            HistOp::Delete => {
                assert(r == s);
                assert(apply_hist_op(rel_hist(s, k), op, v) == rel_hist(s, k));
            },
        }
    }
}

/// A relation batch seen through keys and histories.
proof fn lemma_rel_ops_pointwise(s: Seq<RelEntryView>, ops: Seq<KeyedRelOp>, v: u64)
    requires
        unique_rel_keys(s),
    ensures
        unique_rel_keys(apply_rel_ops(s, ops, v)),
        forall|k: RelKey|
            rel_hist(apply_rel_ops(s, ops, v), k) == apply_hist_ops(
                rel_hist(s, k),
                #[trigger] rel_ops_for(ops, k),
                v,
            ),
        forall|k: RelKey| rel_has_key(s, k) ==> rel_has_key(apply_rel_ops(s, ops, v), k),
    decreases ops.len(),
{
    if ops.len() == 0 {
        assert forall|k: RelKey|
            rel_hist(apply_rel_ops(s, ops, v), k) == apply_hist_ops(
                rel_hist(s, k),
                #[trigger] rel_ops_for(ops, k),
                v,
            ) by {
            assert(rel_ops_for(ops, k) =~= Seq::<HistOp<RelPayloadView>>::empty());
        }
    } else {
        let m = ops.drop_last();
        let last = ops.last();
        lemma_rel_ops_pointwise(s, m, v);
        let mid = apply_rel_ops(s, m, v);
        lemma_rel_op_pointwise(mid, last.key, last.op, v);
        assert forall|k: RelKey|
            rel_hist(apply_rel_ops(s, ops, v), k) == apply_hist_ops(
                rel_hist(s, k),
                #[trigger] rel_ops_for(ops, k),
                v,
            ) by {
            if k == last.key {
                assert(rel_ops_for(ops, k) =~= rel_ops_for(m, k).push(last.op));
                lemma_apply_ops_append(rel_hist(s, k), rel_ops_for(m, k), last.op, v);
            } else {
                assert(rel_ops_for(ops, k) =~= rel_ops_for(m, k));
            }
        }
    }
}

/// A written relation key is present after the batch.
proof fn lemma_rel_write_key_present(s: Seq<RelEntryView>, ops: Seq<KeyedRelOp>, v: u64, i: int)
    requires
        unique_rel_keys(s),
        0 <= i < ops.len(),
        ops[i].op is Write,
    ensures
        rel_has_key(apply_rel_ops(s, ops, v), ops[i].key),
    decreases ops.len(),
{
    let m = ops.drop_last();
    let last = ops.last();
    lemma_rel_ops_pointwise(s, m, v);
    let mid = apply_rel_ops(s, m, v);
    lemma_rel_op_pointwise(mid, last.key, last.op, v);
    if i == ops.len() - 1 {
        assert(rel_has_key(spec_rel_op(mid, last.key, last.op, v), last.key)) by {
            if rel_has_key(mid, last.key) {
            } else {
                let r = spec_rel_op(mid, last.key, last.op, v);
                assert(rel_entry_key(r[mid.len() as int]) == last.key);
            }
        }
    } else {
        assert(m[i] == ops[i]);
        lemma_rel_write_key_present(s, m, v, i);
    }
}

/// After a relation batch whose write keys are all present, the key
/// sequence is unchanged.
proof fn lemma_rel_keys_stable(s: Seq<RelEntryView>, ops: Seq<KeyedRelOp>, v: u64)
    requires
        unique_rel_keys(s),
        forall|i: int| 0 <= i < ops.len() && (#[trigger] ops[i]).op is Write ==> rel_has_key(
            s,
            ops[i].key,
        ),
    ensures
        rel_key_seq(apply_rel_ops(s, ops, v)) == rel_key_seq(s),
    decreases ops.len(),
{
    if ops.len() > 0 {
        let m = ops.drop_last();
        let last = ops.last();
        assert(forall|i: int|
            0 <= i < m.len() && (#[trigger] m[i]).op is Write ==> rel_has_key(s, m[i].key));
        lemma_rel_keys_stable(s, m, v);
        lemma_rel_ops_pointwise(s, m, v);
        let mid = apply_rel_ops(s, m, v);
        lemma_rel_op_pointwise(mid, last.key, last.op, v);
        match last.op {
            HistOp::Write(_) => {
                assert(rel_has_key(s, last.key));
                assert(rel_has_key(mid, last.key));
            },
            HistOp::Delete => {},
        }
    }
}

/// Replay of the relation plane: applying a batch of keyed relation
/// mutations at one version to its own result changes nothing.
pub proof fn lemma_relation_store_replay(s: Seq<RelEntryView>, ops: Seq<KeyedRelOp>, v: u64)
    requires
        unique_rel_keys(s),
    ensures
        apply_rel_ops(apply_rel_ops(s, ops, v), ops, v) == apply_rel_ops(s, ops, v),
{
    let f = apply_rel_ops(s, ops, v);
    let g = apply_rel_ops(f, ops, v);
    lemma_rel_ops_pointwise(s, ops, v);
    lemma_rel_ops_pointwise(f, ops, v);
    assert forall|i: int|
        0 <= i < ops.len() && (#[trigger] ops[i]).op is Write implies rel_has_key(
        f,
        ops[i].key,
    ) by {
        lemma_rel_write_key_present(s, ops, v, i);
    }
    lemma_rel_keys_stable(f, ops, v);
    assert(rel_key_seq(g) == rel_key_seq(f));
    assert(g.len() == f.len()) by {
        assert(rel_key_seq(g).len() == g.len());
        assert(rel_key_seq(f).len() == f.len());
    }
    assert forall|k: RelKey| rel_hist(g, k) == rel_hist(f, k) by {
        assert(rel_hist(f, k) == apply_hist_ops(rel_hist(s, k), rel_ops_for(ops, k), v));
        assert(rel_hist(g, k) == apply_hist_ops(rel_hist(f, k), rel_ops_for(ops, k), v));
        lemma_hist_replay(rel_hist(s, k), rel_ops_for(ops, k), v);
    }
    assert forall|i: int| 0 <= i < f.len() implies g[i] == f[i] by {
        assert(rel_key_seq(g)[i] == rel_key_seq(f)[i]);
        assert(rel_entry_key(g[i]) == rel_entry_key(f[i]));
        let k = rel_entry_key(f[i]);
        assert(rel_has_key(f, k)) by {
            assert(rel_entry_key(f[i]) == k);
        }
        let jf = rel_index_of(f, k);
        if jf != i {
            assert(rel_entry_key(f[jf]) != rel_entry_key(f[i]));
        }
        assert(rel_hist(f, k) == f[i].hist);
        assert(rel_has_key(g, k)) by {
            assert(rel_entry_key(g[i]) == k);
        }
        let jg = rel_index_of(g, k);
        if jg != i {
            assert(rel_entry_key(g[jg]) != rel_entry_key(g[i]));
        }
        assert(rel_hist(g, k) == g[i].hist);
        assert(g[i].hist == f[i].hist);
    }
    assert(g =~= f);
}

/// Stamping an entity twice with one block is stamping it once.
pub proof fn lemma_touch_entity_idempotent(
    s: Seq<crate::graph::EntityRowView>,
    id: Seq<char>,
    block: crate::block::BlockMetadataView,
)
    requires
        crate::graph::wf_entities(s),
    ensures
        crate::graph::spec_touch_entity(
            crate::graph::spec_touch_entity(s, id, block),
            id,
            block,
        ) == crate::graph::spec_touch_entity(s, id, block),
{
    let s1 = crate::graph::spec_touch_entity(s, id, block);
    if crate::graph::entities_has(s, id) {
        let i = crate::graph::entities_index_of(s, id);
        assert(s1 =~= s.update(
            i,
            crate::graph::EntityRowView {
                updated_at: block.timestamp,
                updated_at_block: block.block_number,
                ..s[i]
            },
        ));
        assert(crate::graph::entities_has(s1, id)) by {
            assert(s1[i].id == id);
        }
        let i2 = crate::graph::entities_index_of(s1, id);
        if i2 != i {
            assert(forall|a: int|
                0 <= a < s1.len() ==> (#[trigger] s1[a]).id == s[a].id);
            assert(s[i2].id != s[i].id);
        }
        assert(crate::graph::spec_touch_entity(s1, id, block) =~= s1);
    } else {
        assert(s1 =~= s.push(
            crate::graph::EntityRowView {
                id: id,
                created_at: block.timestamp,
                created_at_block: block.block_number,
                updated_at: block.timestamp,
                updated_at_block: block.block_number,
            },
        ));
        assert(crate::graph::entities_has(s1, id)) by {
            assert(s1[s.len() as int].id == id);
        }
        let i2 = crate::graph::entities_index_of(s1, id);
        assert(s1[i2].id == id);
        assert(crate::graph::spec_touch_entity(s1, id, block) =~= s1.update(
            i2,
            crate::graph::EntityRowView {
                updated_at: block.timestamp,
                updated_at_block: block.block_number,
                ..s1[i2]
            },
        ));
        assert(crate::graph::spec_touch_entity(s1, id, block) =~= s1);
    }
}

/// Recording a version mapping twice is recording it once.
pub proof fn lemma_register_version_idempotent(
    s: Seq<crate::graph::VersionEntryView>,
    id: Seq<char>,
    index: u64,
)
    ensures
        crate::graph::spec_register_version(
            crate::graph::spec_register_version(s, id, index),
            id,
            index,
        ) == crate::graph::spec_register_version(s, id, index),
{
    let s1 = crate::graph::spec_register_version(s, id, index);
    if crate::graph::versions_lookup(s, id) is Some {
    } else {
        assert(s1 == s.push(crate::graph::VersionEntryView { id: id, index: index }));
        assert(crate::graph::versions_has(s1, id)) by {
            assert(s1[s.len() as int].id == id);
        }
    }
}

} // verus!
