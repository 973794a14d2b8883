//! Version history of a single edge key.
//!
//! An edge key — a triple `(entity, attribute, space)` or a relation
//! `(id, space)` — carries a history: retired slices, each a value
//! with a half-open version interval `[min_version, max_version)`, and
//! at most one live value, a value with only a `min_version`. A write
//! at version `v` retires the live value at `v` and installs the new
//! one; a write of the value already live is a no-op; a delete retires
//! the live value. A value created and deleted at the same version
//! leaves no slice, since its interval would be empty and unreadable
//! at every version.
//!
//! The module is pure specification: the stores hold executable
//! mirrors of these histories and tie every mutation to
//! [`apply_hist_op`]. The lemmas here carry the crate's central
//! guarantees: well-formedness (at most one live value, disjoint
//! intervals) is preserved, a read at a version sees the last write at
//! or before it, and replaying a batch of writes leaves a history
//! unchanged.

use vstd::prelude::*;

verus! {

/// A retired slice: a value live in `[min_version, max_version)`.
pub ghost struct HistSlice<P> {
    pub value: P,
    pub min_version: u64,
    pub max_version: u64,
}

/// The live value: live from `min_version` on.
pub ghost struct HistLive<P> {
    pub value: P,
    pub min_version: u64,
}

/// The history of one edge key.
pub ghost struct Hist<P> {
    pub retired: Seq<HistSlice<P>>,
    pub live: Option<HistLive<P>>,
}

/// A mutation of one edge key.
pub ghost enum HistOp<P> {
    Write(P),
    Delete,
}

/// The empty history.
pub open spec fn empty_hist<P>() -> Hist<P> {
    Hist { retired: Seq::empty(), live: None }
}

/// Well-formed history: every slice is a non-empty interval, slices
/// are chained in version order, and the live value starts at or after
/// every slice's end.
pub open spec fn wf_hist<P>(h: Hist<P>) -> bool {
    &&& forall|i: int|
        0 <= i < h.retired.len() ==> h.retired[i].min_version < h.retired[i].max_version
    &&& forall|i: int, j: int|
        0 <= i < j < h.retired.len() ==> h.retired[i].max_version <= h.retired[j].min_version
    &&& match h.live {
        Some(l) => forall|i: int| 0 <= i < h.retired.len() ==> h.retired[i].max_version
            <= l.min_version,
        None => true,
    }
}

/// The version frontier: the least version at which a write is
/// consistent with the history.
pub open spec fn hist_frontier<P>(h: Hist<P>) -> u64 {
    match h.live {
        Some(l) => l.min_version,
        None => if h.retired.len() > 0 {
            h.retired.last().max_version
        } else {
            0
        },
    }
}

/// The retired slices after retiring the live value at `v`: a live
/// value from an earlier version is closed at `v`; one from `v`
/// itself would make an empty slice and leaves none.
pub open spec fn retired_after<P>(h: Hist<P>, v: u64) -> Seq<HistSlice<P>> {
    match h.live {
        Some(l) => if l.min_version < v {
            h.retired.push(
                HistSlice { value: l.value, min_version: l.min_version, max_version: v },
            )
        } else {
            h.retired
        },
        None => h.retired,
    }
}

/// One mutation at version `v`. Setting the value already live is a
/// no-op; any other set retires the live value and installs the new
/// one from `v`; a delete retires the live value.
pub open spec fn apply_hist_op<P>(h: Hist<P>, op: HistOp<P>, v: u64) -> Hist<P> {
    match op {
        HistOp::Write(p) => if h.live is Some && h.live->Some_0.value == p {
            h
        } else {
            Hist {
                retired: retired_after(h, v),
                live: Some(HistLive { value: p, min_version: v }),
            }
        },
        HistOp::Delete => Hist { retired: retired_after(h, v), live: None },
    }
}

/// A batch of mutations at one version, applied in order.
pub open spec fn apply_hist_ops<P>(h: Hist<P>, ops: Seq<HistOp<P>>, v: u64) -> Hist<P>
    decreases ops.len(),
{
    if ops.len() == 0 {
        h
    } else {
        apply_hist_ops(apply_hist_op(h, ops[0], v), ops.drop_first(), v)
    }
}

/// The value visible at a read version: `None` reads the live view;
/// `Some(v)` reads the value whose interval contains `v`.
pub open spec fn hist_value_at<P>(h: Hist<P>, at: Option<u64>) -> Option<P> {
    match at {
        None => match h.live {
            Some(l) => Some(l.value),
            None => None,
        },
        Some(v) => if h.live is Some && h.live->Some_0.min_version <= v {
            Some(h.live->Some_0.value)
        } else if exists|i: int|
            0 <= i < h.retired.len() && (#[trigger] h.retired[i]).min_version <= v
                < h.retired[i].max_version {
            Some(
                h.retired[choose|i: int|
                    0 <= i < h.retired.len() && (#[trigger] h.retired[i]).min_version <= v
                        < h.retired[i].max_version].value,
            )
        } else {
            None
        },
    }
}

/// In a well-formed history, at most one slice's interval contains a
/// version.
pub proof fn lemma_unique_slice<P>(h: Hist<P>, v: u64, i: int, j: int)
    requires
        wf_hist(h),
        0 <= i < h.retired.len(),
        0 <= j < h.retired.len(),
        h.retired[i].min_version <= v < h.retired[i].max_version,
        h.retired[j].min_version <= v < h.retired[j].max_version,
    ensures
        i == j,
{
    if i < j {
        assert(h.retired[i].max_version <= h.retired[j].min_version);
    } else if j < i {
        assert(h.retired[j].max_version <= h.retired[i].min_version);
    }
}

/// A mutation at or after the frontier preserves well-formedness, and
/// the frontier never moves past the mutation's version.
pub proof fn lemma_apply_op_wf<P>(h: Hist<P>, op: HistOp<P>, v: u64)
    requires
        wf_hist(h),
        v >= hist_frontier(h),
    ensures
        wf_hist(apply_hist_op(h, op, v)),
        hist_frontier(apply_hist_op(h, op, v)) <= v || apply_hist_op(h, op, v) == h,
{
    let r = apply_hist_op(h, op, v);
    match op {
        HistOp::Write(p) => {
            if h.live is Some && h.live->Some_0.value == p {
            } else {
                assert(wf_hist(r));
            }
        },
        HistOp::Delete => {
            assert(wf_hist(r));
        },
    }
}

/// A settled history: the live value, if any, starts exactly at `v`.
/// Histories become settled by the first effective mutation at `v` and
/// stay settled.
pub open spec fn settled<P>(h: Hist<P>, v: u64) -> bool {
    match h.live {
        Some(l) => l.min_version == v,
        None => true,
    }
}

/// The live value a mutation leaves behind on a settled history.
pub open spec fn op_outcome<P>(op: HistOp<P>, v: u64) -> Option<HistLive<P>> {
    match op {
        HistOp::Write(p) => Some(HistLive { value: p, min_version: v }),
        HistOp::Delete => None,
    }
}

/// On a settled history a mutation retires nothing and settles the
/// result to the mutation's outcome.
proof fn lemma_settled_op<P>(h: Hist<P>, op: HistOp<P>, v: u64)
    requires
        settled(h, v),
    ensures
        apply_hist_op(h, op, v).retired == h.retired,
        apply_hist_op(h, op, v).live == op_outcome(op, v),
        settled(apply_hist_op(h, op, v), v),
{
}

/// On a settled history a non-empty batch retires nothing and leaves
/// the outcome of its last mutation.
proof fn lemma_settled_ops<P>(h: Hist<P>, ops: Seq<HistOp<P>>, v: u64)
    requires
        settled(h, v),
        ops.len() > 0,
    ensures
        apply_hist_ops(h, ops, v).retired == h.retired,
        apply_hist_ops(h, ops, v).live == op_outcome(ops.last(), v),
        settled(apply_hist_ops(h, ops, v), v),
    decreases ops.len(),
{
    let h1 = apply_hist_op(h, ops[0], v);
    lemma_settled_op(h, ops[0], v);
    if ops.len() == 1 {
        assert(apply_hist_ops(h1, ops.drop_first(), v) == h1);
    } else {
        lemma_settled_ops(h1, ops.drop_first(), v);
        assert(ops.drop_first().last() == ops.last());
    }
}

/// A batch that changes a history leaves it settled.
proof fn lemma_changed_settled<P>(h: Hist<P>, ops: Seq<HistOp<P>>, v: u64)
    requires
        apply_hist_ops(h, ops, v) != h,
    ensures
        settled(apply_hist_ops(h, ops, v), v),
    decreases ops.len(),
{
    if ops.len() > 0 {
        let h1 = apply_hist_op(h, ops[0], v);
        if h1 == h {
            lemma_changed_settled(h, ops.drop_first(), v);
        } else {
            assert(settled(h1, v));
            if apply_hist_ops(h1, ops.drop_first(), v) == h1 {
            } else {
                lemma_changed_settled(h1, ops.drop_first(), v);
            }
        }
    }
}

/// Folding a batch and then one more mutation is folding the extended
/// batch.
pub proof fn lemma_apply_ops_append<P>(h: Hist<P>, ops: Seq<HistOp<P>>, op: HistOp<P>, v: u64)
    ensures
        apply_hist_ops(h, ops.push(op), v) == apply_hist_op(apply_hist_ops(h, ops, v), op, v),
    decreases ops.len(),
{
    if ops.len() == 0 {
        assert(ops.push(op)[0] == op);
        assert(ops.push(op).drop_first() =~= Seq::<HistOp<P>>::empty());
        assert(apply_hist_ops(h, ops.push(op), v) == apply_hist_ops(
            apply_hist_op(h, op, v),
            Seq::<HistOp<P>>::empty(),
            v,
        ));
        assert(apply_hist_ops(h, ops, v) == h);
    } else {
        assert(ops.push(op)[0] == ops[0]);
        assert(ops.push(op).drop_first() =~= ops.drop_first().push(op));
        lemma_apply_ops_append(apply_hist_op(h, ops[0], v), ops.drop_first(), op, v);
        assert(apply_hist_ops(h, ops.push(op), v) == apply_hist_ops(
            apply_hist_op(h, ops[0], v),
            ops.drop_first().push(op),
            v,
        ));
        assert(apply_hist_ops(h, ops, v) == apply_hist_ops(
            apply_hist_op(h, ops[0], v),
            ops.drop_first(),
            v,
        ));
    }
}

/// Replay: applying the same batch to its own result changes nothing.
/// This is what makes a crashed and re-run bundle harmless.
pub proof fn lemma_hist_replay<P>(h: Hist<P>, ops: Seq<HistOp<P>>, v: u64)
    ensures
        apply_hist_ops(apply_hist_ops(h, ops, v), ops, v) == apply_hist_ops(h, ops, v),
    decreases ops.len(),
{
    let f = apply_hist_ops(h, ops, v);
    if f == h {
        // The batch was a no-op on `h`; replaying it is the same no-op.
    } else {
        assert(ops.len() > 0);
        lemma_changed_settled(h, ops, v);
        lemma_settled_ops(f, ops, v);
        // The replayed batch leaves `{ f.retired, outcome(last) }`; it
        // remains to see that `f` already has its last op's outcome.
        let m = ops.drop_last();
        let t = ops.last();
        assert(ops =~= m.push(t));
        lemma_apply_ops_append(h, m, t, v);
        let e = apply_hist_ops(h, m, v);
        assert(f == apply_hist_op(e, t, v));
        match t {
            HistOp::Delete => {
                assert(f.live == op_outcome::<P>(t, v));
            },
            HistOp::Write(p) => {
                if e.live is Some && e.live->Some_0.value == p {
                    // The last write was a no-op on `e`.
                    if e == h {
                        assert(f == h);
                    } else {
                        lemma_changed_settled(h, m, v);
                        assert(e.live->Some_0.min_version == v);
                        assert(f.live == op_outcome(t, v));
                    }
                } else {
                    assert(f.live == op_outcome(t, v));
                }
            },
        }
        let g = apply_hist_ops(f, ops, v);
        assert(g.retired == f.retired);
        assert(g.live == f.live);
        assert(g == f);
    }
}

/// One write at an increasing version on a well-formed history: how
/// the visible value changes. A read at or past the write's version
/// sees the new value; an earlier read is unchanged.
pub proof fn lemma_set_read<P>(h: Hist<P>, p: P, v: u64, at: u64)
    requires
        wf_hist(h),
        v >= hist_frontier(h),
    ensures
        at >= v ==> hist_value_at(apply_hist_op(h, HistOp::Write(p), v), Some(at)) == Some(p),
        at < v ==> hist_value_at(apply_hist_op(h, HistOp::Write(p), v), Some(at)) == hist_value_at(
            h,
            Some(at),
        ),
{
    let r = apply_hist_op(h, HistOp::Write(p), v);
    if h.live is Some && h.live->Some_0.value == p {
        // No-op: the live value already is `p`, live since
        // `min_version <= frontier <= v <= at`.
    } else if at >= v {
        assert(r.live->Some_0.min_version <= at);
    } else {
        // `at < v`: the write must not change what `at` sees.
        match h.live {
            Some(l) => {
                if l.min_version <= at {
                    // The live value answered the read; its retired
                    // slice `[l.min_version, v)` now answers it.
                    assert(l.min_version < v);
                    let k = r.retired.len() - 1;
                    assert(r.retired[k] == HistSlice {
                        value: l.value,
                        min_version: l.min_version,
                        max_version: v,
                    });
                    assert(r.retired[k].min_version <= at < r.retired[k].max_version);
                    lemma_apply_op_wf(h, HistOp::Write(p), v);
                    let w = choose|i: int|
                        0 <= i < r.retired.len() && (#[trigger] r.retired[i]).min_version <= at
                            < r.retired[i].max_version;
                    lemma_unique_slice(r, at, w, k);
                    assert(hist_value_at(r, Some(at)) == Some(l.value));
                    assert(hist_value_at(h, Some(at)) == Some(l.value));
                } else {
                    // The read is below the live value; it is answered
                    // by the old slices on both sides.
                    lemma_apply_op_wf(h, HistOp::Write(p), v);
                    let n = h.retired.len();
                    assert(forall|i: int| 0 <= i < n ==> retired_after(h, v)[i] == h.retired[i]);
                    if r.retired.len() > n {
                        assert(r.retired[n as int].min_version == l.min_version);
                    }
                    if exists|i: int|
                        0 <= i < n && (#[trigger] h.retired[i]).min_version <= at
                            < h.retired[i].max_version {
                        let w = choose|i: int|
                            0 <= i < n && (#[trigger] h.retired[i]).min_version <= at
                                < h.retired[i].max_version;
                        assert(r.retired[w].min_version <= at < r.retired[w].max_version);
                        let w2 = choose|i: int|
                            0 <= i < r.retired.len() && (#[trigger] r.retired[i]).min_version <= at
                                < r.retired[i].max_version;
                        assert(0 <= w2 < r.retired.len());
                        assert(w2 < n) by {
                            if w2 >= n {
                                assert(r.retired[w2].min_version == l.min_version);
                            }
                        }
                        lemma_unique_slice(h, at, w, w2);
                        assert(hist_value_at(r, Some(at)) == Some(h.retired[w].value));
                        assert(hist_value_at(h, Some(at)) == Some(h.retired[w].value));
                    } else {
                        assert forall|i: int|
                            0 <= i < r.retired.len() implies !((
                        #[trigger] r.retired[i]).min_version <= at < r.retired[i].max_version) by {
                            if i < n {
                                assert(r.retired[i] == h.retired[i]);
                            } else {
                                assert(r.retired[i].min_version == l.min_version);
                            }
                        }
                        assert(hist_value_at(r, Some(at)) is None);
                        assert(hist_value_at(h, Some(at)) is None);
                    }
                }
            },
            None => {
                // No live value: the slices are untouched and the new
                // live value starts past `at`.
                assert(r.retired == h.retired);
                assert(r.live->Some_0.min_version == v);
                if exists|i: int|
                    0 <= i < h.retired.len() && (#[trigger] h.retired[i]).min_version <= at
                        < h.retired[i].max_version {
                    let w = choose|i: int|
                        0 <= i < h.retired.len() && (#[trigger] h.retired[i]).min_version <= at
                            < h.retired[i].max_version;
                    let w2 = choose|i: int|
                        0 <= i < r.retired.len() && (#[trigger] r.retired[i]).min_version <= at
                            < r.retired[i].max_version;
                    lemma_unique_slice(h, at, w, w2);
                    assert(hist_value_at(r, Some(at)) == Some(h.retired[w].value));
                    assert(hist_value_at(h, Some(at)) == Some(h.retired[w].value));
                } else {
                    assert(hist_value_at(r, Some(at)) is None);
                    assert(hist_value_at(h, Some(at)) is None);
                }
            },
        }
    }
}


/// A history built from a sequence of writes, each at its version.
pub open spec fn hist_of_writes<P>(ws: Seq<(u64, P)>) -> Hist<P>
    decreases ws.len(),
{
    if ws.len() == 0 {
        empty_hist()
    } else {
        apply_hist_op(hist_of_writes(ws.drop_last()), HistOp::Write(ws.last().1), ws.last().0)
    }
}

/// The value of the last write at or before a version, if any.
pub open spec fn last_write_at<P>(ws: Seq<(u64, P)>, v: u64) -> Option<P>
    decreases ws.len(),
{
    if ws.len() == 0 {
        None
    } else if ws.last().0 <= v {
        Some(ws.last().1)
    } else {
        last_write_at(ws.drop_last(), v)
    }
}

/// Whether write versions are strictly increasing.
pub open spec fn strictly_increasing<P>(ws: Seq<(u64, P)>) -> bool {
    forall|i: int, j: int| 0 <= i < j < ws.len() ==> (#[trigger] ws[i]).0 < (#[trigger] ws[j]).0
}

/// Reading a history of writes at strictly increasing versions
/// returns exactly the value of the last write at or before the read
/// version, and nothing where no write precedes it.
pub proof fn lemma_read_last_write<P>(ws: Seq<(u64, P)>, v: u64)
    requires
        strictly_increasing(ws),
    ensures
        wf_hist(hist_of_writes(ws)),
        ws.len() > 0 ==> hist_frontier(hist_of_writes(ws)) <= ws.last().0,
        hist_value_at(hist_of_writes(ws), Some(v)) == last_write_at(ws, v),
    decreases ws.len(),
{
    if ws.len() == 0 {
        assert(hist_value_at(empty_hist::<P>(), Some(v)) is None);
    } else {
        let m = ws.drop_last();
        let p = ws.last().1;
        let vn = ws.last().0;
        assert(strictly_increasing(m)) by {
            assert(forall|i: int, j: int|
                0 <= i < j < m.len() ==> (#[trigger] m[i]).0 < (#[trigger] m[j]).0) by {
                assert(forall|i: int| 0 <= i < m.len() ==> m[i] == ws[i]);
            }
        }
        lemma_read_last_write(m, v);
        let h = hist_of_writes(m);
        if m.len() > 0 {
            assert(m.last() == ws[ws.len() - 2]);
            assert(hist_frontier(h) <= m.last().0);
            assert(m.last().0 < vn);
        }
        lemma_apply_op_wf(h, HistOp::Write(p), vn);
        lemma_set_read(h, p, vn, v);
        if v >= vn {
            assert(hist_value_at(hist_of_writes(ws), Some(v)) == Some(p));
        } else {
            assert(hist_value_at(hist_of_writes(ws), Some(v)) == hist_value_at(h, Some(v)));
            lemma_read_last_write_helper(m, v);
        }
        // The frontier never passes the last write's version.
        let hn = hist_of_writes(ws);
        if hn == h {
            if m.len() > 0 {
                assert(hist_frontier(hn) <= m.last().0 <= vn);
            } else {
                assert(hist_frontier(hn) == 0);
            }
        } else {
            assert(hist_frontier(hn) <= vn);
        }
    }
}

/// A read below the last write's version ignores it.
proof fn lemma_read_last_write_helper<P>(m: Seq<(u64, P)>, v: u64)
    requires
        strictly_increasing(m),
    ensures
        last_write_at(m, v) == (if m.len() == 0 {
            None::<P>
        } else if m.last().0 <= v {
            Some(m.last().1)
        } else {
            last_write_at(m.drop_last(), v)
        }),
{
}

/// Writing the value already live twice in a row leaves exactly the
/// history a single write leaves: the second write is a no-op, so
/// one live value stands.
pub proof fn lemma_write_idempotent<P>(h: Hist<P>, p: P, v: u64)
    ensures
        apply_hist_op(apply_hist_op(h, HistOp::Write(p), v), HistOp::Write(p), v) == apply_hist_op(
            h,
            HistOp::Write(p),
            v,
        ),
{
}

} // verus!
