//! Space hierarchy traversal and pluralism fallback.
//!
//! Spaces form a graph through `PARENT_SPACE` relations recorded in
//! the indexer space: the relation runs from the subspace to its
//! parent. Traversal ranks spaces by breadth-first depth from the
//! origin, ties broken by discovery order; a visited set makes it
//! terminate on cycles, and the origin itself is never yielded.
//! `skip` and `limit` apply after traversal.
//!
//! A non-strict read of a single-valued attribute that is absent in a
//! space consults the space's ancestors in rank order and returns the
//! first hit.

use vstd::prelude::*;

use crate::graph::KnowledgeGraph;
use crate::history::hist_value_at;
use crate::ids::str_eq;
use crate::indexer_ids;
use crate::relations::{rel_hist, RelationStore, RelEntryView, RelKey};
use crate::store::{entry_hist, TripleKey};
use crate::value::Value;

verus! {

/// Whether the store holds a live parent relation from `child` to
/// `parent` in the indexer space.
pub open spec fn is_parent_edge(
    s: Seq<RelEntryView>,
    child: Seq<char>,
    parent: Seq<char>,
) -> bool {
    exists|i: int|
        0 <= i < s.len() && {
            let e = #[trigger] s[i];
            &&& e.space == indexer_ids::INDEXER_SPACE_ID@
            &&& e.hist.live is Some
            &&& e.hist.live->Some_0.value.relation_type == indexer_ids::PARENT_SPACE@
            &&& e.hist.live->Some_0.value.from == child
            &&& e.hist.live->Some_0.value.to == parent
        }
}

/// The immediate subspaces of a space: the `from` endpoints of the
/// live parent relations pointing at it, in store order.
fn immediate_subspaces(store: &RelationStore, space_id: &str) -> (r: Vec<String>)
    ensures
        forall|i: int|
            0 <= i < r@.len() ==> is_parent_edge(store@, (#[trigger] r@[i])@, space_id@),
        r@.map_values(|x: String| x@) == spec_subspaces_of(store@, space_id@),
{
    let n = store.entries.len();
    let mut out: Vec<String> = Vec::new();
    let mut i: usize = 0;
    proof {
        assert(store@.take(0) =~= Seq::<RelEntryView>::empty());
        assert(out@.map_values(|x: String| x@) =~= spec_subspaces_of(store@.take(0), space_id@));
    }
    while i < n
        invariant
            n == store.entries@.len(),
            n == store@.len(),
            0 <= i <= n,
            forall|t: int|
                0 <= t < out@.len() ==> is_parent_edge(store@, (#[trigger] out@[t])@, space_id@),
            out@.map_values(|x: String| x@) == spec_subspaces_of(store@.take(i as int), space_id@),
        decreases n - i,
    {
        let ghost pre_out = out@;
        let e = &store.entries[i];
        proof {
            assert(store@[i as int] == e@);
            assert(store@.take(i + 1).drop_last() =~= store@.take(i as int));
            assert(store@.take(i + 1).last() == store@[i as int]);
        }
        if str_eq(e.space.as_str(), indexer_ids::INDEXER_SPACE_ID) {
            match &e.live {
                Some(l) => {
                    if str_eq(l.payload.relation_type.as_str(), indexer_ids::PARENT_SPACE)
                        && str_eq(l.payload.to.as_str(), space_id) {
                        proof {
                            assert(is_parent_edge(store@, l.payload.from@, space_id@));
                        }
                        out.push(l.payload.from.clone());
                        proof {
                            assert(out@.map_values(|x: String| x@) =~= pre_out.map_values(
                                |x: String| x@,
                            ).push(l.payload.from@));
                        }
                    }
                },
                None => {},
            }
        }
        proof {
            assert(out@.map_values(|x: String| x@) == spec_subspaces_of(
                store@.take(i + 1),
                space_id@,
            ));
        }
        i = i + 1;
    }
    proof {
        assert(store@.take(n as int) =~= store@);
    }
    out
}

/// The immediate parents of a space: the `to` endpoints of the live
/// parent relations leaving it, in store order.
fn immediate_parents(store: &RelationStore, space_id: &str) -> (r: Vec<String>)
    ensures
        forall|i: int|
            0 <= i < r@.len() ==> is_parent_edge(store@, space_id@, (#[trigger] r@[i])@),
        r@.map_values(|x: String| x@) == spec_parents_of(store@, space_id@),
{
    let n = store.entries.len();
    let mut out: Vec<String> = Vec::new();
    let mut i: usize = 0;
    proof {
        assert(store@.take(0) =~= Seq::<RelEntryView>::empty());
        assert(out@.map_values(|x: String| x@) =~= spec_parents_of(store@.take(0), space_id@));
    }
    while i < n
        invariant
            n == store.entries@.len(),
            n == store@.len(),
            0 <= i <= n,
            forall|t: int|
                0 <= t < out@.len() ==> is_parent_edge(store@, space_id@, (#[trigger] out@[t])@),
            out@.map_values(|x: String| x@) == spec_parents_of(store@.take(i as int), space_id@),
        decreases n - i,
    {
        let ghost pre_out = out@;
        let e = &store.entries[i];
        proof {
            assert(store@[i as int] == e@);
            assert(store@.take(i + 1).drop_last() =~= store@.take(i as int));
            assert(store@.take(i + 1).last() == store@[i as int]);
        }
        if str_eq(e.space.as_str(), indexer_ids::INDEXER_SPACE_ID) {
            match &e.live {
                Some(l) => {
                    if str_eq(l.payload.relation_type.as_str(), indexer_ids::PARENT_SPACE)
                        && str_eq(l.payload.from.as_str(), space_id) {
                        proof {
                            assert(is_parent_edge(store@, space_id@, l.payload.to@));
                        }
                        out.push(l.payload.to.clone());
                        proof {
                            assert(out@.map_values(|x: String| x@) =~= pre_out.map_values(
                                |x: String| x@,
                            ).push(l.payload.to@));
                        }
                    }
                },
                None => {},
            }
        }
        proof {
            assert(out@.map_values(|x: String| x@) == spec_parents_of(
                store@.take(i + 1),
                space_id@,
            ));
        }
        i = i + 1;
    }
    proof {
        assert(store@.take(n as int) =~= store@);
    }
    out
}

fn string_list_contains(list: &Vec<String>, s: &str) -> (r: bool)
    ensures
        r == exists|i: int| 0 <= i < list@.len() && (#[trigger] list@[i])@ == s@,
{
    let n = list.len();
    let mut i: usize = 0;
    while i < n
        invariant
            n == list@.len(),
            0 <= i <= n,
            forall|t: int| 0 <= t < i ==> (#[trigger] list@[t])@ != s@,
        decreases n - i,
    {
        if str_eq(list[i].as_str(), s) {
            proof {
                assert(list@[i as int]@ == s@);
            }
            return true;
        }
        i = i + 1;
    }
    false
}

/// Direction of a hierarchy traversal.
enum TraversalStep {
    Subspaces,
    Parents,
}

/// Whether a space is an endpoint of some live parent relation.
pub open spec fn touches_parent_edge(s: Seq<RelEntryView>, x: Seq<char>) -> bool {
    exists|a: Seq<char>, b: Seq<char>| is_parent_edge(s, a, b) && (x == a || x == b)
}

/// The immediate subspaces of a space in store order: the `from`
/// endpoint of each live parent relation pointing at it.
pub open spec fn spec_subspaces_of(s: Seq<RelEntryView>, space: Seq<char>) -> Seq<Seq<char>>
    decreases s.len(),
{
    if s.len() == 0 {
        Seq::empty()
    } else {
        let rest = spec_subspaces_of(s.drop_last(), space);
        let e = s.last();
        if e.space == indexer_ids::INDEXER_SPACE_ID@ && e.hist.live is Some
            && e.hist.live->Some_0.value.relation_type == indexer_ids::PARENT_SPACE@
            && e.hist.live->Some_0.value.to == space {
            rest.push(e.hist.live->Some_0.value.from)
        } else {
            rest
        }
    }
}

/// The immediate parents of a space in store order: the `to` endpoint
/// of each live parent relation leaving it.
pub open spec fn spec_parents_of(s: Seq<RelEntryView>, space: Seq<char>) -> Seq<Seq<char>>
    decreases s.len(),
{
    if s.len() == 0 {
        Seq::empty()
    } else {
        let rest = spec_parents_of(s.drop_last(), space);
        let e = s.last();
        if e.space == indexer_ids::INDEXER_SPACE_ID@ && e.hist.live is Some
            && e.hist.live->Some_0.value.relation_type == indexer_ids::PARENT_SPACE@
            && e.hist.live->Some_0.value.from == space {
            rest.push(e.hist.live->Some_0.value.to)
        } else {
            rest
        }
    }
}

/// The neighbors a traversal step explores from a space.
pub open spec fn spec_step_neighbors(
    s: Seq<RelEntryView>,
    subspaces: bool,
    x: Seq<char>,
) -> Seq<Seq<char>> {
    if subspaces {
        spec_subspaces_of(s, x)
    } else {
        spec_parents_of(s, x)
    }
}

/// One node's candidates taken in order: an unseen candidate joins the
/// visited set, the yield order and the next level. `cap` bounds the
/// yield; the traversal visits at most one space per relation entry,
/// so the bound never cuts a reachable space off.
pub open spec fn spec_bfs_enqueue(
    visited: Seq<Seq<char>>,
    found: Seq<Seq<char>>,
    nxt: Seq<Seq<char>>,
    cands: Seq<Seq<char>>,
    cap: nat,
) -> (Seq<Seq<char>>, Seq<Seq<char>>, Seq<Seq<char>>)
    decreases cands.len(),
{
    if cands.len() == 0 {
        (visited, found, nxt)
    } else {
        let c = cands[0];
        if !visited.contains(c) && found.len() < cap {
            spec_bfs_enqueue(
                visited.push(c),
                found.push(c),
                nxt.push(c),
                cands.drop_first(),
                cap,
            )
        } else {
            spec_bfs_enqueue(visited, found, nxt, cands.drop_first(), cap)
        }
    }
}

/// One level explored node by node, in discovery order.
pub open spec fn spec_bfs_level(
    s: Seq<RelEntryView>,
    subspaces: bool,
    visited: Seq<Seq<char>>,
    found: Seq<Seq<char>>,
    nxt: Seq<Seq<char>>,
    level: Seq<Seq<char>>,
    cap: nat,
) -> (Seq<Seq<char>>, Seq<Seq<char>>, Seq<Seq<char>>)
    decreases level.len(),
{
    if level.len() == 0 {
        (visited, found, nxt)
    } else {
        let step = spec_bfs_enqueue(
            visited,
            found,
            nxt,
            spec_step_neighbors(s, subspaces, level[0]),
            cap,
        );
        spec_bfs_level(s, subspaces, step.0, step.1, step.2, level.drop_first(), cap)
    }
}

/// Enqueueing yields exactly as many spaces as it adds to the next
/// level, and never takes the yield past the cap.
proof fn lemma_bfs_enqueue_len(
    visited: Seq<Seq<char>>,
    found: Seq<Seq<char>>,
    nxt: Seq<Seq<char>>,
    cands: Seq<Seq<char>>,
    cap: nat,
)
    requires
        found.len() <= cap,
    ensures
        ({
            let step = spec_bfs_enqueue(visited, found, nxt, cands, cap);
            &&& step.1.len() <= cap
            &&& step.1.len() - found.len() == step.2.len() - nxt.len()
            &&& step.2.len() >= nxt.len()
        }),
    decreases cands.len(),
{
    if cands.len() > 0 {
        let c = cands[0];
        if !visited.contains(c) && found.len() < cap {
            lemma_bfs_enqueue_len(
                visited.push(c),
                found.push(c),
                nxt.push(c),
                cands.drop_first(),
                cap,
            );
        } else {
            lemma_bfs_enqueue_len(visited, found, nxt, cands.drop_first(), cap);
        }
    }
}

/// A level yields exactly as many spaces as it adds to the next level.
proof fn lemma_bfs_level_len(
    s: Seq<RelEntryView>,
    subspaces: bool,
    visited: Seq<Seq<char>>,
    found: Seq<Seq<char>>,
    nxt: Seq<Seq<char>>,
    level: Seq<Seq<char>>,
    cap: nat,
)
    requires
        found.len() <= cap,
    ensures
        ({
            let step = spec_bfs_level(s, subspaces, visited, found, nxt, level, cap);
            &&& step.1.len() <= cap
            &&& step.1.len() - found.len() == step.2.len() - nxt.len()
            &&& step.2.len() >= nxt.len()
        }),
    decreases level.len(),
{
    if level.len() > 0 {
        let step = spec_bfs_enqueue(
            visited,
            found,
            nxt,
            spec_step_neighbors(s, subspaces, level[0]),
            cap,
        );
        lemma_bfs_enqueue_len(
            visited,
            found,
            nxt,
            spec_step_neighbors(s, subspaces, level[0]),
            cap,
        );
        lemma_bfs_level_len(s, subspaces, step.0, step.1, step.2, level.drop_first(), cap);
    }
}

/// Whether a traversal explores the nodes at a depth.
pub open spec fn spec_depth_within(max_depth: Option<u64>, depth: u64) -> bool {
    &&& match max_depth {
        Some(d) => depth < d,
        None => true,
    }
    &&& depth < 0xffff_ffff_ffff_fffe
}

/// The ranked breadth-first order, level by level: the spaces of one
/// depth are explored in discovery order before any deeper space, so
/// every yielded space stands after every shallower one and ties at a
/// depth keep discovery order. The traversal stops at `max_depth` and
/// on a level that yields nothing, which on a cyclic graph happens
/// once every reachable space is visited.
pub open spec fn spec_bfs(
    s: Seq<RelEntryView>,
    subspaces: bool,
    max_depth: Option<u64>,
    cap: nat,
    visited: Seq<Seq<char>>,
    found: Seq<Seq<char>>,
    level: Seq<Seq<char>>,
    depth: u64,
) -> Seq<Seq<char>>
    decreases cap + 1 - found.len(),
    when found.len() <= cap
    via spec_bfs_decreases
{
    if level.len() == 0 || !spec_depth_within(max_depth, depth) {
        found
    } else {
        let step = spec_bfs_level(s, subspaces, visited, found, Seq::empty(), level, cap);
        if step.2.len() == 0 {
            step.1
        } else {
            spec_bfs(s, subspaces, max_depth, cap, step.0, step.1, step.2, (depth + 1) as u64)
        }
    }
}

#[via_fn]
proof fn spec_bfs_decreases(
    s: Seq<RelEntryView>,
    subspaces: bool,
    max_depth: Option<u64>,
    cap: nat,
    visited: Seq<Seq<char>>,
    found: Seq<Seq<char>>,
    level: Seq<Seq<char>>,
    depth: u64,
) {
    if level.len() != 0 && spec_depth_within(max_depth, depth) {
        lemma_bfs_level_len(s, subspaces, visited, found, Seq::empty(), level, cap);
    }
}

/// The whole ranked traversal from an origin, before `skip` and
/// `limit` are applied: the origin is pre-visited and never yielded.
pub open spec fn spec_traversal(
    s: Seq<RelEntryView>,
    origin: Seq<char>,
    subspaces: bool,
    max_depth: Option<u64>,
) -> Seq<Seq<char>> {
    spec_bfs(s, subspaces, max_depth, s.len(), seq![origin], Seq::empty(), seq![origin], 0)
}

/// The `skip`/`limit` window of a ranked list.
pub open spec fn spec_window(xs: Seq<Seq<char>>, skip: u64, limit: u64) -> Seq<Seq<char>> {
    let start = if skip >= xs.len() {
        xs.len() as int
    } else {
        skip as int
    };
    let count = if limit >= xs.len() - start {
        xs.len() - start
    } else {
        limit as int
    };
    xs.subrange(start, start + count)
}

/// Ranked breadth-first traversal from an origin: every yielded space
/// is distinct, an endpoint of a live parent relation, and never the
/// origin itself. `max_depth` bounds the depth (`None` is unbounded),
/// and `skip` and `limit` apply after the traversal.
#[verifier::loop_isolation(false)]
fn traverse(
    store: &RelationStore,
    origin: &str,
    step: TraversalStep,
    max_depth: Option<u64>,
    skip: u64,
    limit: u64,
) -> (r: Vec<String>)
    ensures
        r@.len() <= limit,
        forall|i: int, j: int| 0 <= i < j < r@.len() ==> (r@[i])@ != (r@[j])@,
        forall|i: int| 0 <= i < r@.len() ==> (#[trigger] r@[i])@ != origin@,
        forall|i: int| 0 <= i < r@.len() ==> touches_parent_edge(store@, (#[trigger] r@[i])@),
        r@.map_values(|x: String| x@) == spec_window(
            spec_traversal(store@, origin@, step is Subspaces, max_depth),
            skip,
            limit,
        ),
{
    let bound = store.entries.len();
    let ghost subspaces = step is Subspaces;
    let ghost answer = spec_traversal(store@, origin@, subspaces, max_depth);
    let mut visited: Vec<String> = Vec::new();
    visited.push(origin.to_owned());
    let mut found: Vec<String> = Vec::new();
    let mut level: Vec<String> = Vec::new();
    level.push(origin.to_owned());
    let mut depth: u64 = 0;
    proof {
        assert(visited@.map_values(|x: String| x@) =~= seq![origin@]);
        assert(found@.map_values(|x: String| x@) =~= Seq::<Seq<char>>::empty());
        assert(level@.map_values(|x: String| x@) =~= seq![origin@]);
    }
    while level.len() > 0
        invariant
            bound == store@.len(),
            found@.len() <= bound,
            forall|i: int, j: int| 0 <= i < j < found@.len() ==> (found@[i])@ != (found@[j])@,
            forall|i: int| 0 <= i < found@.len() ==> (#[trigger] found@[i])@ != origin@,
            forall|i: int|
                0 <= i < found@.len() ==> touches_parent_edge(store@, (#[trigger] found@[i])@),
            visited@.len() == found@.len() + 1,
            (visited@[0])@ == origin@,
            forall|i: int| 0 <= i < found@.len() ==> (visited@[i + 1])@ == (#[trigger] found@[i])@,
            spec_bfs(
                store@,
                subspaces,
                max_depth,
                bound as nat,
                visited@.map_values(|x: String| x@),
                found@.map_values(|x: String| x@),
                level@.map_values(|x: String| x@),
                depth,
            ) == answer,
        decreases bound + 1 - found@.len(), level@.len(),
    {
        let ghost visitedv = visited@.map_values(|x: String| x@);
        let ghost foundv = found@.map_values(|x: String| x@);
        let ghost levelv = level@.map_values(|x: String| x@);
        let within = match max_depth {
            Some(d) => depth < d,
            None => true,
        };
        if !(within && depth < 0xffff_ffff_ffff_fffe) {
            proof {
                assert(!spec_depth_within(max_depth, depth));
                assert(answer == foundv);
            }
            level = Vec::new();
            proof {
                assert(level@.map_values(|x: String| x@) =~= Seq::<Seq<char>>::empty());
            }
        } else {
            let mut next: Vec<String> = Vec::new();
            let mut li: usize = 0;
            let ghost whole = spec_bfs_level(
                store@,
                subspaces,
                visitedv,
                foundv,
                Seq::<Seq<char>>::empty(),
                levelv,
                bound as nat,
            );
            proof {
                assert(next@.map_values(|x: String| x@) =~= Seq::<Seq<char>>::empty());
                assert(levelv.skip(0) =~= levelv);
            }
            while li < level.len()
                invariant
                    bound == store@.len(),
                    found@.len() <= bound,
                    0 <= li <= level@.len(),
                    levelv == level@.map_values(|x: String| x@),
                    forall|i: int, j: int|
                        0 <= i < j < found@.len() ==> (found@[i])@ != (found@[j])@,
                    forall|i: int| 0 <= i < found@.len() ==> (#[trigger] found@[i])@ != origin@,
                    forall|i: int|
                        0 <= i < found@.len() ==> touches_parent_edge(
                            store@,
                            (#[trigger] found@[i])@,
                        ),
                    visited@.len() == found@.len() + 1,
                    (visited@[0])@ == origin@,
                    forall|i: int|
                        0 <= i < found@.len() ==> (visited@[i + 1])@ == (#[trigger] found@[i])@,
                    spec_bfs_level(
                        store@,
                        subspaces,
                        visited@.map_values(|x: String| x@),
                        found@.map_values(|x: String| x@),
                        next@.map_values(|x: String| x@),
                        levelv.skip(li as int),
                        bound as nat,
                    ) == whole,
                decreases level@.len() - li,
            {
                let current = level[li].clone();
                proof {
                    assert(levelv.skip(li as int)[0] == levelv[li as int]);
                    assert(levelv.skip(li as int).drop_first() =~= levelv.skip(li + 1));
                    assert(current@ == levelv[li as int]);
                }
                let mut cands = match step {
                    TraversalStep::Subspaces => {
                        let v = immediate_subspaces(store, current.as_str());
                        proof {
                            assert forall|i: int|
                                0 <= i < v@.len() implies touches_parent_edge(
                                store@,
                                (#[trigger] v@[i])@,
                            ) by {
                                assert(is_parent_edge(store@, (v@[i])@, current@));
                            }
                        }
                        v
                    },
                    TraversalStep::Parents => {
                        let v = immediate_parents(store, current.as_str());
                        proof {
                            assert forall|i: int|
                                0 <= i < v@.len() implies touches_parent_edge(
                                store@,
                                (#[trigger] v@[i])@,
                            ) by {
                                assert(is_parent_edge(store@, current@, (v@[i])@));
                            }
                        }
                        v
                    },
                };
                proof {
                    assert(cands@.map_values(|x: String| x@) == spec_step_neighbors(
                        store@,
                        subspaces,
                        levelv[li as int],
                    ));
                }
                let ghost inner_whole = spec_bfs_enqueue(
                    visited@.map_values(|x: String| x@),
                    found@.map_values(|x: String| x@),
                    next@.map_values(|x: String| x@),
                    cands@.map_values(|x: String| x@),
                    bound as nat,
                );
                while cands.len() > 0
                    invariant
                        bound == store@.len(),
                        found@.len() <= bound,
                        forall|i: int|
                            0 <= i < cands@.len() ==> touches_parent_edge(
                                store@,
                                (#[trigger] cands@[i])@,
                            ),
                        forall|i: int, j: int|
                            0 <= i < j < found@.len() ==> (found@[i])@ != (found@[j])@,
                        forall|i: int|
                            0 <= i < found@.len() ==> (#[trigger] found@[i])@ != origin@,
                        forall|i: int|
                            0 <= i < found@.len() ==> touches_parent_edge(
                                store@,
                                (#[trigger] found@[i])@,
                            ),
                        visited@.len() == found@.len() + 1,
                        (visited@[0])@ == origin@,
                        forall|i: int|
                            0 <= i < found@.len() ==> (visited@[i + 1])@ == (#[trigger] found@[i])@,
                        spec_bfs_enqueue(
                            visited@.map_values(|x: String| x@),
                            found@.map_values(|x: String| x@),
                            next@.map_values(|x: String| x@),
                            cands@.map_values(|x: String| x@),
                            bound as nat,
                        ) == inner_whole,
                    decreases cands@.len(),
                {
                    let ghost pre_cands = cands@.map_values(|x: String| x@);
                    let candidate = cands.remove(0);
                    proof {
                        assert(candidate@ == pre_cands[0]);
                        assert(touches_parent_edge(store@, candidate@));
                        assert(cands@.map_values(|x: String| x@) =~= pre_cands.drop_first());
                    }
                    let seen = string_list_contains(&visited, candidate.as_str());
                    proof {
                        assert(seen == visited@.map_values(|x: String| x@).contains(candidate@))
                            by {
                            let vv = visited@.map_values(|x: String| x@);
                            if seen {
                                let i = choose|i: int|
                                    0 <= i < visited@.len() && (#[trigger] visited@[i])@
                                        == candidate@;
                                assert(vv[i] == candidate@);
                            } else {
                                if vv.contains(candidate@) {
                                    let i = choose|i: int|
                                        0 <= i < vv.len() && vv[i] == candidate@;
                                    assert(visited@[i]@ == candidate@);
                                }
                            }
                        }
                    }
                    if !seen && found.len() < bound {
                        proof {
                            assert(forall|i: int|
                                0 <= i < visited@.len() ==> (#[trigger] visited@[i])@
                                    != candidate@);
                            assert((visited@[0])@ == origin@);
                            assert(candidate@ != origin@);
                            assert forall|i: int|
                                0 <= i < found@.len() implies (#[trigger] found@[i])@
                                    != candidate@ by {
                                assert((visited@[i + 1])@ == (found@[i])@);
                            }
                        }
                        let ghost pre_found = found@;
                        let ghost pre_visited = visited@;
                        let ghost pre_next = next@;
                        visited.push(candidate.clone());
                        found.push(candidate.clone());
                        next.push(candidate);
                        proof {
                            assert(forall|i: int|
                                0 <= i < pre_found.len() ==> (#[trigger] found@[i])
                                    == pre_found[i]);
                            assert(forall|i: int|
                                0 <= i < pre_visited.len() ==> (#[trigger] visited@[i])
                                    == pre_visited[i]);
                            assert((found@[found@.len() - 1])@ == (visited@[visited@.len() - 1])@);
                            assert(visited@.map_values(|x: String| x@) =~= pre_visited.map_values(
                                |x: String| x@,
                            ).push(pre_cands[0]));
                            assert(found@.map_values(|x: String| x@) =~= pre_found.map_values(
                                |x: String| x@,
                            ).push(pre_cands[0]));
                            assert(next@.map_values(|x: String| x@) =~= pre_next.map_values(
                                |x: String| x@,
                            ).push(pre_cands[0]));
                        }
                    }
                }
                proof {
                    assert(levelv.skip(li as int).len() > 0);
                }
                li = li + 1;
            }
            proof {
                assert(levelv.skip(levelv.len() as int) =~= Seq::<Seq<char>>::empty());
                assert(whole == (
                    visited@.map_values(|x: String| x@),
                    found@.map_values(|x: String| x@),
                    next@.map_values(|x: String| x@),
                ));
                assert(spec_depth_within(max_depth, depth));
                lemma_bfs_level_len(
                    store@,
                    subspaces,
                    visitedv,
                    foundv,
                    Seq::<Seq<char>>::empty(),
                    levelv,
                    bound as nat,
                );
            }
            level = next;
            depth = depth + 1;
        }
    }
    proof {
        assert(level@.map_values(|x: String| x@).len() == 0);
        assert(answer == found@.map_values(|x: String| x@));
    }
    // Apply skip and limit after the traversal.
    let total = found.len();
    let start = if skip >= total as u64 {
        total
    } else {
        skip as usize
    };
    let window = total - start;
    let count = if limit >= window as u64 {
        window
    } else {
        limit as usize
    };
    let mut out: Vec<String> = Vec::new();
    let mut i: usize = 0;
    while i < count
        invariant
            total == found@.len(),
            start + count <= total,
            count as u64 <= limit,
            0 <= i <= count,
            out@.len() == i,
            forall|a: int, b: int| 0 <= a < b < found@.len() ==> (found@[a])@ != (found@[b])@,
            forall|a: int| 0 <= a < found@.len() ==> (#[trigger] found@[a])@ != origin@,
            forall|a: int|
                0 <= a < found@.len() ==> touches_parent_edge(store@, (#[trigger] found@[a])@),
            forall|a: int| 0 <= a < out@.len() ==> (#[trigger] out@[a])@ == (found@[start + a])@,
        decreases count - i,
    {
        out.push(found[start + i].clone());
        i = i + 1;
    }
    proof {
        assert forall|a: int| 0 <= a < out@.len() implies touches_parent_edge(
            store@,
            (#[trigger] out@[a])@,
        ) by {
            assert((out@[a])@ == (found@[start + a])@);
            assert(touches_parent_edge(store@, (found@[start + a])@));
        }
        assert forall|a: int| 0 <= a < out@.len() implies (#[trigger] out@[a])@ != origin@ by {
            assert((out@[a])@ == (found@[start + a])@);
        }
        assert forall|a: int, b: int| 0 <= a < b < out@.len() implies (out@[a])@ != (out@[b])@ by {
            assert((out@[a])@ == (found@[start + a])@);
            assert((out@[b])@ == (found@[start + b])@);
        }
        assert(out@.map_values(|x: String| x@) =~= found@.map_values(|x: String| x@).subrange(
            start as int,
            start + count,
        ));
        assert(out@.map_values(|x: String| x@) == spec_window(answer, skip, limit));
    }
    out
}

/// Query for the subspaces of a space: ranked breadth-first descent
/// through the live parent relations, depth-bounded, with `skip` and
/// `limit` applied after traversal.
#[derive(Debug)]
pub struct SubspacesQuery {
    pub space_id: String,
    pub limit: u64,
    pub skip: Option<u64>,
    pub max_depth: Option<u64>,
}

impl SubspacesQuery {
    /// A query for the immediate subspaces of `space_id`: depth 1,
    /// first 100.
    pub fn new(space_id: String) -> (r: Self)
        ensures
            r.space_id@ == space_id@,
            r.limit == 100,
            r.skip is None,
            r.max_depth == Some(1u64),
    {
        SubspacesQuery { space_id, limit: 100, skip: None, max_depth: Some(1) }
    }

    /// Limit the number of results.
    pub fn limit(self, limit: u64) -> (r: Self)
        ensures
            r == (SubspacesQuery { limit, ..self }),
    {
        SubspacesQuery { limit, ..self }
    }

    /// Skip a number of results.
    pub fn skip(self, skip: u64) -> (r: Self)
        ensures
            r == (SubspacesQuery { skip: Some(skip), ..self }),
    {
        SubspacesQuery { skip: Some(skip), ..self }
    }

    /// Bound the depth of the descent; `None` descends through the
    /// whole reachable hierarchy.
    pub fn max_depth(self, max_depth: Option<u64>) -> (r: Self)
        ensures
            r == (SubspacesQuery { max_depth, ..self }),
    {
        SubspacesQuery { max_depth, ..self }
    }

    /// Run the traversal: the `skip`/`limit` window of the ranked
    /// breadth-first descent from the origin, distinct, never the
    /// origin, each an endpoint of a live parent relation.
    pub fn send(&self, kg: &KnowledgeGraph) -> (r: Vec<String>)
        ensures
            r@.len() <= self.limit,
            forall|i: int, j: int| 0 <= i < j < r@.len() ==> (r@[i])@ != (r@[j])@,
            forall|i: int| 0 <= i < r@.len() ==> (#[trigger] r@[i])@ != self.space_id@,
            forall|i: int|
                0 <= i < r@.len() ==> touches_parent_edge(kg@.relations, (#[trigger] r@[i])@),
            r@.map_values(|x: String| x@) == spec_window(
                spec_traversal(kg@.relations, self.space_id@, true, self.max_depth),
                (match self.skip {
                    Some(s) => s,
                    None => 0,
                }),
                self.limit,
            ),
    {
        let skip = match self.skip {
            Some(s) => s,
            None => 0,
        };
        traverse(
            &kg.relations,
            self.space_id.as_str(),
            TraversalStep::Subspaces,
            self.max_depth,
            skip,
            self.limit,
        )
    }
}

/// Query for the ancestors of a space: ranked breadth-first ascent
/// through the live parent relations.
#[derive(Debug)]
pub struct ParentSpacesQuery {
    pub space_id: String,
    pub limit: u64,
    pub skip: Option<u64>,
    pub max_depth: Option<u64>,
}

impl ParentSpacesQuery {
    /// A query for the immediate parents of `space_id`: depth 1,
    /// first 100.
    pub fn new(space_id: String) -> (r: Self)
        ensures
            r.space_id@ == space_id@,
            r.limit == 100,
            r.skip is None,
            r.max_depth == Some(1u64),
    {
        ParentSpacesQuery { space_id, limit: 100, skip: None, max_depth: Some(1) }
    }

    /// Limit the number of results.
    pub fn limit(self, limit: u64) -> (r: Self)
        ensures
            r == (ParentSpacesQuery { limit, ..self }),
    {
        ParentSpacesQuery { limit, ..self }
    }

    /// Skip a number of results.
    pub fn skip(self, skip: u64) -> (r: Self)
        ensures
            r == (ParentSpacesQuery { skip: Some(skip), ..self }),
    {
        ParentSpacesQuery { skip: Some(skip), ..self }
    }

    /// Bound the depth of the ascent; `None` climbs through the whole
    /// reachable hierarchy.
    pub fn max_depth(self, max_depth: Option<u64>) -> (r: Self)
        ensures
            r == (ParentSpacesQuery { max_depth, ..self }),
    {
        ParentSpacesQuery { max_depth, ..self }
    }

    /// Run the traversal: the `skip`/`limit` window of the ranked
    /// breadth-first ascent from the origin, distinct, never the
    /// origin, each an endpoint of a live parent relation.
    pub fn send(&self, kg: &KnowledgeGraph) -> (r: Vec<String>)
        ensures
            r@.len() <= self.limit,
            forall|i: int, j: int| 0 <= i < j < r@.len() ==> (r@[i])@ != (r@[j])@,
            forall|i: int| 0 <= i < r@.len() ==> (#[trigger] r@[i])@ != self.space_id@,
            forall|i: int|
                0 <= i < r@.len() ==> touches_parent_edge(kg@.relations, (#[trigger] r@[i])@),
            r@.map_values(|x: String| x@) == spec_window(
                spec_traversal(kg@.relations, self.space_id@, false, self.max_depth),
                (match self.skip {
                    Some(s) => s,
                    None => 0,
                }),
                self.limit,
            ),
    {
        let skip = match self.skip {
            Some(s) => s,
            None => 0,
        };
        traverse(
            &kg.relations,
            self.space_id.as_str(),
            TraversalStep::Parents,
            self.max_depth,
            skip,
            self.limit,
        )
    }
}

/// The first space of a list in which the triple is live.
pub open spec fn spec_first_hit(
    triples: Seq<crate::store::TripleEntryView>,
    attribute: Seq<char>,
    entity: Seq<char>,
    spaces: Seq<Seq<char>>,
) -> Option<crate::value::ValueView>
    decreases spaces.len(),
{
    if spaces.len() == 0 {
        None
    } else {
        let k = TripleKey { entity: entity, attribute: attribute, space: spaces[0] };
        match hist_value_at(entry_hist(triples, k), None) {
            Some(v) => Some(v),
            None => spec_first_hit(triples, attribute, entity, spaces.drop_first()),
        }
    }
}

/// The live value of the triple in the first of the given spaces that
/// holds one.
pub fn find_triple_fallback<'a>(
    kg: &'a KnowledgeGraph,
    attribute: &str,
    entity: &str,
    spaces: &Vec<String>,
) -> (r: Option<&'a Value>)
    requires
        crate::graph::wf_graph(kg@),
    ensures
        match r {
            Some(v) => spec_first_hit(
                kg@.triples,
                attribute@,
                entity@,
                spaces@.map_values(|s: String| s@),
            ) == Some(v@),
            None => spec_first_hit(
                kg@.triples,
                attribute@,
                entity@,
                spaces@.map_values(|s: String| s@),
            ) is None,
        },
{
    let ghost all = spaces@.map_values(|s: String| s@);
    let n = spaces.len();
    proof {
        assert(all.skip(0) =~= all);
    }
    let mut i: usize = 0;
    while i < n
        invariant
            n == spaces@.len(),
            crate::graph::wf_graph(kg@),
            all == spaces@.map_values(|s: String| s@),
            0 <= i <= n,
            spec_first_hit(kg@.triples, attribute@, entity@, all) == spec_first_hit(
                kg@.triples,
                attribute@,
                entity@,
                all.skip(i as int),
            ),
        decreases n - i,
    {
        let space = &spaces[i];
        match kg.triples.find_triple(attribute, entity, space.as_str(), None) {
            Some(v) => {
                proof {
                    assert(all.skip(i as int)[0] == space@);
                    assert(all.skip(i as int).len() > 0);
                }
                return Some(v);
            },
            None => {
                proof {
                    assert(all.skip(i as int)[0] == space@);
                    assert(all.skip(i as int).drop_first() =~= all.skip(i + 1));
                }
            },
        }
        i = i + 1;
    }
    proof {
        assert(all.skip(n as int).len() == 0);
    }
    None
}

/// Pluralism read of a single-valued attribute. With `strict` the
/// read consults only the space itself; otherwise a miss falls back
/// through the space's ancestors in rank order and returns the first
/// hit. Listings never fall back; only single-valued reads do.
pub fn find_triple_plural<'a>(
    kg: &'a KnowledgeGraph,
    attribute: &str,
    entity: &str,
    space: &str,
    strict: bool,
) -> (r: Option<&'a Value>)
    requires
        crate::graph::wf_graph(kg@),
    ensures
        ({
            let k = TripleKey { entity: entity@, attribute: attribute@, space: space@ };
            let own = hist_value_at(entry_hist(kg@.triples, k), None);
            &&& strict ==> (match r {
                Some(v) => own == Some(v@),
                None => own is None,
            })
            &&& own is Some ==> (match r {
                Some(v) => own == Some(v@),
                None => false,
            })
            &&& !strict && own is None ==> (match r {
                Some(v) => spec_first_hit(
                    kg@.triples,
                    attribute@,
                    entity@,
                    spec_window(spec_traversal(kg@.relations, space@, false, None), 0, 100),
                ) == Some(v@),
                None => spec_first_hit(
                    kg@.triples,
                    attribute@,
                    entity@,
                    spec_window(spec_traversal(kg@.relations, space@, false, None), 0, 100),
                ) is None,
            })
        }),
{
    match kg.triples.find_triple(attribute, entity, space, None) {
        Some(v) => Some(v),
        None => {
            if strict {
                None
            } else {
                let ancestors = ParentSpacesQuery::new(space.to_owned()).max_depth(None).send(kg);
                find_triple_fallback(kg, attribute, entity, &ancestors)
            }
        },
    }
}

} // verus!
