use vstd::prelude::*;

verus! {

/// Depth at which reflected rays stop being traced.
pub const MAX_DEPTH: u8 = 100;

/// `i` is the nearest hit: its distance key is below `limit`, no key is
/// smaller, and every hit listed before it is strictly farther.
pub open spec fn is_nearest(hits: Seq<Option<u64>>, limit: u64, i: int) -> bool {
    &&& 0 <= i < hits.len()
    &&& hits[i] is Some
    &&& hits[i]->0 < limit
    &&& forall|j: int| 0 <= j < hits.len() && hits[j] is Some ==> hits[i]->0 <= hits[j]->0
    &&& forall|j: int| 0 <= j < i && hits[j] is Some ==> hits[i]->0 < hits[j]->0
}

/// Picks, among the hits of one ray on each object in list order, the one
/// with the smallest distance key below `limit`; on equal keys the earliest
/// object wins. Each `Some(k)` is the key of a hit's distance, in an encoding
/// that orders keys as the distances; `None` is a miss. `limit` is the key
/// that the scan starts from, and no hit at or beyond it is taken.
pub fn nearest_hit(hits: &[Option<u64>], limit: u64) -> (r: Option<usize>)
    ensures
        r is None <==> forall|j: int|
            0 <= j < hits@.len() && #[trigger] hits@[j] is Some ==> hits@[j]->0 >= limit,
        r is Some ==> is_nearest(hits@, limit, r->0 as int),
{
    let mut best: Option<usize> = None;
    let mut best_key: u64 = limit;
    let mut i: usize = 0;
    while i < hits.len()
        invariant
            i <= hits@.len(),
            best_key <= limit,
            forall|j: int| 0 <= j < i && #[trigger] hits@[j] is Some ==> best_key <= hits@[j]->0,
            best is None ==> best_key == limit,
            best is Some ==> {
                let b = best->0 as int;
                &&& b < i
                &&& hits@[b] == Some(best_key)
                &&& best_key < limit
                &&& forall|j: int| 0 <= j < b && hits@[j] is Some ==> best_key < hits@[j]->0
            },
        decreases hits@.len() - i,
    {
        if let Some(k) = hits[i] {
            if k < best_key {
                best = Some(i);
                best_key = k;
            }
        }
        i = i + 1;
    }
    best
}

/// Whether a hit at recursion `depth` traces a reflected ray: only on a
/// glossy surface, and only below the depth cap.
pub open spec fn reflects_spec(glossy: bool, depth: u8) -> bool {
    glossy && depth < MAX_DEPTH
}

/// Decides whether a hit at `depth` on a surface that is `glossy` (its
/// glossiness is above zero) traces its mirror reflection.
pub fn reflects(glossy: bool, depth: u8) -> (r: bool)
    ensures
        r == reflects_spec(glossy, depth),
{
    glossy && depth < MAX_DEPTH
}

/// How many reflected rays are traced one inside another from a hit at
/// `depth` when every surface they meet is glossy.
pub open spec fn reflection_chain(depth: u8) -> nat
    decreases MAX_DEPTH - depth,
{
    if reflects_spec(true, depth) {
        1 + reflection_chain((depth + 1) as u8)
    } else {
        0
    }
}

/// The depth cap bounds the recursion whatever the scene: even between
/// mirrors that face each other, a primary ray (depth 1) leads to at most
/// `MAX_DEPTH - 1` nested reflections, and from any depth to at most
/// `MAX_DEPTH - depth`.
pub proof fn lemma_reflection_chain_bounded(depth: u8)
    ensures
        reflection_chain(depth) == if depth < MAX_DEPTH {
            MAX_DEPTH - depth
        } else {
            0
        },
    decreases MAX_DEPTH - depth,
{
    if depth < MAX_DEPTH {
        lemma_reflection_chain_bounded((depth + 1) as u8);
    }
}

} // verus!
