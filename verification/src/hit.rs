//! What a ray hits.
//!
//! A sphere meets the line of a ray at the two roots of a quadratic. The
//! roots are tried near one first, and the first that lies in the search
//! interval is the sphere's hit.
//!
//! A scene is an ordered sequence of objects, searched one after the other.
//! Each object either misses the ray or reports where along the ray it was
//! hit. The scene's answer is the nearest of these reports; of several
//! equally near ones it is the report of the object that comes first.
//!
//! A position along the ray is an integer key, as [`crate::key`] gives it:
//! the smaller the key, the nearer the position.

use vstd::prelude::*;

verus! {

/// One intersection: where along the ray, and with which object of the
/// scene.
#[derive(Clone, Copy, PartialEq, Eq, Debug, Structural)]
pub struct HitRecord {
    /// The position along the ray.
    pub t: u32,
    /// The index of the object in the scene's sequence.
    pub object: usize,
}

/// One of the two places where a ray's line meets a sphere.
#[derive(Clone, Copy, PartialEq, Eq, Debug, Structural)]
pub enum Root {
    /// The smaller root of the quadratic.
    Near,
    /// The greater root of the quadratic.
    Far,
}

/// The position exists and lies in the half-open interval from `start` up
/// to, but not including, `end`.
pub open spec fn within(t: Option<u32>, start: u32, end: u32) -> bool {
    t is Some && start <= t.unwrap() < end
}

/// The root at which a sphere is hit: the near root where it lies in the
/// interval, else the far root where that one does.
pub open spec fn accepted_root(
    near: Option<u32>,
    far: Option<u32>,
    start: u32,
    end: u32,
) -> Option<Root> {
    if within(near, start, end) {
        Some(Root::Near)
    } else if within(far, start, end) {
        Some(Root::Far)
    } else {
        None
    }
}

/// The position of a root.
pub open spec fn position(root: Root, near: Option<u32>, far: Option<u32>) -> Option<u32> {
    match root {
        Root::Near => near,
        Root::Far => far,
    }
}

/// Where the roots come in order, the accepted root is the nearest root in
/// the interval: it lies in the interval, and no root in the interval lies
/// before it.
pub proof fn lemma_accepted_root_is_nearest(
    near: Option<u32>,
    far: Option<u32>,
    start: u32,
    end: u32,
    other: Root,
)
    requires
        near is Some && far is Some ==> near.unwrap() <= far.unwrap(),
        within(position(other, near, far), start, end),
    ensures
        accepted_root(near, far, start, end) is Some,
        within(position(accepted_root(near, far, start, end).unwrap(), near, far), start, end),
        position(accepted_root(near, far, start, end).unwrap(), near, far).unwrap() <= position(
            other,
            near,
            far,
        ).unwrap(),
{
}

/// Chooses the root at which a sphere is hit.
///
/// `near` and `far` are the positions of the two roots, `None` for a root
/// that is no number. The roots are tried in that order, and the first one
/// in the interval from `start` up to, but not including, `end` is taken.
pub fn first_root(
    near: Option<u32>,
    far: Option<u32>,
    start: u32,
    end: u32,
) -> (root: Option<Root>)
    ensures
        root == accepted_root(near, far, start, end),
{
    if in_interval(near, start, end) {
        Some(Root::Near)
    } else if in_interval(far, start, end) {
        Some(Root::Far)
    } else {
        None
    }
}

/// Whether a position exists and lies in the half-open interval.
fn in_interval(t: Option<u32>, start: u32, end: u32) -> (inside: bool)
    ensures
        inside == within(t, start, end),
{
    match t {
        Some(at) => start <= at && at < end,
        None => false,
    }
}

/// The exclusive upper end of the interval that is still worth searching:
/// the position of the best hit so far, or `limit` while there is none.
pub open spec fn reach(best: Option<HitRecord>, limit: u32) -> u32 {
    match best {
        Some(hit) => hit.t,
        None => limit,
    }
}

/// The better of the best hit so far and one more candidate: the candidate
/// where it lies strictly under [`reach`], else the best so far.
pub open spec fn nearer(
    best: Option<HitRecord>,
    candidate: Option<HitRecord>,
    limit: u32,
) -> Option<HitRecord> {
    match candidate {
        Some(hit) if hit.t < reach(best, limit) => candidate,
        _ => best,
    }
}

/// What the object at position `i` reports, as a hit record.
pub open spec fn report(candidates: Seq<Option<u32>>, i: int) -> Option<HitRecord> {
    match candidates[i] {
        Some(t) => Some(HitRecord { t, object: i as usize }),
        None => None,
    }
}

/// The linear search: the objects are visited in order, and each report is
/// weighed against the best one before it.
pub open spec fn scan(candidates: Seq<Option<u32>>, limit: u32) -> Option<HitRecord>
    decreases candidates.len(),
{
    if candidates.len() == 0 {
        None
    } else {
        nearer(
            scan(candidates.drop_last(), limit),
            report(candidates, candidates.len() - 1),
            limit,
        )
    }
}

/// Object `i` of the scene reports a hit at position `t`.
pub open spec fn reports(candidates: Seq<Option<u32>>, i: int, t: u32) -> bool {
    0 <= i < candidates.len() && candidates[i] == Some(t)
}

/// What it means for `best` to be the scene's answer.
///
/// No answer means that no object reports a hit under `limit`. An answer is
/// the report of one of the objects, lies under `limit`, is no farther than
/// any other report, and is strictly nearer than every report of an earlier
/// object.
pub open spec fn is_closest(
    candidates: Seq<Option<u32>>,
    limit: u32,
    best: Option<HitRecord>,
) -> bool {
    match best {
        None => forall|i: int, t: u32| #[trigger] reports(candidates, i, t) ==> t >= limit,
        Some(hit) => {
            &&& reports(candidates, hit.object as int, hit.t)
            &&& hit.t < limit
            &&& forall|i: int, t: u32| #[trigger] reports(candidates, i, t) ==> hit.t <= t
            &&& forall|i: int, t: u32|
                #[trigger] reports(candidates, i, t) && i < hit.object ==> hit.t < t
        },
    }
}

/// The linear search finds the scene's answer.
pub proof fn lemma_scan_is_closest(candidates: Seq<Option<u32>>, limit: u32)
    requires
        candidates.len() <= usize::MAX,
    ensures
        is_closest(candidates, limit, scan(candidates, limit)),
    decreases candidates.len(),
{
    if candidates.len() > 0 {
        let front = candidates.drop_last();
        lemma_scan_is_closest(front, limit);
        assert forall|i: int, t: u32| reports(candidates, i, t) && i < front.len() implies reports(
            front,
            i,
            t,
        ) by {}
    }
}

/// The scene's answer is unique: two records that both qualify are the same
/// record.
pub proof fn lemma_closest_is_unique(
    candidates: Seq<Option<u32>>,
    limit: u32,
    a: Option<HitRecord>,
    b: Option<HitRecord>,
)
    requires
        is_closest(candidates, limit, a),
        is_closest(candidates, limit, b),
    ensures
        a == b,
{
}

/// What an object reports when it is only asked for hits under `bound`:
/// nothing where its hit lies at or beyond the bound.
pub open spec fn seen_under(candidate: Option<HitRecord>, bound: u32) -> Option<HitRecord> {
    match candidate {
        Some(hit) if hit.t < bound => candidate,
        _ => None,
    }
}

/// The linear search with a narrowing interval: each object is only asked
/// for hits under the [`reach`] of the best hit before it.
pub open spec fn narrowing_scan(candidates: Seq<Option<u32>>, limit: u32) -> Option<HitRecord>
    decreases candidates.len(),
{
    if candidates.len() == 0 {
        None
    } else {
        let best = narrowing_scan(candidates.drop_last(), limit);
        nearer(
            best,
            seen_under(report(candidates, candidates.len() - 1), reach(best, limit)),
            limit,
        )
    }
}

/// A search that narrows its interval after every hit finds the same answer
/// as one that asks every object for the whole interval: a hit at or beyond
/// the best one so far would not have replaced it.
pub proof fn lemma_narrowing_changes_nothing(candidates: Seq<Option<u32>>, limit: u32)
    ensures
        narrowing_scan(candidates, limit) == scan(candidates, limit),
    decreases candidates.len(),
{
    if candidates.len() > 0 {
        lemma_narrowing_changes_nothing(candidates.drop_last(), limit);
    }
}

/// Every hit that is kept draws the interval in, never out.
pub proof fn lemma_reach_never_grows(
    best: Option<HitRecord>,
    candidate: Option<HitRecord>,
    limit: u32,
)
    ensures
        reach(nearer(best, candidate, limit), limit) <= reach(best, limit),
{
}

/// Weighs one more candidate against the best hit so far.
///
/// The candidate replaces the best hit only where it is strictly nearer;
/// while there is no best hit, only where it lies under `limit`.
pub fn closer(
    best: Option<HitRecord>,
    candidate: Option<HitRecord>,
    limit: u32,
) -> (kept: Option<HitRecord>)
    ensures
        kept == nearer(best, candidate, limit),
{
    match candidate {
        Some(hit) => {
            let bound: u32 = match best {
                Some(found) => found.t,
                None => limit,
            };
            if hit.t < bound {
                candidate
            } else {
                best
            }
        },
        None => best,
    }
}

/// The scene's answer for one ray.
///
/// `candidates[i]` is what the scene's object `i` reports for the ray: the
/// position of its hit, or `None` for a miss. The result is the nearest
/// report under `limit`; among equally near reports it is the first.
pub fn closest(candidates: &Vec<Option<u32>>, limit: u32) -> (best: Option<HitRecord>)
    ensures
        is_closest(candidates@, limit, best),
        best == scan(candidates@, limit),
{
    let mut best: Option<HitRecord> = None;
    let mut i: usize = 0;
    while i < candidates.len()
        invariant
            i <= candidates.len(),
            best == scan(candidates@.take(i as int), limit),
        decreases candidates.len() - i,
    {
        let candidate = match candidates[i] {
            Some(t) => Some(HitRecord { t, object: i }),
            None => None,
        };
        proof {
            let upto = candidates@.take(i + 1);
            assert(upto.drop_last() =~= candidates@.take(i as int));
        }
        best = closer(best, candidate, limit);
        i += 1;
    }
    proof {
        assert(candidates@.take(i as int) =~= candidates@);
        lemma_scan_is_closest(candidates@, limit);
    }
    best
}

} // verus!
