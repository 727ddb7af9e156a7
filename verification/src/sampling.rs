//! The sampling of outlines: which sample lies where on a closed path through
//! given corners, and the materialisation of a full point sequence.
//!
//! The coordinates themselves are computed by the functions handed in.

use crate::RESOLUTION;
use vstd::prelude::*;

verus! {

/// The place of a sample on a closed path: on the side from corner `from` to
/// corner `to`, `step` parts of `steps` along the way.
#[derive(Clone, Copy, Debug, PartialEq, Eq, Structural)]
pub struct Segment {
    pub from: usize,
    pub to: usize,
    pub step: usize,
    pub steps: usize,
}

/// The place of sample `i` on a closed path through `corners` corners.
///
/// Every side gets the same number of samples, `RESOLUTION / corners`. Where
/// that leaves a remainder, the last samples start over on the first side.
pub open spec fn segment_of(i: int, corners: int) -> Segment
    recommends
        0 <= i,
        0 < corners <= RESOLUTION,
{
    let steps = RESOLUTION as int / corners;
    let from = (i / steps) % corners;
    Segment {
        from: from as usize,
        to: ((from + 1) % corners) as usize,
        step: (i % steps) as usize,
        steps: steps as usize,
    }
}

/// The place of sample `i` on a closed path through `corners` corners.
pub fn segment_at(i: usize, corners: usize) -> (s: Segment)
    requires
        0 < corners <= RESOLUTION,
    ensures
        s == segment_of(i as int, corners as int),
        s.from < corners,
        s.to < corners,
        s.step < s.steps,
        s.steps * corners <= RESOLUTION,
{
    let steps: usize = RESOLUTION / corners;
    assert(steps >= 1 && steps * corners <= RESOLUTION) by (nonlinear_arith)
        requires
            0 < corners <= 400,
            steps as int == 400int / (corners as int),
    ;
    let from: usize = (i / steps) % corners;
    let to: usize = (from + 1) % corners;
    Segment { from, to, step: i % steps, steps }
}

/// Whether corner `k` of a star lies on the outer radius. The corners of a
/// star alternate between the outer and the inner radius, starting outside.
pub fn is_outer_corner(k: usize) -> (outer: bool)
    ensures
        outer == (k % 2 == 0),
{
    k % 2 == 0
}

/// The point sequence of a parametric curve: `point_at` evaluated at every
/// sample index below `RESOLUTION`, in order.
pub fn sample<P, F: Fn(usize) -> P>(point_at: &F) -> (points: Vec<P>)
    requires
        forall|i: usize| i < RESOLUTION ==> call_requires(*point_at, (i,)),
    ensures
        points@.len() == RESOLUTION,
        forall|i: int|
            0 <= i < RESOLUTION ==> call_ensures(*point_at, (i as usize,), #[trigger] points@[i]),
{
    let mut points: Vec<P> = Vec::new();
    let mut i: usize = 0;
    while i < RESOLUTION
        invariant
            i <= RESOLUTION,
            points@.len() == i,
            forall|k: usize| k < RESOLUTION ==> call_requires(*point_at, (k,)),
            forall|k: int| 0 <= k < i ==> call_ensures(*point_at, (k as usize,), #[trigger] points@[k]),
        decreases RESOLUTION - i,
    {
        let point = point_at(i);
        points.push(point);
        i += 1;
    }
    points
}

/// The corners of a closed path: `corner_at(j, count)` for every `j` below
/// `count`, in order.
pub fn ring<P, F: Fn(usize, usize) -> P>(count: usize, corner_at: &F) -> (corners: Vec<P>)
    requires
        forall|j: usize| j < count ==> call_requires(*corner_at, (j, count)),
    ensures
        corners@.len() == count,
        forall|j: int|
            0 <= j < count ==> call_ensures(*corner_at, (j as usize, count), #[trigger] corners@[j]),
{
    let mut corners: Vec<P> = Vec::new();
    let mut j: usize = 0;
    while j < count
        invariant
            j <= count,
            corners@.len() == j,
            forall|k: usize| k < count ==> call_requires(*corner_at, (k, count)),
            forall|k: int|
                0 <= k < j ==> call_ensures(*corner_at, (k as usize, count), #[trigger] corners@[k]),
        decreases count - j,
    {
        let corner = corner_at(j, count);
        corners.push(corner);
        j += 1;
    }
    corners
}

/// The point sequence of the closed path through `corners`: for every sample
/// index below `RESOLUTION`, `between` applied to the two corners of the
/// sample's side and to its place between them.
pub fn trace_outline<P, F: Fn(&P, &P, usize, usize) -> P>(corners: &Vec<P>, between: &F) -> (points:
    Vec<P>)
    requires
        0 < corners@.len() <= RESOLUTION,
        forall|a: &P, b: &P, step: usize, steps: usize|
            step < steps ==> call_requires(*between, (a, b, step, steps)),
    ensures
        points@.len() == RESOLUTION,
        forall|i: int|
            0 <= i < RESOLUTION ==> {
                let s = segment_of(i, corners@.len() as int);
                call_ensures(
                    *between,
                    (&corners@[s.from as int], &corners@[s.to as int], s.step, s.steps),
                    #[trigger] points@[i],
                )
            },
{
    let mut points: Vec<P> = Vec::new();
    let count: usize = corners.len();
    let mut i: usize = 0;
    while i < RESOLUTION
        invariant
            i <= RESOLUTION,
            points@.len() == i,
            count == corners@.len(),
            0 < count <= RESOLUTION,
            forall|a: &P, b: &P, step: usize, steps: usize|
                step < steps ==> call_requires(*between, (a, b, step, steps)),
            forall|k: int|
                0 <= k < i ==> {
                    let s = segment_of(k, count as int);
                    call_ensures(
                        *between,
                        (&corners@[s.from as int], &corners@[s.to as int], s.step, s.steps),
                        #[trigger] points@[k],
                    )
                },
        decreases RESOLUTION - i,
    {
        let s = segment_at(i, count);
        let point = between(&corners[s.from], &corners[s.to], s.step, s.steps);
        points.push(point);
        i += 1;
    }
    points
}

/// The values that `outcomes` holds, in order, without the gaps.
pub open spec fn defined<P>(outcomes: Seq<Option<P>>) -> Seq<P>
    decreases outcomes.len(),
{
    if outcomes.len() == 0 {
        Seq::empty()
    } else {
        match outcomes.last() {
            Some(p) => defined(outcomes.drop_last()).push(p),
            None => defined(outcomes.drop_last()),
        }
    }
}

/// Keeps the samples that were produced and skips the others: a sample whose
/// evaluation failed leaves no point.
pub fn keep_defined<P>(outcomes: Vec<Option<P>>) -> (points: Vec<P>)
    ensures
        points@ == defined(outcomes@),
{
    let mut points: Vec<P> = Vec::new();
    let ghost all = outcomes@;
    for outcome in it: outcomes.into_iter()
        invariant
            it.seq() == all,
            points@ == defined(all.take(it.index() as int)),
    {
        let ghost k = it.index() as int;
        proof {
            assert(all.take(k + 1).drop_last() =~= all.take(k));
            assert(all.take(k + 1).last() == outcome);
        }
        match outcome {
            Some(p) => {
                points.push(p);
            },
            None => {},
        }
    }
    proof {
        assert(all.take(all.len() as int) =~= all);
    }
    points
}

} // verus!
