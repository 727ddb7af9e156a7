//! The shape record and its per-frame reveal and morph animation.

use crate::{ExternalId, RESOLUTION};
use vstd::prelude::*;

verus! {

/// Nanoseconds in a millisecond: reveal delays are given in milliseconds,
/// instants in nanoseconds.
pub const NANOS_PER_MILLI: u128 = 1_000_000;

/// The points of a shape: at rest, or on their way to the points of another.
#[derive(Clone, Debug, PartialEq)]
pub enum Geometry<P> {
    Fixed { points: Vec<P> },
    Moving { current: Vec<P>, target: Vec<P> },
}

/// The unit of visible content.
#[derive(Clone, Debug, PartialEq)]
pub struct Shape<P> {
    /// The identifier handed to the script that created the shape.
    pub external_id: ExternalId,
    /// The instant of creation, in nanoseconds since the epoch of the process.
    pub created_at: u128,
    /// The delay, in milliseconds since creation, after which the shape is
    /// revealed. A shape without one is never revealed.
    pub draw_after: Option<u64>,
    /// The number of leading points that are revealed, or the number of
    /// frames that a morph has run.
    pub draw_progress: usize,
    /// The accumulated translation.
    pub center: P,
    pub geometry: Geometry<P>,
}

/// `after` is `before` with `shift` applied to each point and `by`.
pub open spec fn shifted<P, F: Fn(&P, &P) -> P>(before: Seq<P>, by: P, shift: F, after: Seq<P>) -> bool {
    &&& after.len() == before.len()
    &&& forall|i: int|
        0 <= i < before.len() ==> call_ensures(shift, (&before[i], &by), #[trigger] after[i])
}

/// `after` is `before` with `blend` applied to each point and the point of
/// `target` at the same index; points beyond the end of `target` stay.
pub open spec fn blended<P, F: Fn(&P, &P) -> P>(
    before: Seq<P>,
    target: Seq<P>,
    blend: F,
    after: Seq<P>,
) -> bool {
    &&& after.len() == before.len()
    &&& forall|i: int|
        0 <= i < before.len() ==> if i < target.len() {
            call_ensures(blend, (&before[i], &target[i]), #[trigger] after[i])
        } else {
            after[i] == before[i]
        }
}

/// Applies `shift` to each point of `points` and `by`.
pub fn shift_points<P, F: Fn(&P, &P) -> P>(points: Vec<P>, by: &P, shift: &F) -> (r: Vec<P>)
    requires
        forall|a: &P, b: &P| call_requires(*shift, (a, b)),
    ensures
        shifted(points@, *by, *shift, r@),
{
    let mut points = points;
    let ghost before = points@;
    let n: usize = points.len();
    let mut i: usize = 0;
    while i < n
        invariant
            i <= n,
            n == before.len(),
            points@.len() == n,
            forall|a: &P, b: &P| call_requires(*shift, (a, b)),
            forall|k: int| 0 <= k < i ==> call_ensures(*shift, (&before[k], by), #[trigger] points@[k]),
            forall|k: int| i <= k < n ==> points@[k] == before[k],
        decreases n - i,
    {
        let moved = shift(&points[i], by);
        points.set(i, moved);
        i += 1;
    }
    points
}

/// Applies `blend` to each point of `current` and the point of `target` at
/// the same index, as far as `target` reaches.
pub fn blend_points<P, F: Fn(&P, &P) -> P>(current: Vec<P>, target: &Vec<P>, blend: &F) -> (r: Vec<P>)
    requires
        forall|a: &P, b: &P| call_requires(*blend, (a, b)),
    ensures
        blended(current@, target@, *blend, r@),
{
    let mut current = current;
    let ghost before = current@;
    let n: usize = if current.len() < target.len() {
        current.len()
    } else {
        target.len()
    };
    let mut i: usize = 0;
    while i < n
        invariant
            i <= n,
            n <= before.len(),
            n <= target@.len(),
            n == before.len() || n == target@.len(),
            current@.len() == before.len(),
            forall|a: &P, b: &P| call_requires(*blend, (a, b)),
            forall|k: int|
                0 <= k < i ==> call_ensures(*blend, (&before[k], &target@[k]), #[trigger] current@[k]),
            forall|k: int| i <= k < before.len() ==> current@[k] == before[k],
        decreases n - i,
    {
        let moved = blend(&current[i], &target[i]);
        current.set(i, moved);
        i += 1;
    }
    current
}

impl<P> Geometry<P> {
    /// The points that the shape currently shows.
    pub open spec fn origin(self) -> Seq<P> {
        match self {
            Geometry::Fixed { points } => points@,
            Geometry::Moving { current, .. } => current@,
        }
    }

    /// The points that the shape currently shows.
    pub fn origin_points(&self) -> (r: &Vec<P>)
        ensures
            r@ == self.origin(),
    {
        match self {
            Geometry::Fixed { points } => points,
            Geometry::Moving { current, .. } => current,
        }
    }

    /// Gives up the geometry for the points that it currently shows.
    pub fn into_origin_points(self) -> (r: Vec<P>)
        ensures
            r@ == self.origin(),
    {
        match self {
            Geometry::Fixed { points } => points,
            Geometry::Moving { current, .. } => current,
        }
    }
}

/// `post` is `pre` translated by `offset`: the offset is added to the center,
/// and the new center to every point of the geometry.
pub open spec fn translated<P, F: Fn(&P, &P) -> P>(
    pre: Shape<P>,
    offset: P,
    shift: F,
    post: Shape<P>,
) -> bool {
    &&& post.external_id == pre.external_id
    &&& post.created_at == pre.created_at
    &&& post.draw_after == pre.draw_after
    &&& post.draw_progress == pre.draw_progress
    &&& call_ensures(shift, (&pre.center, &offset), post.center)
    &&& match pre.geometry {
        Geometry::Fixed { points } => post.geometry is Fixed && shifted(
            points@,
            post.center,
            shift,
            post.geometry->points@,
        ),
        Geometry::Moving { current, target } => post.geometry is Moving && shifted(
            current@,
            post.center,
            shift,
            post.geometry->current@,
        ) && shifted(target@, post.center, shift, post.geometry->target@),
    }
}

/// `post` is `pre` after one frame at the instant `now`, and `visible` is the
/// number of leading points of `post` that the frame shows, if it shows any.
///
/// A shape at rest that is due is revealed by one more point, up to
/// `RESOLUTION`, and shows its revealed points. A shape at rest that is not
/// due stays as it is and shows nothing. A moving shape takes one blending
/// step towards its target and shows all its points; with its
/// `RESOLUTION`-th step it comes to rest on the points it has reached.
pub open spec fn advanced<P, F: Fn(&P, &P) -> P>(
    pre: Shape<P>,
    now: u128,
    blend: F,
    post: Shape<P>,
    visible: Option<usize>,
) -> bool {
    &&& post.external_id == pre.external_id
    &&& post.created_at == pre.created_at
    &&& post.draw_after == pre.draw_after
    &&& post.center == pre.center
    &&& match pre.geometry {
        Geometry::Fixed { points } => {
            &&& post.geometry == pre.geometry
            &&& if pre.due(now) {
                &&& post.draw_progress == pre.next_progress()
                &&& visible == Some(
                    if post.draw_progress <= points@.len() {
                        post.draw_progress
                    } else {
                        points@.len() as usize
                    },
                )
            } else {
                &&& post.draw_progress == pre.draw_progress
                &&& visible is None
            }
        },
        Geometry::Moving { current, target } => {
            &&& post.draw_progress == pre.next_progress()
            &&& visible == Some(current@.len() as usize)
            &&& blended(current@, target@, blend, post.geometry.origin())
            &&& if post.draw_progress >= RESOLUTION {
                post.geometry is Fixed
            } else {
                post.geometry is Moving && post.geometry->target == target
            }
        },
    }
}

/// `run` is one shape over consecutive frames: frame `k` runs at the instant
/// `times[k]`, takes `run[k]` to `run[k + 1]` and shows `shown[k]`.
pub open spec fn frames<P, F: Fn(&P, &P) -> P>(
    run: Seq<Shape<P>>,
    times: Seq<u128>,
    blend: F,
    shown: Seq<Option<usize>>,
) -> bool {
    &&& run.len() == times.len() + 1
    &&& shown.len() == times.len()
    &&& forall|k: int|
        0 <= k < times.len() ==> advanced(run[k], times[k], blend, run[k + 1], #[trigger] shown[k])
}

/// The smaller of two numbers.
pub open spec fn at_most(a: int, b: int) -> int {
    if a <= b {
        a
    } else {
        b
    }
}

/// A frame keeps the progress of a shape within `RESOLUTION`, and a shape
/// that still moves after it below `RESOLUTION`.
pub proof fn lemma_frame_preserves_wf<P, F: Fn(&P, &P) -> P>(
    pre: Shape<P>,
    now: u128,
    blend: F,
    post: Shape<P>,
    visible: Option<usize>,
)
    requires
        pre.wf(),
        advanced(pre, now, blend, post, visible),
    ensures
        post.wf(),
{
}

/// A frame leaves a shape at rest at rest on the same points, and never
/// takes back what is revealed of it.
pub proof fn lemma_frame_keeps_rest<P, F: Fn(&P, &P) -> P>(
    pre: Shape<P>,
    now: u128,
    blend: F,
    post: Shape<P>,
    visible: Option<usize>,
)
    requires
        pre.geometry is Fixed,
        advanced(pre, now, blend, post, visible),
    ensures
        post.geometry == pre.geometry,
        post.draw_progress >= pre.draw_progress,
        post.draw_progress <= pre.draw_progress + 1,
{
}

/// A shape without reveal delay is due at every instant.
pub proof fn lemma_due_without_delay<P>(shape: Shape<P>, now: u128)
    requires
        shape.draw_after == Some(0u64),
    ensures
        shape.due(now),
{
}

/// A shape at rest that is due in every frame is revealed by one point per
/// frame until `RESOLUTION` points are revealed, and no further; its points
/// stay as they are, and every frame shows the revealed ones.
pub proof fn lemma_reveal<P, F: Fn(&P, &P) -> P>(
    run: Seq<Shape<P>>,
    times: Seq<u128>,
    blend: F,
    shown: Seq<Option<usize>>,
    k: int,
)
    requires
        frames(run, times, blend, shown),
        run[0].geometry is Fixed,
        run[0].draw_progress <= RESOLUTION,
        forall|j: int| 0 <= j < times.len() ==> run[0].due(#[trigger] times[j]),
        0 <= k <= times.len(),
    ensures
        run[k].geometry == run[0].geometry,
        run[k].created_at == run[0].created_at,
        run[k].draw_after == run[0].draw_after,
        run[k].draw_progress == at_most(run[0].draw_progress + k, RESOLUTION as int),
        k >= 1 ==> shown[k - 1] == Some(
            at_most(run[k].draw_progress as int, run[0].geometry.origin().len() as int) as usize,
        ),
    decreases k,
{
    if k > 0 {
        lemma_reveal(run, times, blend, shown, k - 1);
        assert(advanced(run[k - 1], times[k - 1], blend, run[k - 1 + 1], shown[k - 1]));
        assert(run[0].due(times[k - 1]));
        assert(run[k - 1].due(times[k - 1]));
    }
}

/// A shape that starts to move comes to rest with its `RESOLUTION`-th frame
/// and not before. Until then every frame blends its points once more
/// towards the same target and shows all of them.
pub proof fn lemma_morph<P, F: Fn(&P, &P) -> P>(
    run: Seq<Shape<P>>,
    times: Seq<u128>,
    blend: F,
    shown: Seq<Option<usize>>,
    k: int,
)
    requires
        frames(run, times, blend, shown),
        run[0].geometry is Moving,
        run[0].draw_progress == 0,
        0 <= k <= times.len(),
        k <= RESOLUTION,
    ensures
        run[k].draw_progress == k,
        run[k].geometry.origin().len() == run[0].geometry.origin().len(),
        k < RESOLUTION ==> run[k].geometry is Moving && run[k].geometry->target
            == run[0].geometry->target,
        k == RESOLUTION ==> run[k].geometry is Fixed,
        k >= 1 ==> blended(
            run[k - 1].geometry.origin(),
            run[0].geometry->target@,
            blend,
            run[k].geometry.origin(),
        ) && shown[k - 1] == Some(run[0].geometry.origin().len() as usize),
    decreases k,
{
    if k > 0 {
        lemma_morph(run, times, blend, shown, k - 1);
        assert(advanced(run[k - 1], times[k - 1], blend, run[k - 1 + 1], shown[k - 1]));
    }
}

impl<P> Shape<P> {
    /// The progress stays within `RESOLUTION`, and a moving shape has not
    /// reached it yet.
    pub open spec fn wf(self) -> bool {
        &&& self.draw_progress <= RESOLUTION
        &&& self.geometry is Moving ==> self.draw_progress < RESOLUTION
    }

    /// The time since creation, in nanoseconds; zero for an instant before it.
    pub open spec fn elapsed(self, now: u128) -> int {
        if now >= self.created_at {
            now - self.created_at
        } else {
            0
        }
    }

    /// Whether the reveal delay is set and has passed at `now`.
    pub open spec fn due(self, now: u128) -> bool {
        match self.draw_after {
            Some(millis) => self.elapsed(now) >= millis * NANOS_PER_MILLI,
            None => false,
        }
    }

    /// The progress after one more frame.
    pub open spec fn next_progress(self) -> usize {
        if self.draw_progress < RESOLUTION {
            (self.draw_progress + 1) as usize
        } else {
            self.draw_progress
        }
    }

    /// A shape at rest on `points`, created at `created_at`, which also
    /// becomes its identifier. It has no reveal delay and no progress yet, and
    /// `origin` is its center.
    pub fn new(points: Vec<P>, created_at: u128, origin: P) -> (s: Self)
        ensures
            s.wf(),
            s == (Shape {
                external_id: created_at,
                created_at,
                draw_after: None,
                draw_progress: 0,
                center: origin,
                geometry: Geometry::Fixed { points },
            }),
    {
        Shape {
            external_id: created_at,
            created_at,
            draw_after: None,
            draw_progress: 0,
            center: origin,
            geometry: Geometry::Fixed { points },
        }
    }

    /// Whether the reveal delay is set and has passed at `now`.
    pub fn is_due(&self, now: u128) -> (b: bool)
        ensures
            b == self.due(now),
    {
        match self.draw_after {
            Some(millis) => {
                let elapsed: u128 = if now >= self.created_at {
                    now - self.created_at
                } else {
                    0
                };
                let millis_wide: u128 = millis as u128;
                assert(millis_wide * NANOS_PER_MILLI <= 0xffff_ffff_ffff_ffff * 1_000_000)
                    by (nonlinear_arith)
                    requires
                        millis_wide <= 0xffff_ffff_ffff_ffff,
                        NANOS_PER_MILLI == 1_000_000,
                ;
                elapsed >= millis_wide * NANOS_PER_MILLI
            },
            None => false,
        }
    }

    /// Sets the reveal delay, in milliseconds since creation.
    pub fn set_draw_after(&mut self, millis: u64)
        ensures
            *final(self) == (Shape { draw_after: Some(millis), ..*old(self) }),
            old(self).wf() ==> final(self).wf(),
    {
        self.draw_after = Some(millis);
    }

    /// Adds `offset` to the center, and the new center to every point of the
    /// geometry.
    pub fn translate<F: Fn(&P, &P) -> P>(&mut self, offset: &P, shift: &F)
        requires
            forall|a: &P, b: &P| call_requires(*shift, (a, b)),
        ensures
            translated(*old(self), *offset, *shift, *final(self)),
            old(self).wf() ==> final(self).wf(),
    {
        let center = shift(&self.center, offset);
        let mut geometry = Geometry::Fixed { points: Vec::new() };
        core::mem::swap(&mut self.geometry, &mut geometry);
        let moved = match geometry {
            Geometry::Fixed { points } => Geometry::Fixed {
                points: shift_points(points, &center, shift),
            },
            Geometry::Moving { current, target } => Geometry::Moving {
                current: shift_points(current, &center, shift),
                target: shift_points(target, &center, shift),
            },
        };
        self.geometry = moved;
        self.center = center;
    }

    /// Starts a morph from the points that the shape shows towards `target`,
    /// with the progress back at zero.
    pub fn morph_into(&mut self, target: Vec<P>)
        ensures
            *final(self) == (Shape {
                draw_progress: 0,
                geometry: Geometry::Moving { current: final(self).geometry->current, target },
                ..*old(self)
            }),
            final(self).geometry is Moving,
            final(self).geometry->current@ == old(self).geometry.origin(),
            final(self).wf(),
    {
        let mut geometry = Geometry::Fixed { points: Vec::new() };
        core::mem::swap(&mut self.geometry, &mut geometry);
        self.geometry = Geometry::Moving { current: geometry.into_origin_points(), target };
        self.draw_progress = 0;
    }

    /// Runs one frame at the instant `now`. Returns how many leading points
    /// the frame shows, or `None` where it shows nothing of the shape.
    pub fn advance<F: Fn(&P, &P) -> P>(&mut self, now: u128, blend: &F) -> (visible: Option<usize>)
        requires
            forall|a: &P, b: &P| call_requires(*blend, (a, b)),
        ensures
            advanced(*old(self), now, *blend, *final(self), visible),
            old(self).wf() ==> final(self).wf(),
    {
        let due = self.is_due(now);
        let mut geometry = Geometry::Fixed { points: Vec::new() };
        core::mem::swap(&mut self.geometry, &mut geometry);
        match geometry {
            Geometry::Fixed { points } => {
                let mut visible: Option<usize> = None;
                if due {
                    if self.draw_progress < RESOLUTION {
                        self.draw_progress += 1;
                    }
                    visible = Some(
                        if self.draw_progress <= points.len() {
                            self.draw_progress
                        } else {
                            points.len()
                        },
                    );
                }
                self.geometry = Geometry::Fixed { points };
                visible
            },
            Geometry::Moving { current, target } => {
                let current = blend_points(current, &target, blend);
                let shown: usize = current.len();
                if self.draw_progress < RESOLUTION {
                    self.draw_progress += 1;
                }
                if self.draw_progress >= RESOLUTION {
                    self.geometry = Geometry::Fixed { points: current };
                } else {
                    self.geometry = Geometry::Moving { current, target };
                }
                Some(shown)
            },
        }
    }
}

} // verus!
