//! Sequencing of the chord points of a circular arc.
//!
//! An arc is cut into a number of segments. All chord points but the last
//! are found by rotating the radius vector; most rotations use a cheap
//! small-angle approximation, and at regular intervals the vector is
//! recomputed exactly so that the approximation error cannot build up. The
//! last point is the target itself. [`ArcProgress`] decides, point by point,
//! which of the three applies; the rotation arithmetic is left to the caller.

use vstd::prelude::*;

verus! {

/// Number of approximate rotations between two exact recomputations.
pub const ARC_DEFAULT_N_CORRECTION: i32 = 12;

/// How one chord point of an arc is obtained.
#[derive(Clone, Copy, Debug, PartialEq, Eq, Structural)]
pub enum ArcStep {
    /// Rotate the radius vector of the previous point by the small-angle
    /// approximation of the segment angle.
    Rotate,
    /// Rotate the radius vector of the start point exactly, by the given
    /// number of segment angles.
    Correct(u32),
    /// The point is the target of the arc.
    Target,
}

/// The number of chord points of an arc of `segments` segments. An arc too
/// short to be cut still yields its target.
pub open spec fn arc_point_count(segments: int) -> int {
    if segments <= 0 {
        1
    } else {
        segments
    }
}

/// How the `k`-th chord point, counted from 1, of an arc of `segments`
/// segments is obtained; `None` past the last point.
pub open spec fn arc_step_at(segments: int, k: int) -> Option<ArcStep> {
    if k < 1 || k > arc_point_count(segments) {
        None
    } else if k == arc_point_count(segments) {
        Some(ArcStep::Target)
    } else if k % (ARC_DEFAULT_N_CORRECTION + 1) == 0 {
        Some(ArcStep::Correct(k as u32))
    } else {
        Some(ArcStep::Rotate)
    }
}

/// All steps of an arc of `segments` segments, in order.
pub open spec fn arc_steps(segments: int) -> Seq<ArcStep> {
    Seq::new(arc_point_count(segments) as nat, |j: int| arc_step_at(segments, j + 1).unwrap())
}

/// An arc of at least one segment yields exactly as many points as it has
/// segments, one too short to be cut yields one; the last point is the
/// target and no point before it is.
pub proof fn lemma_arc_steps(segments: int)
    requires
        0 <= segments,
    ensures
        segments >= 1 ==> arc_steps(segments).len() == segments,
        segments == 0 ==> arc_steps(segments).len() == 1,
        arc_steps(segments).last() == ArcStep::Target,
        forall|j: int|
            0 <= j < arc_steps(segments).len() - 1 ==> #[trigger] arc_steps(segments)[j]
                != ArcStep::Target,
        forall|k: int|
            (#[trigger] arc_step_at(segments, k)) is Some <==> 1 <= k <= arc_steps(segments).len(),
{
}

/// Progress through the chord points of one arc.
#[derive(Clone, Copy, Debug)]
pub struct ArcProgress {
    /// Number of segments of the arc.
    segments: u32,
    /// Index of the next chord point, counted from 1.
    cnt_segments: u32,
    /// The target has been handed out.
    completed: bool,
    /// Approximate rotations since the last exact one.
    count: i32,
}

impl ArcProgress {
    #[verifier::type_invariant]
    spec fn inv(self) -> bool {
        &&& 1 <= self.cnt_segments <= arc_point_count(self.segments as int)
        &&& self.count == (self.cnt_segments - 1) % (ARC_DEFAULT_N_CORRECTION + 1)
    }

    /// Number of segments of the arc.
    pub closed spec fn segments(self) -> int {
        self.segments as int
    }

    /// Number of chord points handed out so far.
    pub closed spec fn emitted(self) -> int {
        if self.completed {
            arc_point_count(self.segments as int)
        } else {
            self.cnt_segments - 1
        }
    }

    /// Starts an arc of `segments` segments.
    pub fn new(segments: u32) -> (r: Self)
        ensures
            r.segments() == segments,
            r.emitted() == 0,
    {
        ArcProgress { segments, cnt_segments: 1, completed: false, count: 0 }
    }

    /// Says how the next chord point is obtained, or `None` once the target
    /// has been handed out.
    pub fn next(&mut self) -> (r: Option<ArcStep>)
        ensures
            final(self).segments() == old(self).segments(),
            0 <= old(self).emitted() <= arc_point_count(old(self).segments()),
            r == arc_step_at(old(self).segments(), old(self).emitted() + 1),
            r is Some ==> final(self).emitted() == old(self).emitted() + 1,
            r is None ==> *final(self) == *old(self),
    {
        proof {
            use_type_invariant(&*self);
        }
        if self.completed {
            return None;
        } else if self.segments == 0 {
            *self = ArcProgress { completed: true, ..*self };
            return Some(ArcStep::Target);
        }
        if self.cnt_segments >= self.segments {
            *self = ArcProgress { completed: true, ..*self };
            return Some(ArcStep::Target);
        }
        let step: ArcStep;
        let count: i32;
        if self.count < ARC_DEFAULT_N_CORRECTION {
            step = ArcStep::Rotate;
            count = self.count + 1;
        } else {
            step = ArcStep::Correct(self.cnt_segments);
            count = 0;
        }
        *self = ArcProgress { cnt_segments: self.cnt_segments + 1, count, ..*self };
        Some(step)
    }
}

} // verus!
