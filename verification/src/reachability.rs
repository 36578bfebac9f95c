//! Why a recalculated plan can be driven.
//!
//! The planner does not know what a speed is: the two passes
//! of a recalculation leave the arithmetic to the functions they are given.
//! This module says what those functions have to do for the plan to come out
//! right, and proves that it then does: every block is entered no faster
//! than it allows, no faster than the block before it can speed up to, and
//! no faster than it can slow down from to the entry speed of the block
//! behind it.
//!
//! Speeds are read as integers. Any arithmetic whose values are totally
//! ordered fits, since an order can be read off integers that stand for the
//! values.

use crate::lookahead::{forward_pass, planned_after, recalculated, reverse_pass, two_passes};
use vstd::prelude::*;

verus! {

/// How the planner arithmetic reads a block.
#[verifier::reject_recursive_types(B)]
pub struct SpeedModel<B> {
    /// The entry speed of a block, squared.
    pub entry: spec_fn(B) -> int,
    /// The largest entry speed, squared, that a block allows.
    pub cap: spec_fn(B) -> int,
    /// What decides how much the speed can change along a block: its length
    /// and its acceleration.
    pub gain: spec_fn(B) -> int,
    /// The speed, squared, that is reached from the speed in the first
    /// argument along a block with the gain in the second, and likewise the
    /// speed from which the first can be reached by slowing down.
    pub step: spec_fn(int, int) -> int,
}

/// The smaller of two integers.
pub open spec fn min_int(a: int, b: int) -> int {
    if a <= b {
        a
    } else {
        b
    }
}

impl<B> SpeedModel<B> {
    /// The speed reached along a block is not below the speed it starts
    /// from, and a higher start does not lead to a lower end.
    pub open spec fn lawful(self) -> bool {
        &&& forall|v: int, g: int| v <= #[trigger] (self.step)(v, g)
        &&& forall|v: int, w: int, g: int|
            v <= w ==> #[trigger] (self.step)(v, g) <= #[trigger] (self.step)(w, g)
    }

    /// The speed reached from `v` along `block`.
    pub open spec fn reach(self, v: int, block: B) -> int {
        (self.step)(v, (self.gain)(block))
    }

    /// Two blocks allow the same entry speed and the same change of speed.
    pub open spec fn same_limits(self, a: B, b: B) -> bool {
        (self.cap)(a) == (self.cap)(b) && (self.gain)(a) == (self.gain)(b)
    }

    /// The entry speed that the reverse pass gives a block: a block behind
    /// which the queue ends has to come to rest; a block that is entered at
    /// the largest speed it allows is left alone; any other is entered at
    /// the largest speed it allows or at the speed from which it can slow
    /// down to the entry speed of the block behind it, whichever is less.
    pub open spec fn slowed_entry(self, cur: B, next: Option<&B>) -> int {
        match next {
            None => min_int((self.cap)(cur), self.reach(0, cur)),
            Some(n) => if (self.entry)(cur) != (self.cap)(cur) {
                min_int((self.cap)(cur), self.reach((self.entry)(*n), cur))
            } else {
                (self.entry)(cur)
            },
        }
    }

    /// The entry speed that the forward pass gives the second block of a
    /// pair: the speed that the first block can speed up to, where that is
    /// less than the entry speed the block has.
    pub open spec fn sped_entry(self, cur: B, next: B) -> int {
        if (self.entry)(cur) < (self.entry)(next) && self.reach((self.entry)(cur), cur) < (
        self.entry)(next) {
            self.reach((self.entry)(cur), cur)
        } else {
            (self.entry)(next)
        }
    }

    /// `slow_down` does what the reverse pass needs: it changes nothing but
    /// the entry speed, and sets that as `slowed_entry` says.
    pub open spec fn slows_down<R: Fn(&B, Option<&B>) -> B>(self, slow_down: R) -> bool {
        forall|cur: &B, next: Option<&B>, r: B| #[trigger]
            call_ensures(slow_down, (cur, next), r) ==> {
                &&& self.same_limits(r, *cur)
                &&& (self.entry)(r) == self.slowed_entry(*cur, next)
            }
    }

    /// `speed_up` does what the forward pass needs: it changes nothing but
    /// the entry speed of the second block, and sets that as `sped_entry`
    /// says.
    pub open spec fn speeds_up<F: Fn(&B, &B) -> (B, bool)>(self, speed_up: F) -> bool {
        forall|cur: &B, next: &B, r: (B, bool)| #[trigger]
            call_ensures(speed_up, (cur, next), r) ==> {
                &&& self.same_limits(r.0, *next)
                &&& (self.entry)(r.0) == self.sped_entry(*cur, *next)
            }
    }

    /// No block is entered faster than it allows, and none backwards.
    pub open spec fn within_caps(self, blocks: Seq<B>) -> bool {
        forall|i: int|
            0 <= i < blocks.len() ==> 0 <= #[trigger] (self.entry)(blocks[i]) <= (self.cap)(
                blocks[i],
            )
    }

    /// No block is entered faster than the block before it can speed up to.
    pub open spec fn reachable_forward(self, blocks: Seq<B>) -> bool {
        forall|i: int|
            0 <= i < blocks.len() - 1 ==> (self.entry)(#[trigger] blocks[i + 1]) <= self.reach(
                (self.entry)(blocks[i]),
                blocks[i],
            )
    }

    /// No block is entered faster than it can slow down from to the entry
    /// speed of the block behind it, and the last block can come to rest.
    pub open spec fn reachable_reverse(self, blocks: Seq<B>) -> bool {
        &&& forall|i: int|
            0 <= i < blocks.len() - 1 ==> (self.entry)(#[trigger] blocks[i]) <= self.reach(
                (self.entry)(blocks[i + 1]),
                blocks[i],
            )
        &&& blocks.len() > 0 ==> (self.entry)(blocks.last()) <= self.reach(0, blocks.last())
    }

    /// The plan can be driven.
    pub open spec fn drivable(self, blocks: Seq<B>) -> bool {
        &&& self.within_caps(blocks)
        &&& self.reachable_forward(blocks)
        &&& self.reachable_reverse(blocks)
    }

    /// An empty plan can be driven.
    pub proof fn lemma_empty_drivable(self)
        ensures
            self.drivable(Seq::<B>::empty()),
    {
    }

    /// A plan that can be driven can still be driven when a block that is
    /// entered from rest is appended to it.
    pub proof fn lemma_push_drivable(self, blocks: Seq<B>, block: B)
        requires
            self.lawful(),
            self.drivable(blocks),
            (self.entry)(block) == 0,
            0 <= (self.cap)(block),
        ensures
            self.drivable(blocks.push(block)),
    {
        let longer = blocks.push(block);
        assert forall|i: int| 0 <= i < longer.len() - 1 implies (self.entry)(
            #[trigger] longer[i + 1],
        ) <= self.reach((self.entry)(longer[i]), longer[i]) by {
            if i + 1 < blocks.len() {
                assert(longer[i + 1] == blocks[i + 1]);
            }
        }
        assert forall|i: int| 0 <= i < longer.len() - 1 implies (self.entry)(#[trigger] longer[i])
            <= self.reach((self.entry)(longer[i + 1]), longer[i]) by {
            if i + 1 < blocks.len() {
                assert(longer[i] == blocks[i]);
            } else {
                assert(longer[i] == blocks.last());
            }
        }
    }

    /// A plan that can be driven can still be driven when its first block is
    /// discarded.
    pub proof fn lemma_discard_drivable(self, blocks: Seq<B>)
        requires
            self.drivable(blocks),
            blocks.len() > 0,
        ensures
            self.drivable(blocks.skip(1)),
    {
        let rest = blocks.skip(1);
        assert forall|i: int| 0 <= i < rest.len() implies 0 <= #[trigger] (self.entry)(rest[i])
            <= (self.cap)(rest[i]) by {
            assert(rest[i] == blocks[i + 1]);
        }
        assert forall|i: int| 0 <= i < rest.len() - 1 implies (self.entry)(#[trigger] rest[i + 1])
            <= self.reach((self.entry)(rest[i]), rest[i]) by {
            assert(rest[i + 1] == blocks[i + 1 + 1]);
            assert(rest[i] == blocks[i + 1]);
        }
        assert forall|i: int| 0 <= i < rest.len() - 1 implies (self.entry)(#[trigger] rest[i])
            <= self.reach((self.entry)(rest[i + 1]), rest[i]) by {
            assert(rest[i + 1] == blocks[i + 1 + 1]);
            assert(rest[i] == blocks[i + 1]);
        }
        if rest.len() > 0 {
            assert(rest.last() == blocks.last());
        }
    }

    /// A plan that can be driven can still be driven when a motion that
    /// takes part in the look-ahead is queued: its block is appended at
    /// rest and the plan is recalculated.
    pub proof fn lemma_normal_motion_drivable<R: Fn(&B, Option<&B>) -> B, F: Fn(&B, &B) -> (
        B,
        bool,
    )>(
        self,
        slow_down: R,
        speed_up: F,
        before: Seq<B>,
        planned_before: Option<usize>,
        block: B,
        after: Seq<B>,
        planned_now: Option<usize>,
    )
        requires
            self.lawful(),
            self.slows_down(slow_down),
            self.speeds_up(speed_up),
            self.drivable(before),
            (self.entry)(block) == 0,
            0 <= (self.cap)(block),
            planned_before matches Some(p) ==> p < before.len(),
            recalculated(
                slow_down,
                speed_up,
                before.push(block),
                planned_before,
                after,
                planned_now,
            ),
        ensures
            self.drivable(after),
    {
        self.lemma_push_drivable(before, block);
        self.lemma_recalculated_drivable(
            slow_down,
            speed_up,
            before.push(block),
            planned_before,
            after,
            planned_now,
        );
    }

    /// What the reverse pass achieves from block `j` on: no entry speed has
    /// been lowered, every block is entered within its limit and no faster
    /// than it can slow down from.
    proof fn lemma_reverse_from<R: Fn(&B, Option<&B>) -> B>(
        self,
        slow_down: R,
        before: Seq<B>,
        mid: Seq<B>,
        planned: int,
        j: int,
    )
        requires
            self.lawful(),
            self.slows_down(slow_down),
            self.drivable(before),
            0 <= planned < j <= before.len() - 1,
            reverse_pass(slow_down, before, mid, planned, before.len() - 1),
        ensures
            forall|i: int|
                j <= i < before.len() ==> {
                    &&& self.same_limits(#[trigger] mid[i], before[i])
                    &&& (self.entry)(before[i]) <= (self.entry)(mid[i]) <= (self.cap)(mid[i])
                },
            forall|i: int|
                j <= i < before.len() - 1 ==> (self.entry)(#[trigger] mid[i]) <= self.reach(
                    (self.entry)(mid[i + 1]),
                    mid[i],
                ),
            (self.entry)(mid.last()) <= self.reach(0, mid.last()),
        decreases before.len() - j,
    {
        let last = before.len() - 1;
        assert(call_ensures(slow_down, (&before[last], None::<&B>), mid[last]));
        assert(before.last() == before[last]);
        assert(mid.last() == mid[last]);
        assert(0 <= (self.entry)(before[last]) <= (self.cap)(before[last]));
        if j < last {
            self.lemma_reverse_from(slow_down, before, mid, planned, j + 1);
            assert(call_ensures(slow_down, (&before[j], Some(&mid[j + 1])), mid[j]));
            assert(0 <= (self.entry)(before[j]) <= (self.cap)(before[j]));
            assert((self.entry)(before[j]) <= self.reach((self.entry)(before[j + 1]), before[j]));
            assert((self.entry)(before[j + 1]) <= (self.entry)(mid[j + 1]));
        }
    }

    /// What the forward pass achieves up to block `j`: no entry speed has
    /// been raised, and every block is entered within its limit and no
    /// faster than the block before it can speed up to.
    proof fn lemma_forward_to<F: Fn(&B, &B) -> (B, bool)>(
        self,
        speed_up: F,
        mid: Seq<B>,
        after: Seq<B>,
        advances: Seq<bool>,
        planned: int,
        j: int,
    )
        requires
            self.lawful(),
            self.speeds_up(speed_up),
            self.within_caps(mid),
            0 <= planned <= j <= mid.len() - 1,
            forward_pass(speed_up, mid, after, advances, planned, mid.len() - 1),
        ensures
            forall|i: int|
                planned <= i <= j ==> {
                    &&& self.same_limits(#[trigger] after[i], mid[i])
                    &&& 0 <= (self.entry)(after[i]) <= (self.entry)(mid[i])
                },
            forall|i: int|
                planned <= i < j ==> {
                    &&& (self.entry)(#[trigger] after[i + 1]) <= self.reach(
                        (self.entry)(after[i]),
                        after[i],
                    )
                    &&& (self.entry)(after[i + 1]) == (self.entry)(mid[i + 1]) || (self.entry)(
                        after[i],
                    ) <= (self.entry)(after[i + 1])
                },
        decreases j - planned,
    {
        assert(after[planned] == mid[planned]);
        assert(0 <= (self.entry)(mid[planned]) <= (self.cap)(mid[planned]));
        if planned < j {
            self.lemma_forward_to(speed_up, mid, after, advances, planned, j - 1);
            assert(call_ensures(
                speed_up,
                (&after[j - 1], &mid[j - 1 + 1]),
                (after[j - 1 + 1], advances[j - 1 - planned]),
            ));
            assert(0 <= (self.entry)(mid[j]) <= (self.cap)(mid[j]));
        }
    }

    /// A plan that can be driven can still be driven after a
    /// recalculation, whatever the arithmetic, as long as it is lawful and
    /// the two functions handed to the recalculation follow it.
    pub proof fn lemma_recalculated_drivable<R: Fn(&B, Option<&B>) -> B, F: Fn(&B, &B) -> (
        B,
        bool,
    )>(
        self,
        slow_down: R,
        speed_up: F,
        before: Seq<B>,
        planned_before: Option<usize>,
        after: Seq<B>,
        planned_now: Option<usize>,
    )
        requires
            self.lawful(),
            self.slows_down(slow_down),
            self.speeds_up(speed_up),
            self.drivable(before),
            planned_before matches Some(p) ==> p < before.len(),
            recalculated(slow_down, speed_up, before, planned_before, after, planned_now),
        ensures
            self.drivable(after),
    {
        if before.len() > 0 {
            let planned: usize = match planned_before {
                Some(p) => p,
                None => 0usize,
            };
            let last = before.len() - 1;
            if planned != last {
                let (mid, advances) = choose|mid: Seq<B>, advances: Seq<bool>|
                    #[trigger] two_passes(
                        slow_down,
                        speed_up,
                        before,
                        mid,
                        after,
                        advances,
                        planned,
                    ) && planned_now == Some(planned_after(planned, advances));
                self.lemma_two_passes_drivable(
                    slow_down,
                    speed_up,
                    before,
                    mid,
                    after,
                    advances,
                    planned as int,
                );
            }
        }
    }

    /// The reverse pass followed by the forward pass keeps a plan drivable.
    proof fn lemma_two_passes_drivable<R: Fn(&B, Option<&B>) -> B, F: Fn(&B, &B) -> (B, bool)>(
        self,
        slow_down: R,
        speed_up: F,
        before: Seq<B>,
        mid: Seq<B>,
        after: Seq<B>,
        advances: Seq<bool>,
        planned: int,
    )
        requires
            self.lawful(),
            self.slows_down(slow_down),
            self.speeds_up(speed_up),
            self.drivable(before),
            0 <= planned < before.len() - 1,
            reverse_pass(slow_down, before, mid, planned, before.len() - 1),
            forward_pass(speed_up, mid, after, advances, planned, before.len() - 1),
        ensures
            self.drivable(after),
    {
        self.lemma_reverse_pass_drivable(slow_down, before, mid, planned);
        self.lemma_forward_pass_drivable(speed_up, mid, after, advances, planned);
    }

    /// After the reverse pass every block is entered within its limit and
    /// no faster than it can slow down from, and the blocks up to the
    /// planned mark still follow each other as they did.
    proof fn lemma_reverse_pass_drivable<R: Fn(&B, Option<&B>) -> B>(
        self,
        slow_down: R,
        before: Seq<B>,
        mid: Seq<B>,
        planned: int,
    )
        requires
            self.lawful(),
            self.slows_down(slow_down),
            self.drivable(before),
            0 <= planned < before.len() - 1,
            reverse_pass(slow_down, before, mid, planned, before.len() - 1),
        ensures
            mid.len() == before.len(),
            self.within_caps(mid),
            self.reachable_reverse(mid),
            forall|i: int|
                0 <= i < planned ==> (self.entry)(#[trigger] mid[i + 1]) <= self.reach(
                    (self.entry)(mid[i]),
                    mid[i],
                ),
    {
        self.lemma_reverse_from(slow_down, before, mid, planned, planned + 1);
        assert forall|i: int| 0 <= i < mid.len() implies 0 <= #[trigger] (self.entry)(mid[i]) <= (
        self.cap)(mid[i]) by {
            assert(0 <= (self.entry)(before[i]) <= (self.cap)(before[i]));
            if i <= planned {
                assert(mid[i] == before[i]);
            } else {
                assert(self.same_limits(mid[i], before[i]));
            }
        }
        assert forall|i: int| 0 <= i < mid.len() - 1 implies (self.entry)(#[trigger] mid[i])
            <= self.reach((self.entry)(mid[i + 1]), mid[i]) by {
            if i <= planned {
                self.lemma_reverse_at_mark(before, mid, planned, i);
            }
        }
        assert forall|i: int| 0 <= i < planned implies (self.entry)(#[trigger] mid[i + 1])
            <= self.reach((self.entry)(mid[i]), mid[i]) by {
            assert(mid[i] == before[i]);
            assert(mid[i + 1] == before[i + 1]);
            assert((self.entry)(before[i + 1]) <= self.reach((self.entry)(before[i]), before[i]));
        }
    }

    /// A block up to the planned mark can still slow down in time after the
    /// reverse pass, as the block behind it is entered no slower than
    /// before.
    proof fn lemma_reverse_at_mark(self, before: Seq<B>, mid: Seq<B>, planned: int, i: int)
        requires
            self.lawful(),
            self.reachable_reverse(before),
            mid.len() == before.len(),
            0 <= i <= planned < before.len() - 1,
            forall|j: int| 0 <= j <= planned ==> mid[j] == before[j],
            (self.entry)(before[planned + 1]) <= (self.entry)(mid[planned + 1]),
        ensures
            (self.entry)(mid[i]) <= self.reach((self.entry)(mid[i + 1]), mid[i]),
    {
        assert(mid[i] == before[i]);
        assert((self.entry)(before[i]) <= self.reach((self.entry)(before[i + 1]), before[i]));
        if i < planned {
            assert(mid[i + 1] == before[i + 1]);
        }
    }

    /// After the forward pass the plan can be driven, given that it could
    /// slow down in time before the pass and that the blocks up to the
    /// planned mark could be reached.
    proof fn lemma_forward_pass_drivable<F: Fn(&B, &B) -> (B, bool)>(
        self,
        speed_up: F,
        mid: Seq<B>,
        after: Seq<B>,
        advances: Seq<bool>,
        planned: int,
    )
        requires
            self.lawful(),
            self.speeds_up(speed_up),
            self.within_caps(mid),
            self.reachable_reverse(mid),
            forall|i: int|
                0 <= i < planned ==> (self.entry)(#[trigger] mid[i + 1]) <= self.reach(
                    (self.entry)(mid[i]),
                    mid[i],
                ),
            0 <= planned < mid.len() - 1,
            forward_pass(speed_up, mid, after, advances, planned, mid.len() - 1),
        ensures
            self.drivable(after),
    {
        let last = mid.len() - 1;
        self.lemma_forward_to(speed_up, mid, after, advances, planned, last);
        assert forall|i: int| 0 <= i < after.len() implies 0 <= #[trigger] (self.entry)(after[i])
            <= (self.cap)(after[i]) by {
            assert(0 <= (self.entry)(mid[i]) <= (self.cap)(mid[i]));
            if i <= planned {
                assert(after[i] == mid[i]);
            } else {
                assert(self.same_limits(after[i], mid[i]));
            }
        }
        assert forall|i: int| 0 <= i < after.len() - 1 implies (self.entry)(
            #[trigger] after[i + 1],
        ) <= self.reach((self.entry)(after[i]), after[i]) by {
            if i < planned {
                assert(after[i] == mid[i]);
                assert(after[i + 1] == mid[i + 1]);
            }
        }
        assert forall|i: int| 0 <= i < after.len() - 1 implies (self.entry)(#[trigger] after[i])
            <= self.reach((self.entry)(after[i + 1]), after[i]) by {
            self.lemma_forward_keeps_reverse(mid, after, planned, i);
        }
        assert(after.last() == after[last]);
        assert(mid.last() == mid[last]);
        assert(self.same_limits(after[last], mid[last]));
        assert((self.entry)(after[last]) <= (self.entry)(mid[last]));
    }

    /// A block can still slow down in time after the forward pass: either
    /// the block behind it is entered as before, or it is entered no slower
    /// than the block itself.
    proof fn lemma_forward_keeps_reverse(self, mid: Seq<B>, after: Seq<B>, planned: int, i: int)
        requires
            self.lawful(),
            self.reachable_reverse(mid),
            after.len() == mid.len(),
            0 <= planned < mid.len() - 1,
            0 <= i < mid.len() - 1,
            forall|j: int| 0 <= j <= planned ==> after[j] == mid[j],
            forall|j: int|
                planned <= j < mid.len() ==> {
                    &&& self.same_limits(#[trigger] after[j], mid[j])
                    &&& (self.entry)(after[j]) <= (self.entry)(mid[j])
                },
            forall|j: int|
                planned <= j < mid.len() - 1 ==> (self.entry)(#[trigger] after[j + 1]) == (
                self.entry)(mid[j + 1]) || (self.entry)(after[j]) <= (self.entry)(after[j + 1]),
        ensures
            (self.entry)(after[i]) <= self.reach((self.entry)(after[i + 1]), after[i]),
    {
        assert((self.entry)(mid[i]) <= self.reach((self.entry)(mid[i + 1]), mid[i]));
        if i < planned {
            assert(after[i] == mid[i]);
            assert(after[i + 1] == mid[i + 1]);
        } else {
            assert(self.same_limits(after[i], mid[i]));
            assert((self.entry)(after[i]) <= (self.entry)(mid[i]));
            assert((self.entry)(after[i + 1]) == (self.entry)(mid[i + 1]) || (self.entry)(
                after[i],
            ) <= (self.entry)(after[i + 1]));
        }
    }
}

} // verus!
