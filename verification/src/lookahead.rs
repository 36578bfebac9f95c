//! The look-ahead planner and the direction of travel of a block.
//!
//! The planner keeps its blocks in the order in which they were submitted,
//! remembers up to which block the plan is final, and knows where the last
//! planned motion ends. It does not know what a speed is: the blocks are
//! whatever the caller queues, and the two passes of a recalculation leave
//! the arithmetic to the functions they are given.

use crate::vecx::{fits_i32, Vec3};
use std::collections::VecDeque;
use vstd::prelude::*;

verus! {

/// The sense in which a motor turns.
#[derive(Clone, Copy, Debug, Eq, PartialEq, Structural)]
pub enum Direction {
    /// The sense in which the axis coordinate grows.
    Forward,
    /// The sense in which the axis coordinate shrinks.
    Backward,
}

impl Direction {
    /// The direction in which an axis travels when it moves by `step`
    /// steps. An axis at rest counts as going forward.
    pub open spec fn of_step_spec(step: int) -> Direction {
        if step >= 0 {
            Direction::Forward
        } else {
            Direction::Backward
        }
    }

    /// The direction in which an axis travels when it moves by `step`
    /// steps. An axis at rest counts as going forward.
    pub fn of_step(step: i32) -> (r: Direction)
        ensures
            r == Self::of_step_spec(step as int),
    {
        if step >= 0 {
            Direction::Forward
        } else {
            Direction::Backward
        }
    }

    /// `1` for forward, `-1` for backward.
    pub open spec fn sign_spec(self) -> int {
        match self {
            Direction::Forward => 1,
            Direction::Backward => -1,
        }
    }

    /// `1` for forward, `-1` for backward.
    pub fn sign(self) -> (r: i32)
        ensures
            r == self.sign_spec(),
    {
        match self {
            Direction::Forward => 1,
            Direction::Backward => -1,
        }
    }
}

/// The direction of travel of each axis of a block that moves by `steps`.
pub fn step_directions(steps: &Vec3<i32>) -> (r: (Direction, Direction, Direction))
    ensures
        r.0 == Direction::of_step_spec(steps.0 as int),
        r.1 == Direction::of_step_spec(steps.1 as int),
        r.2 == Direction::of_step_spec(steps.2 as int),
{
    (Direction::of_step(steps.0), Direction::of_step(steps.1), Direction::of_step(steps.2))
}

/// The position a motion starts from: the one given for a system motion,
/// the end of the last planned motion for any other.
pub open spec fn motion_base(previous: Vec3<i32>, sys_base: Option<&Vec3<i32>>) -> Vec3<i32> {
    match sys_base {
        Some(st) => *st,
        None => previous,
    }
}

/// Where the planned mark stands after the head of the queue has been
/// discarded: a mark on the head is dropped, any other mark follows its
/// block one place toward the head.
pub open spec fn planned_after_discard(planned: Option<usize>) -> Option<usize> {
    match planned {
        None => None,
        Some(p) => if p == 0 {
            None
        } else {
            Some((p - 1) as usize)
        },
    }
}

/// The look-ahead planner: the blocks in the order in which they were
/// submitted, the mark of the last block whose entry speed is final, and the
/// position at which the last planned motion ends.
pub struct Planer<B> {
    block_buffer: VecDeque<B>,
    /// Index of the last block that needs no further planning.
    block_buffer_planned: Option<usize>,
    /// The planner position of the tool in absolute steps.
    steps: Vec3<i32>,
}

impl<B> Planer<B> {
    /// The planned mark, if set, points into the queue.
    pub closed spec fn wf(self) -> bool {
        self.block_buffer_planned matches Some(p) ==> p < self.block_buffer@.len()
    }

    /// The queued blocks, head first.
    pub closed spec fn blocks(self) -> Seq<B> {
        self.block_buffer@
    }

    /// The planned mark.
    pub closed spec fn planned(self) -> Option<usize> {
        self.block_buffer_planned
    }

    /// The position, in steps, at which the last planned motion ends.
    pub closed spec fn previous_steps(self) -> Vec3<i32> {
        self.steps
    }

    /// A planner at the origin with an empty queue and no planned mark.
    pub fn new() -> (r: Self)
        ensures
            r.wf(),
            r.blocks() == Seq::<B>::empty(),
            r.planned() is None,
            r.previous_steps() == Vec3(0i32, 0i32, 0i32),
    {
        Planer { block_buffer: VecDeque::new(), block_buffer_planned: None, steps: Vec3::zero() }
    }

    /// The position, in steps, at which the last planned motion ends.
    pub fn get_previous_steps(&self) -> (r: &Vec3<i32>)
        ensures
            *r == self.previous_steps(),
    {
        &self.steps
    }

    /// The step deltas of a motion to `target_steps`. A system motion starts
    /// from the position it is given; any other motion starts where the
    /// last planned motion ends.
    pub fn steps_to(&self, target_steps: &Vec3<i32>, sys_position: Option<&Vec3<i32>>) -> (r:
        Vec3<i32>)
        requires
            fits_i32(target_steps.0 - motion_base(self.previous_steps(), sys_position).0),
            fits_i32(target_steps.1 - motion_base(self.previous_steps(), sys_position).1),
            fits_i32(target_steps.2 - motion_base(self.previous_steps(), sys_position).2),
        ensures
            r.0 == target_steps.0 - motion_base(self.previous_steps(), sys_position).0,
            r.1 == target_steps.1 - motion_base(self.previous_steps(), sys_position).1,
            r.2 == target_steps.2 - motion_base(self.previous_steps(), sys_position).2,
    {
        match sys_position {
            Some(st) => *target_steps - *st,
            None => *target_steps - self.steps,
        }
    }

    /// The number of queued blocks.
    pub fn len(&self) -> (r: usize)
        ensures
            r == self.blocks().len(),
    {
        self.block_buffer.len()
    }

    /// The planned mark, which always points into the queue.
    pub fn planned_index(&self) -> (r: Option<usize>)
        requires
            self.wf(),
        ensures
            r == self.planned(),
            r matches Some(p) ==> p < self.blocks().len(),
    {
        self.block_buffer_planned
    }

    /// Queues the block of a system motion, such as homing or parking. It is
    /// left out of the look-ahead: nothing is recalculated, and the planner
    /// position stays where it is.
    pub fn push_sys_motion(&mut self, block: B)
        requires
            old(self).wf(),
        ensures
            final(self).wf(),
            final(self).blocks() == old(self).blocks().push(block),
            final(self).planned() == old(self).planned(),
            final(self).previous_steps() == old(self).previous_steps(),
    {
        self.block_buffer.push_back(block);
    }

    /// Queues the block of a motion to `target_steps` that takes part in the
    /// look-ahead: the planner position moves to the target, the block is
    /// appended, and the plan is recalculated.
    pub fn push_normal_motion<R, F>(
        &mut self,
        target_steps: &Vec3<i32>,
        block: B,
        slow_down: R,
        speed_up: F,
    ) where R: Fn(&B, Option<&B>) -> B, F: Fn(&B, &B) -> (B, bool)
        requires
            old(self).wf(),
            forall|cur: &B, next: Option<&B>| call_requires(slow_down, (cur, next)),
            forall|cur: &B, next: &B| call_requires(speed_up, (cur, next)),
        ensures
            final(self).wf(),
            final(self).previous_steps() == *target_steps,
            recalculated(
                slow_down,
                speed_up,
                old(self).blocks().push(block),
                old(self).planned(),
                final(self).blocks(),
                final(self).planned(),
            ),
    {
        self.steps = *target_steps;
        self.block_buffer.push_back(block);
        self.recalculate(slow_down, speed_up);
    }

    /// The block at `index`, counted from the head.
    pub fn get(&self, index: usize) -> (r: Option<&B>)
        ensures
            index < self.blocks().len() ==> r == Some(&self.blocks()[index as int]),
            index >= self.blocks().len() ==> r is None,
    {
        if index < self.block_buffer.len() {
            Some(&self.block_buffer[index])
        } else {
            None
        }
    }

    /// The block behind all others.
    pub fn back(&self) -> (r: Option<&B>)
        ensures
            self.blocks().len() > 0 ==> r == Some(&self.blocks().last()),
            self.blocks().len() == 0 ==> r is None,
    {
        let len = self.block_buffer.len();
        if len > 0 {
            Some(&self.block_buffer[len - 1])
        } else {
            None
        }
    }

    /// The head of the queue together with the block that follows it, if
    /// there is one.
    pub fn get_current_block(&self) -> (r: Option<(&B, Option<&B>)>)
        ensures
            self.blocks().len() == 0 ==> r is None,
            self.blocks().len() == 1 ==> r == Some((&self.blocks()[0], None::<&B>)),
            self.blocks().len() >= 2 ==> r == Some((&self.blocks()[0], Some(&self.blocks()[1]))),
    {
        match self.get(0) {
            Some(head) => Some((head, self.get(1))),
            None => None,
        }
    }

    /// Discards the head of the queue, if there is one. The blocks behind it
    /// keep their order and the planned mark stays on its block.
    pub fn discard_current_block(&mut self)
        requires
            old(self).wf(),
        ensures
            final(self).wf(),
            final(self).previous_steps() == old(self).previous_steps(),
            old(self).blocks().len() == 0 ==> {
                &&& final(self).blocks() == old(self).blocks()
                &&& final(self).planned() == old(self).planned()
            },
            old(self).blocks().len() > 0 ==> {
                &&& final(self).blocks() == old(self).blocks().skip(1)
                &&& final(self).planned() == planned_after_discard(old(self).planned())
            },
    {
        if let Some(_) = self.block_buffer.pop_front() {
            if let Some(planned) = self.block_buffer_planned {
                if planned == 0 {
                    self.block_buffer_planned = None;
                } else {
                    self.block_buffer_planned = Some(planned - 1);
                }
            }
        }
    }

    /// Recalculates the plan.
    ///
    /// A queue without a planned mark gets one on its head. When the mark
    /// stands on the last block nothing is left to plan. Otherwise the
    /// reverse pass hands every block behind the mark, from the last one
    /// back, to `slow_down` together with the block that follows it, and
    /// puts the result in its place; the forward pass then hands every pair
    /// of neighbours from the mark on to `speed_up`, puts the first result in
    /// the place of the second block of the pair, and moves the mark to that
    /// block when the second result says so.
    pub fn recalculate<R, F>(&mut self, slow_down: R, speed_up: F) where
        R: Fn(&B, Option<&B>) -> B,
        F: Fn(&B, &B) -> (B, bool),

        requires
            old(self).wf(),
            forall|cur: &B, next: Option<&B>| call_requires(slow_down, (cur, next)),
            forall|cur: &B, next: &B| call_requires(speed_up, (cur, next)),
        ensures
            final(self).wf(),
            final(self).previous_steps() == old(self).previous_steps(),
            recalculated(
                slow_down,
                speed_up,
                old(self).blocks(),
                old(self).planned(),
                final(self).blocks(),
                final(self).planned(),
            ),
    {
        let buf_len = self.block_buffer.len();
        if buf_len == 0 {
            return ;
        }
        let planned: usize = match self.block_buffer_planned {
            Some(p) => p,
            None => {
                self.block_buffer_planned = Some(0);
                0
            },
        };
        let last_index = buf_len - 1;
        if last_index == planned {
            return ;
        }
        let ghost before = self.block_buffer@;

        let block = slow_down(&self.block_buffer[last_index], None);
        deque_set(&mut self.block_buffer, last_index, block);
        let mut index = last_index;
        while index > planned + 1
            invariant
                planned < index <= last_index,
                last_index + 1 == before.len(),
                self.block_buffer@.len() == before.len(),
                self.block_buffer_planned == Some(planned),
                self.steps == old(self).steps,
                forall|cur: &B, next: Option<&B>| call_requires(slow_down, (cur, next)),
                forall|j: int|
                    0 <= j < index || last_index < j < before.len() ==> self.block_buffer@[j]
                        == before[j],
                call_ensures(
                    slow_down,
                    (&before[last_index as int], None::<&B>),
                    self.block_buffer@[last_index as int],
                ),
                forall|j: int|
                    index <= j < last_index ==> call_ensures(
                        slow_down,
                        (&before[j], Some(&self.block_buffer@[j + 1])),
                        #[trigger] self.block_buffer@[j],
                    ),
            decreases index,
        {
            index -= 1;
            let block = slow_down(&self.block_buffer[index], Some(&self.block_buffer[index + 1]));
            deque_set(&mut self.block_buffer, index, block);
        }
        let ghost mid = self.block_buffer@;
        assert(reverse_pass(slow_down, before, mid, planned as int, last_index as int));

        let ghost mut advances = Seq::<bool>::empty();
        let mut index = planned;
        while index < last_index
            invariant
                planned <= index <= last_index,
                last_index + 1 == mid.len(),
                self.block_buffer@.len() == mid.len(),
                advances.len() == index - planned,
                self.block_buffer_planned == Some(planned_after(planned, advances)),
                planned <= planned_after(planned, advances) <= index,
                self.steps == old(self).steps,
                forall|cur: &B, next: &B| call_requires(speed_up, (cur, next)),
                forall|j: int|
                    0 <= j <= planned || index < j < mid.len() ==> self.block_buffer@[j] == mid[j],
                forall|j: int|
                    planned <= j < index ==> call_ensures(
                        speed_up,
                        (&self.block_buffer@[j], &mid[j + 1]),
                        (#[trigger] self.block_buffer@[j + 1], advances[j - planned]),
                    ),
            decreases last_index - index,
        {
            let (block, advance) = speed_up(
                &self.block_buffer[index],
                &self.block_buffer[index + 1],
            );
            deque_set(&mut self.block_buffer, index + 1, block);
            if advance {
                self.block_buffer_planned = Some(index + 1);
            }
            proof {
                let longer = advances.push(advance);
                assert(longer.drop_last() == advances);
                advances = longer;
            }
            index += 1;
        }
        assert(forward_pass(
            speed_up,
            mid,
            self.block_buffer@,
            advances,
            planned as int,
            last_index as int,
        ));
        assert(two_passes(slow_down, speed_up, before, mid, self.block_buffer@, advances, planned));
    }
}

/// What the reverse pass of a recalculation makes of the blocks `before`:
/// the blocks up to the planned mark stay as they are; the last block is
/// what `slow_down` makes of it alone; every block between them is what
/// `slow_down` makes of it and of the new block behind it.
pub open spec fn reverse_pass<B, R: Fn(&B, Option<&B>) -> B>(
    slow_down: R,
    before: Seq<B>,
    after: Seq<B>,
    planned: int,
    last: int,
) -> bool {
    &&& after.len() == before.len()
    &&& forall|j: int| 0 <= j <= planned || last < j < before.len() ==> after[j] == before[j]
    &&& call_ensures(slow_down, (&before[last], None::<&B>), after[last])
    &&& forall|j: int|
        planned < j < last ==> call_ensures(
            slow_down,
            (&before[j], Some(&after[j + 1])),
            #[trigger] after[j],
        )
}

/// What the forward pass of a recalculation makes of the blocks `before`:
/// the blocks up to the planned mark stay as they are; every block behind
/// the mark is the first result of `speed_up` on the new block before it
/// and on itself. `advances` holds the second results, one for each pair of
/// neighbours from the mark on.
pub open spec fn forward_pass<B, F: Fn(&B, &B) -> (B, bool)>(
    speed_up: F,
    before: Seq<B>,
    after: Seq<B>,
    advances: Seq<bool>,
    planned: int,
    last: int,
) -> bool {
    &&& after.len() == before.len()
    &&& advances.len() == last - planned
    &&& forall|j: int| 0 <= j <= planned || last < j < before.len() ==> after[j] == before[j]
    &&& forall|j: int|
        planned <= j < last ==> call_ensures(
            speed_up,
            (&after[j], &before[j + 1]),
            (#[trigger] after[j + 1], advances[j - planned]),
        )
}

/// Where the planned mark stands after a forward pass that started with the
/// mark on `planned`: on the second block of the last pair of neighbours for
/// which the pass said so, or where it was when it never did.
pub open spec fn planned_after(planned: usize, advances: Seq<bool>) -> usize
    decreases advances.len(),
{
    if advances.len() == 0 {
        planned
    } else if advances.last() {
        (planned + advances.len()) as usize
    } else {
        planned_after(planned, advances.drop_last())
    }
}

/// What a recalculation makes of a queue: nothing when the queue is empty; a
/// planned mark on the head when there was none; and, unless the mark stands
/// on the last block, the reverse pass followed by the forward pass.
pub open spec fn recalculated<B, R: Fn(&B, Option<&B>) -> B, F: Fn(&B, &B) -> (B, bool)>(
    slow_down: R,
    speed_up: F,
    before: Seq<B>,
    planned_before: Option<usize>,
    after: Seq<B>,
    planned_now: Option<usize>,
) -> bool {
    if before.len() == 0 {
        after == before && planned_now == planned_before
    } else {
        recalculated_behind(
            slow_down,
            speed_up,
            before,
            match planned_before {
                Some(p) => p,
                None => 0usize,
            },
            after,
            planned_now,
        )
    }
}

/// What a recalculation makes of a queue that is not empty and has its
/// planned mark on `planned`.
pub open spec fn recalculated_behind<B, R: Fn(&B, Option<&B>) -> B, F: Fn(&B, &B) -> (B, bool)>(
    slow_down: R,
    speed_up: F,
    before: Seq<B>,
    planned: usize,
    after: Seq<B>,
    planned_now: Option<usize>,
) -> bool {
    if planned == before.len() - 1 {
        after == before && planned_now == Some(planned)
    } else {
        exists|mid: Seq<B>, advances: Seq<bool>|
            #[trigger] two_passes(slow_down, speed_up, before, mid, after, advances, planned)
                && planned_now == Some(planned_after(planned, advances))
    }
}

/// The reverse pass leads from `before` to `mid` and the forward pass from
/// `mid` to `after`, both behind a planned mark on `planned`.
pub open spec fn two_passes<B, R: Fn(&B, Option<&B>) -> B, F: Fn(&B, &B) -> (B, bool)>(
    slow_down: R,
    speed_up: F,
    before: Seq<B>,
    mid: Seq<B>,
    after: Seq<B>,
    advances: Seq<bool>,
    planned: usize,
) -> bool {
    &&& reverse_pass(slow_down, before, mid, planned as int, before.len() - 1)
    &&& forward_pass(speed_up, mid, after, advances, planned as int, before.len() - 1)
}

/// The forward pass never moves the planned mark back, nor past the last
/// pair of neighbours it has looked at.
pub proof fn lemma_planned_after_bounds(planned: usize, advances: Seq<bool>)
    requires
        planned + advances.len() <= usize::MAX,
    ensures
        planned <= planned_after(planned, advances) <= planned + advances.len(),
    decreases advances.len(),
{
    if advances.len() > 0 && !advances.last() {
        lemma_planned_after_bounds(planned, advances.drop_last());
    }
}

/// A recalculation keeps the number of blocks and leaves every block up to
/// the planned mark as it is; the mark stays in the queue and never moves
/// back.
pub proof fn lemma_recalculated_frame<B, R: Fn(&B, Option<&B>) -> B, F: Fn(&B, &B) -> (B, bool)>(
    slow_down: R,
    speed_up: F,
    before: Seq<B>,
    planned_before: Option<usize>,
    after: Seq<B>,
    planned_now: Option<usize>,
)
    requires
        recalculated(slow_down, speed_up, before, planned_before, after, planned_now),
        planned_before matches Some(p) ==> p < before.len(),
        before.len() <= usize::MAX,
    ensures
        after.len() == before.len(),
        before.len() > 0 ==> planned_now is Some,
        planned_now matches Some(p) ==> p < after.len(),
        planned_before matches Some(p) ==> {
            &&& planned_now matches Some(q) && p <= q
            &&& forall|j: int| 0 <= j <= p ==> after[j] == before[j]
        },
        before.len() > 0 ==> after[0] == before[0],
{
    if before.len() > 0 {
        let planned = match planned_before {
            Some(p) => p,
            None => 0usize,
        };
        if planned != before.len() - 1 {
            let (mid, advances) = choose|mid: Seq<B>, advances: Seq<bool>|
                #[trigger] two_passes(slow_down, speed_up, before, mid, after, advances, planned)
                    && planned_now == Some(planned_after(planned, advances));
            lemma_planned_after_bounds(planned, advances);
        }
    }
}

/// `VecDeque`'s `IndexMut::index_mut`, followed by an assignment. The
/// contract is taken from the documentation of the standard library and is
/// not proved here: the block at `index` is replaced by `block` and every
/// other block stays where it is. The index must lie within the queue, as
/// the call panics otherwise.
#[verifier::external_body]
fn deque_set<B>(deque: &mut VecDeque<B>, index: usize, block: B)
    requires
        index < old(deque)@.len(),
    ensures
        final(deque)@ == old(deque)@.update(index as int, block),
{
    deque[index] = block;
}

} // verus!
