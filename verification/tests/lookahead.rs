use ngc_geometry::lookahead::step_directions;
use ngc_geometry::{Direction, Planer, Vec3};

#[test]
fn direction_of_a_step() {
    assert_eq!(Direction::of_step(5), Direction::Forward);
    assert_eq!(Direction::of_step(0), Direction::Forward);
    assert_eq!(Direction::of_step(-1), Direction::Backward);
    assert_eq!(Direction::of_step(i32::MIN), Direction::Backward);
    assert_eq!(Direction::Forward.sign(), 1);
    assert_eq!(Direction::Backward.sign(), -1);
}

#[test]
fn directions_of_a_block() {
    assert_eq!(
        step_directions(&Vec3::new(200, -700, 0)),
        (Direction::Forward, Direction::Backward, Direction::Forward)
    );
}

#[test]
fn queue_is_first_in_first_out() {
    let mut q = Planer::new();
    assert_eq!(q.len(), 0);
    assert_eq!(q.get_current_block(), None);
    assert_eq!(q.back(), None);
    q.push_sys_motion('a');
    assert_eq!(q.get_current_block(), Some((&'a', None)));
    q.push_sys_motion('b');
    q.push_sys_motion('c');
    assert_eq!(q.len(), 3);
    assert_eq!(q.get(0), Some(&'a'));
    assert_eq!(q.get(2), Some(&'c'));
    assert_eq!(q.get(3), None);
    assert_eq!(q.back(), Some(&'c'));
    assert_eq!(q.get_current_block(), Some((&'a', Some(&'b'))));
    q.discard_current_block();
    assert_eq!(q.get_current_block(), Some((&'b', Some(&'c'))));
    q.discard_current_block();
    q.discard_current_block();
    assert_eq!(q.len(), 0);
    q.discard_current_block();
    assert_eq!(q.len(), 0);
}

/// A block of the miniature planner of these tests: its entry speed, the
/// largest entry speed it allows, and by how much the speed can change
/// along it.
#[derive(Clone, Copy, Debug, PartialEq)]
struct Block {
    entry: u32,
    max_entry: u32,
    reach: u32,
}

fn block(max_entry: u32, reach: u32) -> Block {
    Block { entry: 0, max_entry, reach }
}

fn slow_down(cur: &Block, next: Option<&Block>) -> Block {
    let exit = next.map_or(0, |n| n.entry);
    Block { entry: cur.max_entry.min(exit + cur.reach), ..*cur }
}

fn speed_up(cur: &Block, next: &Block) -> (Block, bool) {
    let reachable = cur.entry + cur.reach;
    if reachable < next.entry {
        (Block { entry: reachable, ..*next }, true)
    } else {
        (*next, next.entry == next.max_entry)
    }
}

fn entries(q: &Planer<Block>) -> Vec<u32> {
    (0..q.len()).map(|i| q.get(i).unwrap().entry).collect()
}

#[test]
fn recalculate_leaves_an_empty_queue_alone() {
    let mut q: Planer<Block> = Planer::new();
    q.recalculate(slow_down, speed_up);
    assert_eq!(q.len(), 0);
    assert_eq!(q.planned_index(), None);
}

#[test]
fn recalculate_marks_the_head_of_a_single_block() {
    let mut q = Planer::new();
    q.push_normal_motion(&Vec3::new(0, 0, 0), block(50, 10), slow_down, speed_up);
    assert_eq!(entries(&q), vec![0]);
    assert_eq!(q.planned_index(), Some(0));
}

#[test]
fn recalculate_runs_both_passes() {
    let mut q = Planer::new();
    q.push_normal_motion(&Vec3::new(0, 0, 0), block(0, 10), slow_down, speed_up);
    q.push_normal_motion(&Vec3::new(0, 0, 0), block(50, 10), slow_down, speed_up);
    // The last block ends at rest and cannot be entered faster than 10.
    assert_eq!(entries(&q), vec![0, 10]);
    assert_eq!(q.planned_index(), Some(0));
    q.push_normal_motion(&Vec3::new(0, 0, 0), block(50, 10), slow_down, speed_up);
    // Backward: 10 for the last block, then 20 for the one before it; forward:
    // the head is at rest, 10 can be reached after it, 20 after that.
    assert_eq!(entries(&q), vec![0, 10, 10]);
    assert_eq!(q.planned_index(), Some(1));
    q.push_normal_motion(&Vec3::new(0, 0, 0), block(15, 10), slow_down, speed_up);
    // Nothing behind the mark is reached at full acceleration or entered at
    // its largest entry speed, so the mark stays.
    assert_eq!(entries(&q), vec![0, 10, 20, 10]);
    assert_eq!(q.planned_index(), Some(1));
}

#[test]
fn recalculate_leaves_the_planned_blocks_alone() {
    let mut q = Planer::new();
    for _ in 0..4 {
        q.push_sys_motion(block(7, 100));
    }
    q.recalculate(slow_down, speed_up);
    // Every block behind the head reaches its largest entry speed, so the
    // mark runs to the end.
    assert_eq!(entries(&q), vec![0, 7, 7, 7]);
    assert_eq!(q.planned_index(), Some(3));
    q.recalculate(|_, _| block(0, 0), |_, _| (block(0, 0), false));
    assert_eq!(entries(&q), vec![0, 7, 7, 7]);
    assert_eq!(q.planned_index(), Some(3));
    q.push_normal_motion(&Vec3::new(0, 0, 0), block(9, 1), slow_down, speed_up);
    assert_eq!(entries(&q), vec![0, 7, 7, 7, 1]);
    assert_eq!(q.planned_index(), Some(3));
}

#[test]
fn planned_mark_follows_its_block() {
    let mut q = Planer::new();
    for _ in 0..4 {
        q.push_sys_motion(block(7, 100));
    }
    assert_eq!(q.planned_index(), None);
    q.discard_current_block();
    assert_eq!(q.planned_index(), None);
    q.recalculate(slow_down, speed_up);
    assert_eq!(q.planned_index(), Some(2));
    q.push_sys_motion(block(9, 1));
    assert_eq!(q.planned_index(), Some(2));
    q.discard_current_block();
    assert_eq!(q.planned_index(), Some(1));
    q.discard_current_block();
    assert_eq!(q.planned_index(), Some(0));
    q.discard_current_block();
    assert_eq!(q.planned_index(), None);
    assert_eq!(q.len(), 1);
    q.discard_current_block();
    assert_eq!(q.planned_index(), None);
    q.discard_current_block();
    assert_eq!(q.planned_index(), None);
    assert_eq!(q.len(), 0);
}

/// A block as a planner in floating point sees it.
#[derive(Clone, Copy, Debug)]
struct Move {
    millimeters: f32,
    acceleration: f32,
    entry_speed_sqr: f32,
    max_entry_speed_sqr: f32,
}

fn end_speed_sqr(v0_sqr: f32, accel: f32, s: f32) -> f32 {
    2. * accel * s + v0_sqr
}

fn limit_entry(c: &Move, next: Option<&Move>) -> Move {
    let mut c = *c;
    match next {
        None => {
            let x = end_speed_sqr(0., c.acceleration, c.millimeters);
            c.entry_speed_sqr = c.max_entry_speed_sqr.min(x);
        }
        Some(n) => {
            if c.entry_speed_sqr != c.max_entry_speed_sqr {
                let x = end_speed_sqr(n.entry_speed_sqr, c.acceleration, c.millimeters);
                c.entry_speed_sqr = c.max_entry_speed_sqr.min(x);
            }
        }
    }
    c
}

fn limit_exit(cur: &Move, next: &Move) -> (Move, bool) {
    let mut next = *next;
    let mut planned = false;
    if cur.entry_speed_sqr < next.entry_speed_sqr {
        let sqr = end_speed_sqr(cur.entry_speed_sqr, cur.acceleration, cur.millimeters);
        if sqr < next.entry_speed_sqr {
            next.entry_speed_sqr = sqr;
            planned = true;
        }
    }
    if next.entry_speed_sqr == next.max_entry_speed_sqr {
        planned = true;
    }
    (next, planned)
}

fn speeds(q: &Planer<Move>) -> Vec<f32> {
    (0..q.len()).map(|i| q.get(i).unwrap().entry_speed_sqr).collect()
}

#[test]
fn four_block_sequence() {
    // A move along the space diagonal from rest, a system motion, a move
    // along X that starts from rest behind the system motion, and a move
    // along Y whose junction and nominal speed allow an entry speed of 1.
    let diagonal = Move {
        millimeters: 17.320508,
        acceleration: 62353.83,
        entry_speed_sqr: 0.,
        max_entry_speed_sqr: 0.,
    };
    let along_axis = |max_entry_speed_sqr: f32| Move {
        millimeters: 1.,
        acceleration: 36000.,
        entry_speed_sqr: 0.,
        max_entry_speed_sqr,
    };
    let mut q = Planer::new();
    q.push_normal_motion(&Vec3::new(100, 100, 100), diagonal, limit_entry, limit_exit);
    q.push_sys_motion(diagonal);
    assert_eq!(q.len(), 2);
    q.push_normal_motion(&Vec3::new(110, 100, 100), along_axis(0.), limit_entry, limit_exit);
    assert_eq!(q.len(), 3);
    q.push_normal_motion(&Vec3::new(110, 110, 100), along_axis(1.), limit_entry, limit_exit);
    assert_eq!(q.len(), 4);
    assert_eq!(speeds(&q), vec![0., 0., 0., 1.0]);
    assert_eq!(q.planned_index(), Some(3));
    assert_eq!(*q.get_previous_steps(), Vec3::new(110, 110, 100));
    let (head, next) = q.get_current_block().unwrap();
    assert_eq!(head.entry_speed_sqr, 0.);
    assert_eq!(next.unwrap().entry_speed_sqr, 0.);
}

#[test]
fn entry_speeds_are_reachable_from_both_sides() {
    // Long enough moves are entered at their largest entry speed, short ones
    // at what the neighbours allow.
    let caps = [0f32, 400., 900., 100., 2500., 2500., 50.];
    let lengths = [5f32, 0.001, 3., 0.002, 0.004, 6., 1.];
    let mut q = Planer::new();
    for (cap, len) in caps.iter().zip(lengths.iter()) {
        let block = Move {
            millimeters: *len,
            acceleration: 36000.,
            entry_speed_sqr: 0.,
            max_entry_speed_sqr: *cap,
        };
        q.push_normal_motion(&Vec3::new(0, 0, 0), block, limit_entry, limit_exit);
        let n = q.len();
        for i in 0..n {
            let b = q.get(i).unwrap();
            assert!(b.entry_speed_sqr <= b.max_entry_speed_sqr);
            let reach = 2. * b.acceleration * b.millimeters;
            let exit = if i + 1 < n { q.get(i + 1).unwrap().entry_speed_sqr } else { 0. };
            assert!(exit <= b.entry_speed_sqr + reach);
            assert!(b.entry_speed_sqr <= exit + reach);
        }
    }
    // 472 = 400 + 72, 244 = 100 + 144 and 532 = 244 + 288 are what the short
    // moves before them allow; the others are the largest entry speeds.
    assert_eq!(speeds(&q), vec![0., 400., 472., 100., 244., 532., 50.]);
}

#[test]
fn system_motion_starts_from_the_position_it_is_given() {
    let mut q: Planer<Vec3<i32>> = Planer::new();
    assert_eq!(*q.get_previous_steps(), Vec3::new(0, 0, 0));
    let target = Vec3::new(100, 100, 100);
    let sys_position = Vec3::new(5, 5, 5);
    let steps = q.steps_to(&target, Some(&sys_position));
    assert_eq!(steps, Vec3::new(95, 95, 95));
    q.push_sys_motion(steps);
    // A system motion does not move the planner position.
    assert_eq!(*q.get_previous_steps(), Vec3::new(0, 0, 0));
    let steps = q.steps_to(&target, None);
    assert_eq!(steps, Vec3::new(100, 100, 100));
    q.push_normal_motion(&target, steps, |c, _| *c, |_, n| (*n, false));
    assert_eq!(*q.get_previous_steps(), target);
    assert_eq!(q.steps_to(&target, None), Vec3::new(0, 0, 0));
    assert_eq!(q.steps_to(&Vec3::new(90, 100, 130), None), Vec3::new(-10, 0, 30));
    assert_eq!(q.len(), 2);
    assert_eq!(q.get(0), Some(&Vec3::new(95, 95, 95)));
    assert_eq!(q.get(1), Some(&Vec3::new(100, 100, 100)));
    q.discard_current_block();
    q.discard_current_block();
    assert_eq!(*q.get_previous_steps(), target);
}
