//! Rasterisation of straight segments in space on the integer step grid.
//!
//! [`Line3D`] walks from one grid point to another in as many unit steps as
//! the longest axis needs, keeping every axis within half a step of the true
//! line. The start point is not emitted, the end point is.

use crate::vecx::{abs_int, max_int, Point3, Vec3};
use vstd::arithmetic::div_mod::lemma_fundamental_div_mod_converse;
use vstd::prelude::*;

verus! {

/// The direction of travel along one axis: `1` when `to` lies above `from`,
/// `-1` otherwise.
pub open spec fn axis_sign(from: int, to: int) -> int {
    if from < to {
        1
    } else {
        -1
    }
}

/// How many unit steps an axis of length `d` has taken after `k` steps of a
/// line whose longest axis has length `dm`: the multiple of `1 / dm` nearest
/// to `k * d / dm`, a tie going to the smaller one.
pub open spec fn axis_steps(d: int, dm: int, k: int) -> int {
    if dm <= 0 {
        0
    } else {
        (k * d + (dm - 1 - dm / 2)) / dm
    }
}

/// The coordinate reached on one axis after `k` steps of a line whose
/// longest axis has length `dm`.
pub open spec fn axis_at(from: int, to: int, dm: int, k: int) -> int {
    from + axis_sign(from, to) * axis_steps(abs_int(to - from), dm, k)
}

/// A segment can be rasterised when its extent along every axis is
/// representable.
pub open spec fn line3d_valid(start: Point3, end: Point3) -> bool {
    &&& abs_int(end.0 - start.0) <= i32::MAX
    &&& abs_int(end.1 - start.1) <= i32::MAX
    &&& abs_int(end.2 - start.2) <= i32::MAX
}

/// The number of points of the segment: the extent of its longest axis.
pub open spec fn line3d_len(start: Point3, end: Point3) -> int {
    max_int(
        max_int(abs_int(end.0 - start.0), abs_int(end.1 - start.1)),
        abs_int(end.2 - start.2),
    )
}

/// The `k`-th point of the segment, counting the first emitted point as 1;
/// `k == 0` is the start itself.
pub open spec fn line3d_point(start: Point3, end: Point3, k: int) -> Point3 {
    let dm = line3d_len(start, end);
    Vec3(
        axis_at(start.0 as int, end.0 as int, dm, k) as i32,
        axis_at(start.1 as int, end.1 as int, dm, k) as i32,
        axis_at(start.2 as int, end.2 as int, dm, k) as i32,
    )
}

/// All points of the segment in order: the start is left out, the end is the
/// last one.
pub open spec fn line3d_points(start: Point3, end: Point3) -> Seq<Point3> {
    Seq::new(line3d_len(start, end) as nat, |j: int| line3d_point(start, end, j + 1))
}

/// One more step either keeps the step count of an axis or raises it by one,
/// and the error accumulator tells which.
proof fn lemma_axis_steps_next(d: int, dm: int, k: int, err: int)
    requires
        dm > 0,
        0 <= d <= dm,
        0 <= err < dm,
        err == dm / 2 - k * d + axis_steps(d, dm, k) * dm,
    ensures
        err - d >= 0 ==> axis_steps(d, dm, k + 1) == axis_steps(d, dm, k),
        err - d < 0 ==> axis_steps(d, dm, k + 1) == axis_steps(d, dm, k) + 1,
{
    let n = axis_steps(d, dm, k);
    let c = dm - 1 - dm / 2;
    let x = (k + 1) * d + c;
    assert((k + 1) * d == k * d + d) by (nonlinear_arith);
    if err - d >= 0 {
        assert(x == n * dm + (dm - 1 - err + d));
        lemma_fundamental_div_mod_converse(x, dm, n, dm - 1 - err + d);
    } else {
        assert((n + 1) * dm == n * dm + dm) by (nonlinear_arith);
        assert(x == (n + 1) * dm + (d - 1 - err));
        lemma_fundamental_div_mod_converse(x, dm, n + 1, d - 1 - err);
    }
}

/// Before the first step no axis has moved.
proof fn lemma_axis_steps_zero(d: int, dm: int)
    ensures
        axis_steps(d, dm, 0) == 0,
{
    if dm > 0 {
        assert(0 * d == 0) by (nonlinear_arith);
        lemma_fundamental_div_mod_converse(dm - 1 - dm / 2, dm, 0, dm - 1 - dm / 2);
    }
}

/// An axis never takes more steps than the line has taken, never more than
/// its own length, and takes all of them by the last step.
pub proof fn lemma_axis_steps_bounds(d: int, dm: int, k: int)
    requires
        0 <= d <= dm,
        0 <= k <= dm,
    ensures
        0 <= axis_steps(d, dm, k) <= d,
        axis_steps(d, dm, k) <= k,
        axis_steps(d, dm, dm) == d,
        axis_steps(dm, dm, k) == k,
{
    if dm > 0 {
        let c = dm - 1 - dm / 2;
        let n = axis_steps(d, dm, k);
        let x = k * d + c;
        assert(0 <= k * d <= dm * d && k * d <= k * dm) by (nonlinear_arith)
            requires
                0 <= d <= dm,
                0 <= k <= dm,
        ;
        vstd::arithmetic::div_mod::lemma_fundamental_div_mod(x, dm);
        vstd::arithmetic::div_mod::lemma_mod_bound(x, dm);
        assert(dm * n <= x < dm * n + dm);
        assert(0 <= n <= d && n <= k) by (nonlinear_arith)
            requires
                dm > 0,
                dm * n <= x < dm * n + dm,
                0 <= x,
                x <= dm * d + c,
                x <= k * dm + c,
                0 <= c < dm,
        ;
        assert(dm * d == d * dm) by (nonlinear_arith);
        lemma_fundamental_div_mod_converse(dm * d + c, dm, d, c);
        lemma_fundamental_div_mod_converse(k * dm + c, dm, k, c);
    }
}

/// Every axis stays within half a step of the true line.
proof fn lemma_axis_steps_nearest(d: int, dm: int, k: int)
    requires
        dm > 0,
        0 <= d <= dm,
        0 <= k <= dm,
    ensures
        2 * abs_int(axis_steps(d, dm, k) * dm - k * d) <= dm,
{
    let c = dm - 1 - dm / 2;
    let n = axis_steps(d, dm, k);
    let x = k * d + c;
    vstd::arithmetic::div_mod::lemma_fundamental_div_mod(x, dm);
    vstd::arithmetic::div_mod::lemma_mod_bound(x, dm);
    assert(dm * n == n * dm) by (nonlinear_arith);
}

/// One more step moves an axis by at most one unit.
pub proof fn lemma_axis_steps_delta(d: int, dm: int, k: int)
    requires
        dm > 0,
        0 <= d <= dm,
        0 <= k,
    ensures
        0 <= axis_steps(d, dm, k + 1) - axis_steps(d, dm, k) <= 1,
{
    let c = dm - 1 - dm / 2;
    let x = k * d + c;
    let q = x / dm;
    let r = x % dm;
    assert((k + 1) * d == k * d + d) by (nonlinear_arith);
    vstd::arithmetic::div_mod::lemma_fundamental_div_mod(x, dm);
    vstd::arithmetic::div_mod::lemma_mod_bound(x, dm);
    assert(dm * q == q * dm) by (nonlinear_arith);
    if r + d < dm {
        lemma_fundamental_div_mod_converse(x + d, dm, q, r + d);
    } else {
        assert((q + 1) * dm == q * dm + dm) by (nonlinear_arith);
        lemma_fundamental_div_mod_converse(x + d, dm, q + 1, r + d - dm);
    }
}

/// The move of one axis between two consecutive points: nothing or one unit
/// toward the end, and always one unit on an axis as long as the line.
pub open spec fn axis_unit_step(from: int, to: int, dm: int, prev: int, cur: int) -> bool {
    let delta = cur - prev;
    &&& delta == 0 || delta == axis_sign(from, to)
    &&& abs_int(to - from) == dm ==> delta == axis_sign(from, to)
}

/// The move between two consecutive points of a segment is a unit step on
/// every longest axis and at most a unit step on the others.
pub open spec fn line3d_unit_step(start: Point3, end: Point3, prev: Point3, cur: Point3) -> bool {
    let dm = line3d_len(start, end);
    &&& axis_unit_step(start.0 as int, end.0 as int, dm, prev.0 as int, cur.0 as int)
    &&& axis_unit_step(start.1 as int, end.1 as int, dm, prev.1 as int, cur.1 as int)
    &&& axis_unit_step(start.2 as int, end.2 as int, dm, prev.2 as int, cur.2 as int)
}

/// On one axis, the coordinate after `k` steps lies between the end points,
/// is the end point after the last step, and is one unit step at most from
/// the coordinate before.
proof fn lemma_axis_at(from: int, to: int, dm: int, k: int)
    requires
        abs_int(to - from) <= dm,
        1 <= k <= dm,
    ensures
        from <= axis_at(from, to, dm, k) <= to || to <= axis_at(from, to, dm, k) <= from,
        axis_at(from, to, dm, 0) == from,
        axis_at(from, to, dm, dm) == to,
        axis_unit_step(from, to, dm, axis_at(from, to, dm, k - 1), axis_at(from, to, dm, k)),
        abs_int(to - from) == dm ==> axis_at(from, to, dm, k) != from,
{
    let d = abs_int(to - from);
    let s = axis_sign(from, to);
    let n0 = axis_steps(d, dm, k - 1);
    let n1 = axis_steps(d, dm, k);
    lemma_axis_steps_zero(d, dm);
    lemma_axis_steps_bounds(d, dm, k);
    lemma_axis_steps_bounds(d, dm, k - 1);
    lemma_axis_steps_delta(d, dm, k - 1);
    assert(s * 0 == 0) by (nonlinear_arith);
    assert(s * d == to - from) by (nonlinear_arith)
        requires
            s == axis_sign(from, to),
            d == abs_int(to - from),
    ;
    assert(s * n1 == n1 || s * n1 == -n1) by (nonlinear_arith)
        requires
            s == 1 || s == -1,
    ;
    assert(s * n0 == n0 || s * n0 == -n0) by (nonlinear_arith)
        requires
            s == 1 || s == -1,
    ;
}

/// The points of a segment, one at a time: the `k`-th point is a unit step
/// from the one before it, is not the start, and the last one is the end.
pub proof fn lemma_line3d_point(start: Point3, end: Point3, k: int)
    requires
        line3d_valid(start, end),
        1 <= k <= line3d_len(start, end),
    ensures
        line3d_point(start, end, 0) == start,
        line3d_point(start, end, line3d_len(start, end)) == end,
        line3d_point(start, end, k) != start,
        line3d_unit_step(start, end, line3d_point(start, end, k - 1), line3d_point(start, end, k)),
{
    let dm = line3d_len(start, end);
    lemma_axis_at(start.0 as int, end.0 as int, dm, k);
    lemma_axis_at(start.1 as int, end.1 as int, dm, k);
    lemma_axis_at(start.2 as int, end.2 as int, dm, k);
    if k > 1 {
        lemma_axis_at(start.0 as int, end.0 as int, dm, k - 1);
        lemma_axis_at(start.1 as int, end.1 as int, dm, k - 1);
        lemma_axis_at(start.2 as int, end.2 as int, dm, k - 1);
    }
}

/// How far, in units of `1 / dm` of a step, the coordinate `cur` of an axis
/// is from where the true line from `from` to `to` stands after `k` of `dm`
/// steps.
pub open spec fn axis_error(from: int, to: int, dm: int, k: int, cur: int) -> int {
    abs_int((cur - from) * dm - k * (to - from))
}

/// Every point of a segment lies within half a step of the true line on
/// every axis.
pub proof fn lemma_line3d_nearest(start: Point3, end: Point3, k: int)
    requires
        line3d_valid(start, end),
        1 <= k <= line3d_len(start, end),
    ensures
        ({
            let dm = line3d_len(start, end);
            let p = line3d_point(start, end, k);
            &&& 2 * axis_error(start.0 as int, end.0 as int, dm, k, p.0 as int) <= dm
            &&& 2 * axis_error(start.1 as int, end.1 as int, dm, k, p.1 as int) <= dm
            &&& 2 * axis_error(start.2 as int, end.2 as int, dm, k, p.2 as int) <= dm
        }),
{
    let dm = line3d_len(start, end);
    lemma_axis_at(start.0 as int, end.0 as int, dm, k);
    lemma_axis_at(start.1 as int, end.1 as int, dm, k);
    lemma_axis_at(start.2 as int, end.2 as int, dm, k);
    lemma_axis_nearest(start.0 as int, end.0 as int, dm, k);
    lemma_axis_nearest(start.1 as int, end.1 as int, dm, k);
    lemma_axis_nearest(start.2 as int, end.2 as int, dm, k);
}

/// On one axis, the coordinate after `k` steps lies within half a step of
/// the true line.
proof fn lemma_axis_nearest(from: int, to: int, dm: int, k: int)
    requires
        abs_int(to - from) <= dm,
        1 <= k <= dm,
    ensures
        2 * axis_error(from, to, dm, k, axis_at(from, to, dm, k)) <= dm,
{
    let d = abs_int(to - from);
    let s = axis_sign(from, to);
    let n = axis_steps(d, dm, k);
    lemma_axis_steps_nearest(d, dm, k);
    assert(s * d == to - from) by (nonlinear_arith)
        requires
            s == axis_sign(from, to),
            d == abs_int(to - from),
    ;
    assert((s * n) * dm - k * (s * d) == s * (n * dm - k * d)) by (nonlinear_arith);
    assert(abs_int(s * (n * dm - k * d)) == abs_int(n * dm - k * d)) by (nonlinear_arith)
        requires
            s == 1 || s == -1,
    ;
}

/// The sequence a segment yields has as many points as its longest axis has
/// steps, ends at the end point, never holds the start point, and moves by a
/// unit step on every longest axis from each point to the next, the first
/// point being one such step from the start.
pub proof fn lemma_line3d_points(start: Point3, end: Point3)
    requires
        line3d_valid(start, end),
    ensures
        line3d_points(start, end).len() == line3d_len(start, end),
        line3d_len(start, end) > 0 ==> line3d_points(start, end).last() == end,
        !line3d_points(start, end).contains(start),
        line3d_len(start, end) > 0 ==> line3d_unit_step(
            start,
            end,
            start,
            line3d_points(start, end)[0],
        ),
        forall|j: int|
            1 <= j < line3d_len(start, end) ==> line3d_unit_step(
                start,
                end,
                line3d_points(start, end)[j - 1],
                #[trigger] line3d_points(start, end)[j],
            ),
{
    let pts = line3d_points(start, end);
    let len = line3d_len(start, end);
    if len > 0 {
        lemma_line3d_point(start, end, len);
        lemma_line3d_point(start, end, 1);
    }
    assert forall|j: int| 0 <= j < len implies #[trigger] pts[j] != start by {
        lemma_line3d_point(start, end, j + 1);
    }
    assert forall|j: int| 1 <= j < len implies line3d_unit_step(
        start,
        end,
        pts[j - 1],
        #[trigger] pts[j],
    ) by {
        lemma_line3d_point(start, end, j + 1);
    }
}

/// Rasteriser of a segment in space. It yields the grid points from the one
/// after `start` up to and including `end`.
#[derive(Copy, Clone, Debug)]
pub struct Line3D {
    /// Extent along each axis.
    d: Vec3<i32>,
    /// Direction along each axis, `1` or `-1`.
    s: Vec3<i32>,
    /// Extent of the longest axis.
    dm: i32,
    /// The point emitted last.
    out: Vec3<i32>,
    /// Points still to be emitted.
    i: i32,
    /// Error accumulator of each axis.
    err_oft: Vec3<i32>,
}

/// The coordinate an axis started from, recovered from its state after `k`
/// steps.
spec fn axis_from(d: int, s: int, out: int, dm: int, k: int) -> int {
    out - s * axis_steps(d, dm, k)
}

/// The coordinate an axis is heading for, recovered from its state after `k`
/// steps.
spec fn axis_to(d: int, s: int, out: int, dm: int, k: int) -> int {
    out + s * (d - axis_steps(d, dm, k))
}

/// What the state of one axis must satisfy after `k` steps.
#[verifier::opaque]
spec fn axis_inv(d: int, s: int, out: int, err: int, dm: int, k: int) -> bool {
    let n = axis_steps(d, dm, k);
    let from = axis_from(d, s, out, dm, k);
    let to = axis_to(d, s, out, dm, k);
    &&& 0 <= d <= dm
    &&& (s == 1 || s == -1)
    &&& s == axis_sign(from, to)
    &&& 0 <= err
    &&& (dm > 0 ==> err < dm)
    &&& err == dm / 2 - k * d + n * dm
    &&& i32::MIN <= from <= i32::MAX
    &&& i32::MIN <= to <= i32::MAX
}

/// The accumulator of an axis after one more step.
spec fn axis_err_next(d: int, err: int, dm: int) -> int {
    if err - d < 0 {
        err - d + dm
    } else {
        err - d
    }
}

/// The coordinate of an axis after one more step.
spec fn axis_out_next(d: int, s: int, out: int, err: int) -> int {
    if err - d < 0 {
        out + s
    } else {
        out
    }
}

/// The state of an axis before the first step.
proof fn lemma_axis_inv_initial(from: int, to: int, dm: int)
    requires
        abs_int(to - from) <= dm,
        i32::MIN <= from <= i32::MAX,
        i32::MIN <= to <= i32::MAX,
    ensures
        axis_inv(abs_int(to - from), axis_sign(from, to), from, dm / 2, dm, 0),
        axis_from(abs_int(to - from), axis_sign(from, to), from, dm, 0) == from,
        axis_to(abs_int(to - from), axis_sign(from, to), from, dm, 0) == to,
{
    reveal(axis_inv);
    let d = abs_int(to - from);
    let s = axis_sign(from, to);
    lemma_axis_steps_zero(d, dm);
    assert(0 * d == 0) by (nonlinear_arith);
    assert(0 * dm == 0) by (nonlinear_arith);
    assert(s * 0 == 0) by (nonlinear_arith);
    assert(s * (d - 0) == to - from) by (nonlinear_arith)
        requires
            s == axis_sign(from, to),
            d == abs_int(to - from),
    ;
}

/// What a valid axis state says in plain terms: the accumulator is in range,
/// the direction is a unit, the end points are representable and as far
/// apart as the extent says.
proof fn lemma_axis_inv_facts(d: int, s: int, out: int, err: int, dm: int, k: int)
    requires
        axis_inv(d, s, out, err, dm, k),
    ensures
        0 <= d <= dm,
        s == 1 || s == -1,
        0 <= err,
        dm > 0 ==> err < dm,
        i32::MIN <= axis_from(d, s, out, dm, k) <= i32::MAX,
        i32::MIN <= axis_to(d, s, out, dm, k) <= i32::MAX,
        s == axis_sign(axis_from(d, s, out, dm, k), axis_to(d, s, out, dm, k)),
        d == abs_int(axis_to(d, s, out, dm, k) - axis_from(d, s, out, dm, k)),
{
    reveal(axis_inv);
    let n = axis_steps(d, dm, k);
    let from = axis_from(d, s, out, dm, k);
    let to = axis_to(d, s, out, dm, k);
    assert(to - from == s * d) by (nonlinear_arith)
        requires
            from == out - s * n,
            to == out + s * (d - n),
    ;
    assert(s * d == d || s * d == -d) by (nonlinear_arith)
        requires
            s == 1 || s == -1,
    ;
}

/// One step of the rasteriser on one axis: the accumulator is lowered by the
/// extent of the axis, and when it underflows it is restored and the axis
/// moves. The state stays valid, the end points stay the same, and the new
/// coordinate is the one the closed form gives.
proof fn lemma_axis_inv_step(d: int, s: int, out: int, err: int, dm: int, k: int)
    requires
        axis_inv(d, s, out, err, dm, k),
        dm > 0,
        0 <= k < dm,
    ensures
        ({
            let err2 = axis_err_next(d, err, dm);
            let out2 = axis_out_next(d, s, out, err);
            let from = axis_from(d, s, out, dm, k);
            let to = axis_to(d, s, out, dm, k);
            &&& axis_inv(d, s, out2, err2, dm, k + 1)
            &&& axis_from(d, s, out2, dm, k + 1) == from
            &&& axis_to(d, s, out2, dm, k + 1) == to
            &&& out2 == axis_at(from, to, dm, k + 1)
            &&& i32::MIN <= out2 <= i32::MAX
            &&& -dm <= err - d < dm
        }),
{
    lemma_axis_inv_facts(d, s, out, err, dm, k);
    reveal(axis_inv);
    let n = axis_steps(d, dm, k);
    let n2 = axis_steps(d, dm, k + 1);
    let w: int = if err - d < 0 {
        1
    } else {
        0
    };
    lemma_axis_steps_next(d, dm, k, err);
    lemma_axis_steps_bounds(d, dm, k + 1);
    assert(n2 == n + w);
    assert(n2 * dm == n * dm + w * dm) by (nonlinear_arith)
        requires
            n2 == n + w,
    ;
    assert((k + 1) * d == k * d + d) by (nonlinear_arith);
    assert(s * n2 == s * n + w * s) by (nonlinear_arith)
        requires
            n2 == n + w,
    ;
    assert(s * (d - n2) == s * (d - n) - w * s) by (nonlinear_arith)
        requires
            n2 == n + w,
    ;
    assert(s * n2 == n2 || s * n2 == -n2) by (nonlinear_arith)
        requires
            s == 1 || s == -1,
    ;
}

impl Line3D {
    #[verifier::type_invariant]
    spec fn inv(self) -> bool {
        let k = self.dm - self.i;
        &&& 0 <= self.i <= self.dm
        &&& self.dm == max_int(max_int(self.d.0 as int, self.d.1 as int), self.d.2 as int)
        &&& axis_inv(
            self.d.0 as int,
            self.s.0 as int,
            self.out.0 as int,
            self.err_oft.0 as int,
            self.dm as int,
            k,
        )
        &&& axis_inv(
            self.d.1 as int,
            self.s.1 as int,
            self.out.1 as int,
            self.err_oft.1 as int,
            self.dm as int,
            k,
        )
        &&& axis_inv(
            self.d.2 as int,
            self.s.2 as int,
            self.out.2 as int,
            self.err_oft.2 as int,
            self.dm as int,
            k,
        )
    }

    /// The number of points emitted so far.
    pub closed spec fn emitted(self) -> int {
        self.dm - self.i
    }

    /// The point the segment starts from.
    pub closed spec fn start(self) -> Point3 {
        let k = self.dm - self.i;
        let dm = self.dm as int;
        Vec3(
            axis_from(self.d.0 as int, self.s.0 as int, self.out.0 as int, dm, k) as i32,
            axis_from(self.d.1 as int, self.s.1 as int, self.out.1 as int, dm, k) as i32,
            axis_from(self.d.2 as int, self.s.2 as int, self.out.2 as int, dm, k) as i32,
        )
    }

    /// The point the segment ends at.
    pub closed spec fn end(self) -> Point3 {
        let k = self.dm - self.i;
        let dm = self.dm as int;
        Vec3(
            axis_to(self.d.0 as int, self.s.0 as int, self.out.0 as int, dm, k) as i32,
            axis_to(self.d.1 as int, self.s.1 as int, self.out.1 as int, dm, k) as i32,
            axis_to(self.d.2 as int, self.s.2 as int, self.out.2 as int, dm, k) as i32,
        )
    }

    /// The state after one more step.
    spec fn stepped(self) -> Line3D {
        let dm = self.dm as int;
        Line3D {
            d: self.d,
            s: self.s,
            dm: self.dm,
            out: Vec3(
                axis_out_next(
                    self.d.0 as int,
                    self.s.0 as int,
                    self.out.0 as int,
                    self.err_oft.0 as int,
                ) as i32,
                axis_out_next(
                    self.d.1 as int,
                    self.s.1 as int,
                    self.out.1 as int,
                    self.err_oft.1 as int,
                ) as i32,
                axis_out_next(
                    self.d.2 as int,
                    self.s.2 as int,
                    self.out.2 as int,
                    self.err_oft.2 as int,
                ) as i32,
            ),
            i: (self.i - 1) as i32,
            err_oft: Vec3(
                axis_err_next(self.d.0 as int, self.err_oft.0 as int, dm) as i32,
                axis_err_next(self.d.1 as int, self.err_oft.1 as int, dm) as i32,
                axis_err_next(self.d.2 as int, self.err_oft.2 as int, dm) as i32,
            ),
        }
    }

    /// The extent of the longest axis is the length of the segment.
    proof fn lemma_len(self)
        requires
            self.inv(),
        ensures
            self.dm == line3d_len(self.start(), self.end()),
            0 <= self.emitted() <= self.dm,
            line3d_valid(self.start(), self.end()),
    {
        let k = self.dm - self.i;
        let dm = self.dm as int;
        lemma_axis_inv_facts(
            self.d.0 as int,
            self.s.0 as int,
            self.out.0 as int,
            self.err_oft.0 as int,
            dm,
            k,
        );
        lemma_axis_inv_facts(
            self.d.1 as int,
            self.s.1 as int,
            self.out.1 as int,
            self.err_oft.1 as int,
            dm,
            k,
        );
        lemma_axis_inv_facts(
            self.d.2 as int,
            self.s.2 as int,
            self.out.2 as int,
            self.err_oft.2 as int,
            dm,
            k,
        );
    }

    /// A step keeps the state valid and the end points fixed, and lands on
    /// the point the closed form gives. No intermediate value leaves the
    /// machine range.
    proof fn lemma_step(self)
        requires
            self.inv(),
            self.i > 0,
        ensures
            self.stepped().inv(),
            self.stepped().start() == self.start(),
            self.stepped().end() == self.end(),
            self.stepped().emitted() == self.emitted() + 1,
            self.stepped().out == line3d_point(self.start(), self.end(), self.emitted() + 1),
            -self.dm <= self.err_oft.0 - self.d.0 < self.dm,
            -self.dm <= self.err_oft.1 - self.d.1 < self.dm,
            -self.dm <= self.err_oft.2 - self.d.2 < self.dm,
            self.err_oft.0 - self.d.0 < 0 ==> i32::MIN <= self.out.0 + self.s.0 <= i32::MAX,
            self.err_oft.1 - self.d.1 < 0 ==> i32::MIN <= self.out.1 + self.s.1 <= i32::MAX,
            self.err_oft.2 - self.d.2 < 0 ==> i32::MIN <= self.out.2 + self.s.2 <= i32::MAX,
    {
        let k = self.dm - self.i;
        let dm = self.dm as int;
        self.lemma_len();
        lemma_axis_inv_step(
            self.d.0 as int,
            self.s.0 as int,
            self.out.0 as int,
            self.err_oft.0 as int,
            dm,
            k,
        );
        lemma_axis_inv_step(
            self.d.1 as int,
            self.s.1 as int,
            self.out.1 as int,
            self.err_oft.1 as int,
            dm,
            k,
        );
        lemma_axis_inv_step(
            self.d.2 as int,
            self.s.2 as int,
            self.out.2 as int,
            self.err_oft.2 as int,
            dm,
            k,
        );
        lemma_axis_inv_facts(
            self.d.0 as int,
            self.s.0 as int,
            self.out.0 as int,
            self.err_oft.0 as int,
            dm,
            k,
        );
        lemma_axis_inv_facts(
            self.d.1 as int,
            self.s.1 as int,
            self.out.1 as int,
            self.err_oft.1 as int,
            dm,
            k,
        );
        lemma_axis_inv_facts(
            self.d.2 as int,
            self.s.2 as int,
            self.out.2 as int,
            self.err_oft.2 as int,
            dm,
            k,
        );
    }

    /// Starts a segment from `start` to `end`.
    #[inline]
    pub fn new(start: Point3, end: Point3) -> (r: Self)
        requires
            line3d_valid(start, end),
        ensures
            r.start() == start,
            r.end() == end,
            r.emitted() == 0,
    {
        let s: Vec3<i32> = Vec3::new(
            if start.0 < end.0 {
                1
            } else {
                -1
            },
            if start.1 < end.1 {
                1
            } else {
                -1
            },
            if start.2 < end.2 {
                1
            } else {
                -1
            },
        );
        let d = (end - start).abs();
        let dm = d.max_element();
        let err_oft: Vec3<i32> = Vec3::new(dm / 2, dm / 2, dm / 2);
        proof {
            lemma_axis_inv_initial(start.0 as int, end.0 as int, dm as int);
            lemma_axis_inv_initial(start.1 as int, end.1 as int, dm as int);
            lemma_axis_inv_initial(start.2 as int, end.2 as int, dm as int);
        }
        Line3D { d, s, dm, i: dm, out: start, err_oft }
    }

    /// The number of points of the whole segment, emitted or not.
    pub fn len(&self) -> (r: usize)
        ensures
            r == line3d_len(self.start(), self.end()),
    {
        proof {
            use_type_invariant(self);
            self.lemma_len();
        }
        self.dm as usize
    }

    /// Emits the next point of the segment, or `None` once the end point has
    /// been emitted.
    #[inline]
    pub fn next(&mut self) -> (r: Option<Point3>)
        ensures
            final(self).start() == old(self).start(),
            final(self).end() == old(self).end(),
            0 <= old(self).emitted() <= line3d_len(old(self).start(), old(self).end()),
            old(self).emitted() < line3d_len(old(self).start(), old(self).end()) ==> {
                &&& final(self).emitted() == old(self).emitted() + 1
                &&& r == Some(
                    line3d_point(old(self).start(), old(self).end(), old(self).emitted() + 1),
                )
            },
            old(self).emitted() == line3d_len(old(self).start(), old(self).end()) ==> {
                &&& r is None
                &&& *final(self) == *old(self)
            },
    {
        proof {
            use_type_invariant(&*self);
            self.lemma_len();
        }
        if self.i == 0 {
            return None;
        }
        proof {
            self.lemma_step();
        }
        let mut err = self.err_oft - self.d;
        let mut out = self.out;
        if err.0 < 0 {
            err.0 += self.dm;
            out.0 += self.s.0;
        }
        if err.1 < 0 {
            err.1 += self.dm;
            out.1 += self.s.1;
        }
        if err.2 < 0 {
            err.2 += self.dm;
            out.2 += self.s.2;
        }
        let next = Line3D { d: self.d, s: self.s, dm: self.dm, out, i: self.i - 1, err_oft: err };
        assert(next == old(self).stepped());
        *self = next;
        Some(out)
    }

    /// Emits all remaining points of the segment, in order.
    pub fn collect(self) -> (r: Vec<Point3>)
        ensures
            0 <= self.emitted() <= line3d_len(self.start(), self.end()),
            r@ == line3d_points(self.start(), self.end()).skip(self.emitted()),
    {
        let mut line = self;
        let mut points: Vec<Point3> = Vec::new();
        let ghost all = line3d_points(self.start(), self.end());
        proof {
            use_type_invariant(&line);
            line.lemma_len();
        }
        loop
            invariant_except_break
                line.start() == self.start(),
                line.end() == self.end(),
                all == line3d_points(self.start(), self.end()),
                self.emitted() <= line.emitted() <= all.len(),
                0 <= self.emitted(),
                points@ == all.subrange(self.emitted(), line.emitted()),
            ensures
                0 <= self.emitted() <= all.len(),
                points@ == all.skip(self.emitted()),
            decreases all.len() - line.emitted(),
        {
            match line.next() {
                Some(p) => {
                    points.push(p);
                },
                None => {
                    break ;
                },
            }
        }
        points
    }
}

} // verus!
