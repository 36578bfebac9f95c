//! Rasterisation of straight segments in the plane on the integer step grid.
//!
//! [`Line2D`] reduces every segment to one that points right and rises by no
//! more than it advances, walks that one, and maps each point back. The start
//! point is emitted, the end point is not.

use crate::vecx::{abs_int, fits_i32, max_int, Point, Vec2};
use vstd::arithmetic::div_mod::lemma_fundamental_div_mod_converse;
use vstd::prelude::*;

verus! {

/// A pair of mathematical integers read from a grid point.
pub open spec fn point_int(p: Point) -> Vec2<int> {
    Vec2(p.0 as int, p.1 as int)
}

/// The grid point with the given coordinates.
pub open spec fn int_point(p: Vec2<int>) -> Point {
    Vec2(p.0 as i32, p.1 as i32)
}

/// Both coordinates are representable as `i32`.
pub open spec fn fits_point(p: Vec2<int>) -> bool {
    fits_i32(p.0) && fits_i32(p.1)
}

/// The octant, counted counter-clockwise from the positive x axis, in which
/// the direction `(dx, dy)` lies. Each octant holds its first boundary and
/// not its last; the zero direction counts as octant 0.
pub open spec fn octant_of(dx: int, dy: int) -> int {
    if dy >= 0 {
        if dx >= 0 {
            if dx >= dy {
                0
            } else {
                1
            }
        } else if dy >= -dx {
            2
        } else {
            3
        }
    } else if dx <= 0 {
        if dx <= dy {
            4
        } else {
            5
        }
    } else if dx <= -dy {
        6
    } else {
        7
    }
}

/// The rotation or reflection that carries octant `oct` onto octant 0.
pub open spec fn to_octant0_int(oct: int, p: Vec2<int>) -> Vec2<int> {
    if oct == 0 {
        Vec2(p.0, p.1)
    } else if oct == 1 {
        Vec2(p.1, p.0)
    } else if oct == 2 {
        Vec2(p.1, -p.0)
    } else if oct == 3 {
        Vec2(-p.0, p.1)
    } else if oct == 4 {
        Vec2(-p.0, -p.1)
    } else if oct == 5 {
        Vec2(-p.1, -p.0)
    } else if oct == 6 {
        Vec2(-p.1, p.0)
    } else {
        Vec2(p.0, -p.1)
    }
}

/// The rotation or reflection that carries octant 0 onto octant `oct`.
pub open spec fn from_octant0_int(oct: int, p: Vec2<int>) -> Vec2<int> {
    if oct == 0 {
        Vec2(p.0, p.1)
    } else if oct == 1 {
        Vec2(p.1, p.0)
    } else if oct == 2 {
        Vec2(-p.1, p.0)
    } else if oct == 3 {
        Vec2(-p.0, p.1)
    } else if oct == 4 {
        Vec2(-p.0, -p.1)
    } else if oct == 5 {
        Vec2(-p.1, -p.0)
    } else if oct == 6 {
        Vec2(p.1, -p.0)
    } else {
        Vec2(p.0, -p.1)
    }
}

/// The two octant maps undo each other.
pub proof fn lemma_octant_roundtrip(oct: int, p: Vec2<int>)
    ensures
        from_octant0_int(oct, to_octant0_int(oct, p)) == p,
        to_octant0_int(oct, from_octant0_int(oct, p)) == p,
{
}

/// Carried to octant 0 by the map of its own octant, a direction points
/// right and rises by no more than it advances.
pub proof fn lemma_octant0_direction(dx: int, dy: int)
    ensures
        ({
            let d0 = to_octant0_int(octant_of(dx, dy), Vec2(dx, dy));
            &&& 0 <= d0.1 <= d0.0
            &&& d0.0 == max_int(abs_int(dx), abs_int(dy))
        }),
        0 <= octant_of(dx, dy) < 8,
{
}

/// One of the eight octants of the plane.
pub struct Octant(u8);

impl Octant {
    #[verifier::type_invariant]
    spec fn inv(self) -> bool {
        self.0 < 8
    }

    /// The number of the octant, from 0 to 7.
    pub closed spec fn index(self) -> int {
        self.0 as int
    }

    /// The octant of the direction from `start` to `end`.
    #[inline]
    pub fn from_points(start: Point, end: Point) -> (r: Octant)
        requires
            abs_int(end.0 - start.0) <= i32::MAX,
            abs_int(end.1 - start.1) <= i32::MAX,
        ensures
            r.index() == octant_of(end.0 - start.0, end.1 - start.1),
            0 <= r.index() < 8,
    {
        let mut dx: i32 = end.0 - start.0;
        let mut dy: i32 = end.1 - start.1;
        let mut octant: u8 = 0;
        if dy < 0 {
            dx = -dx;
            dy = -dy;
            octant += 4;
        }
        if dx < 0 {
            let tmp: i32 = dx;
            dx = dy;
            dy = -tmp;
            octant += 2
        }
        if dx < dy {
            octant += 1
        }
        Octant(octant)
    }

    /// Carries a point of this octant to octant 0. The image must be
    /// representable.
    #[inline]
    pub fn to_octant0(&self, p: Point) -> (r: Point)
        requires
            fits_point(to_octant0_int(self.index(), point_int(p))),
        ensures
            point_int(r) == to_octant0_int(self.index(), point_int(p)),
            0 <= self.index() < 8,
    {
        proof {
            use_type_invariant(self);
        }
        match self.0 {
            0 => Point::new(p.0, p.1),
            1 => Point::new(p.1, p.0),
            2 => Point::new(p.1, -p.0),
            3 => Point::new(-p.0, p.1),
            4 => Point::new(-p.0, -p.1),
            5 => Point::new(-p.1, -p.0),
            6 => Point::new(-p.1, p.0),
            _ => Point::new(p.0, -p.1),
        }
    }

    /// Carries a point of octant 0 to this octant. The image must be
    /// representable.
    #[inline]
    pub fn from_octant0(&self, p: Point) -> (r: Point)
        requires
            fits_point(from_octant0_int(self.index(), point_int(p))),
        ensures
            point_int(r) == from_octant0_int(self.index(), point_int(p)),
            0 <= self.index() < 8,
    {
        proof {
            use_type_invariant(self);
        }
        match self.0 {
            0 => Point::new(p.0, p.1),
            1 => Point::new(p.1, p.0),
            2 => Point::new(-p.1, p.0),
            3 => Point::new(-p.0, p.1),
            4 => Point::new(-p.0, -p.1),
            5 => Point::new(-p.1, -p.0),
            6 => Point::new(p.1, -p.0),
            _ => Point::new(p.0, -p.1),
        }
    }
}

/// How many unit steps the minor axis has taken after `k` steps of a line
/// that rises `dmin` while advancing `dmaj`: the true rise rounded down.
pub open spec fn minor_steps(dmin: int, dmaj: int, k: int) -> int {
    if dmaj <= 0 {
        0
    } else {
        (k * dmin) / dmaj
    }
}

/// A planar segment can be rasterised when its extent along both axes is
/// representable and so are its end points when they are carried to
/// octant 0 by the map of the octant of its direction.
pub open spec fn line2d_valid(start: Point, end: Point) -> bool {
    let oct = octant_of(end.0 - start.0, end.1 - start.1);
    &&& abs_int(end.0 - start.0) <= i32::MAX
    &&& abs_int(end.1 - start.1) <= i32::MAX
    &&& fits_point(to_octant0_int(oct, point_int(start)))
    &&& fits_point(to_octant0_int(oct, point_int(end)))
}

/// The number of points of the planar segment: the extent of its longer
/// axis.
pub open spec fn line2d_len(start: Point, end: Point) -> int {
    max_int(abs_int(end.0 - start.0), abs_int(end.1 - start.1))
}

/// The point of the planar segment with index `k`; index 0 is the start.
/// Seen in octant 0 the point has advanced `k` steps and risen by the true
/// rise rounded down.
pub open spec fn line2d_point(start: Point, end: Point, k: int) -> Point {
    let d = Vec2(end.0 - start.0, end.1 - start.1);
    let oct = octant_of(d.0, d.1);
    let s0 = to_octant0_int(oct, point_int(start));
    let d0 = to_octant0_int(oct, d);
    int_point(from_octant0_int(oct, Vec2(s0.0 + k, s0.1 + minor_steps(d0.1, d0.0, k))))
}

/// All points of the planar segment in order: the start is the first one,
/// the end is left out.
pub open spec fn line2d_points(start: Point, end: Point) -> Seq<Point> {
    Seq::new(line2d_len(start, end) as nat, |j: int| line2d_point(start, end, j))
}

/// The minor axis never rises more than the line has advanced nor more than
/// its own extent.
pub proof fn lemma_minor_steps_bounds(dmin: int, dmaj: int, k: int)
    requires
        0 <= dmin <= dmaj,
        0 <= k <= dmaj,
    ensures
        0 <= minor_steps(dmin, dmaj, k) <= dmin,
        minor_steps(dmin, dmaj, k) <= k,
        minor_steps(dmin, dmaj, 0) == 0,
        minor_steps(dmin, dmaj, dmaj) == dmin,
{
    if dmaj > 0 {
        let x = k * dmin;
        let m = minor_steps(dmin, dmaj, k);
        assert(0 <= k * dmin <= dmaj * dmin && k * dmin <= k * dmaj) by (nonlinear_arith)
            requires
                0 <= dmin <= dmaj,
                0 <= k <= dmaj,
        ;
        vstd::arithmetic::div_mod::lemma_fundamental_div_mod(x, dmaj);
        vstd::arithmetic::div_mod::lemma_mod_bound(x, dmaj);
        assert(0 <= m <= dmin && m <= k) by (nonlinear_arith)
            requires
                dmaj > 0,
                dmaj * m <= x < dmaj * m + dmaj,
                0 <= x,
                x <= dmaj * dmin,
                x <= k * dmaj,
        ;
        assert(0 * dmin == 0) by (nonlinear_arith);
        lemma_fundamental_div_mod_converse(0, dmaj, 0, 0);
        assert(dmaj * dmin == dmin * dmaj) by (nonlinear_arith);
        lemma_fundamental_div_mod_converse(dmaj * dmin, dmaj, dmin, 0);
    }
}

/// The point of a planar segment with index `k`, seen in octant 0: it has
/// advanced `k` steps from the start and risen no further than the end.
proof fn lemma_line2d_point(start: Point, end: Point, k: int)
    requires
        line2d_valid(start, end),
        0 <= k <= line2d_len(start, end),
    ensures
        ({
            let oct = octant_of(end.0 - start.0, end.1 - start.1);
            let s0 = to_octant0_int(oct, point_int(start));
            let e0 = to_octant0_int(oct, point_int(end));
            let at0 = to_octant0_int(oct, point_int(line2d_point(start, end, k)));
            &&& e0.0 - s0.0 == line2d_len(start, end)
            &&& at0.0 == s0.0 + k
            &&& s0.1 <= at0.1 <= e0.1
            &&& k == 0 ==> at0 == s0
            &&& k == line2d_len(start, end) ==> at0 == e0
        }),
{
    let d = Vec2(end.0 - start.0, end.1 - start.1);
    let oct = octant_of(d.0, d.1);
    let s0 = to_octant0_int(oct, point_int(start));
    let e0 = to_octant0_int(oct, point_int(end));
    let d0 = to_octant0_int(oct, d);
    let q0 = Vec2(s0.0 + k, s0.1 + minor_steps(d0.1, d0.0, k));
    lemma_octant0_direction(d.0, d.1);
    assert(d0 == Vec2(e0.0 - s0.0, e0.1 - s0.1));
    lemma_minor_steps_bounds(d0.1, d0.0, k);
    lemma_octant_roundtrip(oct, q0);
    let q = from_octant0_int(oct, q0);
    assert(point_int(int_point(q)) == q);
}

/// The sequence a planar segment yields has as many points as its longer
/// axis has steps, starts at the start point and stops one step short of the
/// end point, which it never holds.
pub proof fn lemma_line2d_points(start: Point, end: Point)
    requires
        line2d_valid(start, end),
    ensures
        line2d_points(start, end).len() == line2d_len(start, end),
        line2d_len(start, end) > 0 ==> line2d_points(start, end)[0] == start,
        line2d_point(start, end, line2d_len(start, end)) == end,
        !line2d_points(start, end).contains(end),
{
    let pts = line2d_points(start, end);
    let len = line2d_len(start, end);
    let oct = octant_of(end.0 - start.0, end.1 - start.1);
    lemma_line2d_point(start, end, 0);
    lemma_line2d_point(start, end, len);
    lemma_octant_roundtrip(oct, point_int(start));
    lemma_octant_roundtrip(oct, point_int(end));
    lemma_octant_roundtrip(oct, point_int(line2d_point(start, end, 0)));
    lemma_octant_roundtrip(oct, point_int(line2d_point(start, end, len)));
    assert forall|j: int| 0 <= j < len implies #[trigger] pts[j] != end by {
        lemma_line2d_point(start, end, j);
    }
}

/// One more step either keeps the rise of the minor axis or raises it by
/// one, and the decision variable tells which and is carried along.
proof fn lemma_minor_steps_next(dy: int, dx: int, k: int, diff: int)
    requires
        dx > 0,
        0 <= dy <= dx,
        0 <= k,
        diff == dy - dx + k * dy - minor_steps(dy, dx, k) * dx,
    ensures
        dy - dx <= diff < dy,
        diff >= 0 ==> minor_steps(dy, dx, k + 1) == minor_steps(dy, dx, k) + 1,
        diff < 0 ==> minor_steps(dy, dx, k + 1) == minor_steps(dy, dx, k),
        diff >= 0 ==> diff - dx + dy == dy - dx + (k + 1) * dy - minor_steps(dy, dx, k + 1) * dx,
        diff < 0 ==> diff + dy == dy - dx + (k + 1) * dy - minor_steps(dy, dx, k + 1) * dx,
{
    let x = k * dy;
    let m = minor_steps(dy, dx, k);
    let r = x % dx;
    assert(0 <= k * dy) by (nonlinear_arith)
        requires
            0 <= k,
            0 <= dy,
    ;
    vstd::arithmetic::div_mod::lemma_fundamental_div_mod(x, dx);
    vstd::arithmetic::div_mod::lemma_mod_bound(x, dx);
    assert(dx * m == m * dx) by (nonlinear_arith);
    assert(diff == dy - dx + r);
    assert((k + 1) * dy == k * dy + dy) by (nonlinear_arith);
    if diff >= 0 {
        assert((m + 1) * dx == m * dx + dx) by (nonlinear_arith);
        lemma_fundamental_div_mod_converse(x + dy, dx, m + 1, r + dy - dx);
    } else {
        lemma_fundamental_div_mod_converse(x + dy, dx, m, r + dy);
    }
}

/// Rasteriser of a segment in the plane. It yields the grid points from
/// `start` up to, and not including, `end`.
pub struct Line2D {
    /// Current point, seen in octant 0.
    x: i32,
    y: i32,
    /// Extent along both axes, seen in octant 0.
    dx: i32,
    dy: i32,
    /// Where the walk stops, seen in octant 0.
    x1: i32,
    /// Decision variable: the minor axis moves when it is not negative.
    diff: i32,
    /// The octant of the direction of the segment.
    octant: Octant,
}

/// The rise of the minor axis at the current point.
spec fn planar_rise(x: int, dx: int, dy: int, x1: int) -> int {
    minor_steps(dy, dx, x - (x1 - dx))
}

/// The start of the segment, seen in octant 0.
spec fn planar_start0(x: int, y: int, dx: int, dy: int, x1: int) -> Vec2<int> {
    Vec2(x1 - dx, y - planar_rise(x, dx, dy, x1))
}

/// The end of the segment, seen in octant 0.
spec fn planar_end0(x: int, y: int, dx: int, dy: int, x1: int) -> Vec2<int> {
    Vec2(x1, y - planar_rise(x, dx, dy, x1) + dy)
}

/// What the state of the planar rasteriser must satisfy.
#[verifier::opaque]
spec fn planar_inv(x: int, y: int, dx: int, dy: int, x1: int, diff: int, oct: int) -> bool {
    let k = x - (x1 - dx);
    let m = planar_rise(x, dx, dy, x1);
    let s0 = planar_start0(x, y, dx, dy, x1);
    let e0 = planar_end0(x, y, dx, dy, x1);
    let d = from_octant0_int(oct, Vec2(dx, dy));
    &&& 0 <= oct < 8
    &&& 0 <= dy <= dx
    &&& 0 <= k <= dx
    &&& diff == dy - dx + k * dy - m * dx
    &&& fits_point(s0)
    &&& fits_point(e0)
    &&& fits_point(from_octant0_int(oct, s0))
    &&& fits_point(from_octant0_int(oct, e0))
    &&& oct == octant_of(d.0, d.1)
}

/// The state right after construction is valid and recovers the end points.
proof fn lemma_planar_inv_initial(start: Point, end: Point)
    requires
        line2d_valid(start, end),
    ensures
        ({
            let d = Vec2(end.0 - start.0, end.1 - start.1);
            let oct = octant_of(d.0, d.1);
            let s0 = to_octant0_int(oct, point_int(start));
            let e0 = to_octant0_int(oct, point_int(end));
            let dx = e0.0 - s0.0;
            let dy = e0.1 - s0.1;
            &&& planar_inv(s0.0, s0.1, dx, dy, e0.0, dy - dx, oct)
            &&& planar_start0(s0.0, s0.1, dx, dy, e0.0) == s0
            &&& planar_end0(s0.0, s0.1, dx, dy, e0.0) == e0
            &&& 0 <= dy <= dx <= i32::MAX
        }),
{
    reveal(planar_inv);
    let d = Vec2(end.0 - start.0, end.1 - start.1);
    let oct = octant_of(d.0, d.1);
    let s0 = to_octant0_int(oct, point_int(start));
    let e0 = to_octant0_int(oct, point_int(end));
    let dx = e0.0 - s0.0;
    let dy = e0.1 - s0.1;
    lemma_octant0_direction(d.0, d.1);
    assert(to_octant0_int(oct, d) == Vec2(dx, dy));
    lemma_octant_roundtrip(oct, d);
    lemma_minor_steps_bounds(dy, dx, 0);
    assert(0 * dy == 0) by (nonlinear_arith);
    assert(0 * dx == 0) by (nonlinear_arith);
}

/// What a valid state says in plain terms.
proof fn lemma_planar_inv_facts(x: int, y: int, dx: int, dy: int, x1: int, diff: int, oct: int)
    requires
        planar_inv(x, y, dx, dy, x1, diff, oct),
    ensures
        ({
            let s0 = planar_start0(x, y, dx, dy, x1);
            let e0 = planar_end0(x, y, dx, dy, x1);
            let s = from_octant0_int(oct, s0);
            let e = from_octant0_int(oct, e0);
            &&& 0 <= oct < 8
            &&& 0 <= dy <= dx
            &&& x1 - dx <= x <= x1
            &&& i32::MIN <= s0.0 <= e0.0 <= i32::MAX
            &&& i32::MIN <= s0.1 <= e0.1 <= i32::MAX
            &&& s0.1 <= y <= e0.1
            &&& fits_point(s)
            &&& fits_point(e)
            &&& fits_point(from_octant0_int(oct, Vec2(x, y)))
            &&& oct == octant_of(e.0 - s.0, e.1 - s.1)
            &&& to_octant0_int(oct, Vec2(e.0 - s.0, e.1 - s.1)) == Vec2(dx, dy)
            &&& dx == max_int(abs_int(e.0 - s.0), abs_int(e.1 - s.1))
        }),
{
    reveal(planar_inv);
    let s0 = planar_start0(x, y, dx, dy, x1);
    let e0 = planar_end0(x, y, dx, dy, x1);
    let s = from_octant0_int(oct, s0);
    let e = from_octant0_int(oct, e0);
    lemma_minor_steps_bounds(dy, dx, x - (x1 - dx));
    let d = from_octant0_int(oct, Vec2(dx, dy));
    assert(d == Vec2(e.0 - s.0, e.1 - s.1));
    lemma_octant_roundtrip(oct, Vec2(dx, dy));
    lemma_octant0_direction(d.0, d.1);
}

/// One step of the planar rasteriser keeps the state valid and the end
/// points fixed, and no intermediate value leaves the machine range.
proof fn lemma_planar_inv_step(x: int, y: int, dx: int, dy: int, x1: int, diff: int, oct: int)
    requires
        planar_inv(x, y, dx, dy, x1, diff, oct),
        x < x1,
    ensures
        ({
            let y2 = if diff >= 0 {
                y + 1
            } else {
                y
            };
            let diff2 = if diff >= 0 {
                diff - dx + dy
            } else {
                diff + dy
            };
            &&& planar_inv(x + 1, y2, dx, dy, x1, diff2, oct)
            &&& planar_start0(x + 1, y2, dx, dy, x1) == planar_start0(x, y, dx, dy, x1)
            &&& planar_end0(x + 1, y2, dx, dy, x1) == planar_end0(x, y, dx, dy, x1)
            &&& y == planar_start0(x, y, dx, dy, x1).1 + minor_steps(dy, dx, x - (x1 - dx))
            &&& i32::MIN <= y <= y2 <= i32::MAX
            &&& i32::MIN <= x < i32::MAX
            &&& fits_point(from_octant0_int(oct, Vec2(x, y)))
            &&& dy - dx <= diff < dy
            &&& 0 <= dy <= dx
        }),
{
    lemma_planar_inv_facts(x, y, dx, dy, x1, diff, oct);
    reveal(planar_inv);
    let k = x - (x1 - dx);
    lemma_minor_steps_next(dy, dx, k, diff);
    lemma_minor_steps_bounds(dy, dx, k + 1);
}

impl Line2D {
    #[verifier::type_invariant]
    spec fn inv(self) -> bool {
        planar_inv(
            self.x as int,
            self.y as int,
            self.dx as int,
            self.dy as int,
            self.x1 as int,
            self.diff as int,
            self.octant.index(),
        )
    }

    /// The number of points emitted so far.
    pub closed spec fn emitted(self) -> int {
        self.x - (self.x1 - self.dx)
    }

    /// The point the segment starts from.
    pub closed spec fn start(self) -> Point {
        int_point(
            from_octant0_int(
                self.octant.index(),
                planar_start0(
                    self.x as int,
                    self.y as int,
                    self.dx as int,
                    self.dy as int,
                    self.x1 as int,
                ),
            ),
        )
    }

    /// The point the segment ends at.
    pub closed spec fn end(self) -> Point {
        int_point(
            from_octant0_int(
                self.octant.index(),
                planar_end0(
                    self.x as int,
                    self.y as int,
                    self.dx as int,
                    self.dy as int,
                    self.x1 as int,
                ),
            ),
        )
    }

    /// The state after one more step.
    spec fn stepped(self) -> Line2D {
        Line2D {
            x: (self.x + 1) as i32,
            y: if self.diff >= 0 {
                (self.y + 1) as i32
            } else {
                self.y
            },
            dx: self.dx,
            dy: self.dy,
            x1: self.x1,
            diff: if self.diff >= 0 {
                (self.diff - self.dx + self.dy) as i32
            } else {
                (self.diff + self.dy) as i32
            },
            octant: self.octant,
        }
    }

    /// The state determines a valid segment, its length and how far the
    /// walk has come.
    proof fn lemma_view(self)
        requires
            self.inv(),
        ensures
            line2d_valid(self.start(), self.end()),
            self.dx == line2d_len(self.start(), self.end()),
            0 <= self.emitted() <= self.dx,
            self.x1 - self.x == line2d_len(self.start(), self.end()) - self.emitted(),
            self.octant.index() == octant_of(
                self.end().0 - self.start().0,
                self.end().1 - self.start().1,
            ),
    {
        lemma_planar_inv_facts(
            self.x as int,
            self.y as int,
            self.dx as int,
            self.dy as int,
            self.x1 as int,
            self.diff as int,
            self.octant.index(),
        );
    }

    /// A step keeps the state valid and the end points fixed; the point
    /// left behind is the one the closed form gives.
    proof fn lemma_step(self)
        requires
            self.inv(),
            self.x < self.x1,
        ensures
            self.stepped().inv(),
            self.stepped().start() == self.start(),
            self.stepped().end() == self.end(),
            self.stepped().emitted() == self.emitted() + 1,
            int_point(from_octant0_int(self.octant.index(), Vec2(self.x as int, self.y as int)))
                == line2d_point(self.start(), self.end(), self.emitted()),
            fits_point(
                from_octant0_int(self.octant.index(), Vec2(self.x as int, self.y as int)),
            ),
            self.diff >= 0 ==> self.y < i32::MAX,
            self.x < i32::MAX,
            self.dy - self.dx <= self.diff < self.dy,
            0 <= self.dy <= self.dx,
    {
        let oct = self.octant.index();
        lemma_planar_inv_step(
            self.x as int,
            self.y as int,
            self.dx as int,
            self.dy as int,
            self.x1 as int,
            self.diff as int,
            oct,
        );
        lemma_planar_inv_facts(
            self.x as int,
            self.y as int,
            self.dx as int,
            self.dy as int,
            self.x1 as int,
            self.diff as int,
            oct,
        );
        let s0 = planar_start0(
            self.x as int,
            self.y as int,
            self.dx as int,
            self.dy as int,
            self.x1 as int,
        );
        lemma_octant_roundtrip(oct, s0);
    }

    /// Starts a segment from `start` to `end`.
    #[inline]
    pub fn new(start: Point, end: Point) -> (r: Line2D)
        requires
            line2d_valid(start, end),
        ensures
            r.start() == start,
            r.end() == end,
            r.emitted() == 0,
    {
        let octant = Octant::from_points(start, end);
        let ghost oct = octant.index();
        let ghost s = start;
        let ghost e = end;
        proof {
            lemma_planar_inv_initial(s, e);
            lemma_octant_roundtrip(oct, point_int(s));
            lemma_octant_roundtrip(oct, point_int(e));
        }
        let start = octant.to_octant0(start);
        let end = octant.to_octant0(end);
        let dx: i32 = end.0 - start.0;
        let dy: i32 = end.1 - start.1;
        Line2D { x: start.0, y: start.1, dx, dy, x1: end.0, diff: dy - dx, octant }
    }

    /// The number of points still to be emitted.
    pub fn len(&self) -> (r: i32)
        ensures
            r == line2d_len(self.start(), self.end()) - self.emitted(),
            r >= 0,
    {
        proof {
            use_type_invariant(self);
            self.lemma_view();
        }
        self.x1 - self.x
    }

    /// Emits the next point of the segment, or `None` once the point before
    /// the end has been emitted.
    #[inline]
    pub fn next(&mut self) -> (r: Option<Point>)
        ensures
            final(self).start() == old(self).start(),
            final(self).end() == old(self).end(),
            0 <= old(self).emitted() <= line2d_len(old(self).start(), old(self).end()),
            old(self).emitted() < line2d_len(old(self).start(), old(self).end()) ==> {
                &&& final(self).emitted() == old(self).emitted() + 1
                &&& r == Some(line2d_point(old(self).start(), old(self).end(), old(self).emitted()))
            },
            old(self).emitted() == line2d_len(old(self).start(), old(self).end()) ==> {
                &&& r is None
                &&& *final(self) == *old(self)
            },
    {
        proof {
            use_type_invariant(&*self);
            self.lemma_view();
        }
        if self.x >= self.x1 {
            return None;
        }
        proof {
            self.lemma_step();
        }
        let p = Point::new(self.x, self.y);
        let mut y: i32 = self.y;
        let mut diff: i32 = self.diff;
        if diff >= 0 {
            y += 1;
            diff -= self.dx;
        }
        diff += self.dy;
        let r = self.octant.from_octant0(p);
        let next = Line2D {
            x: self.x + 1,
            y,
            dx: self.dx,
            dy: self.dy,
            x1: self.x1,
            diff,
            octant: Octant(self.octant.0),
        };
        assert(next == old(self).stepped());
        *self = next;
        Some(r)
    }

    /// Emits all remaining points of the segment, in order.
    pub fn collect(self) -> (r: Vec<Point>)
        ensures
            0 <= self.emitted() <= line2d_len(self.start(), self.end()),
            r@ == line2d_points(self.start(), self.end()).skip(self.emitted()),
    {
        let ghost from = self.emitted();
        let ghost all = line2d_points(self.start(), self.end());
        let ghost s = self.start();
        let ghost e = self.end();
        let mut line = self;
        let mut points: Vec<Point> = Vec::new();
        proof {
            use_type_invariant(&line);
            line.lemma_view();
        }
        loop
            invariant_except_break
                line.start() == s,
                line.end() == e,
                all == line2d_points(s, e),
                0 <= from <= line.emitted() <= all.len(),
                points@ == all.subrange(from, line.emitted()),
            ensures
                0 <= from <= all.len(),
                points@ == all.skip(from),
            decreases all.len() - line.emitted(),
        {
            match line.next() {
                Some(p) => {
                    points.push(p);
                },
                None => {
                    break ;
                },
            }
        }
        points
    }
}

} // verus!
