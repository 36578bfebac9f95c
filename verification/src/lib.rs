//! Motion-planning primitives on the integer step grid of a CNC machine.
//!
//! * [`vecx`]: coordinate tuples, their arithmetic on the step grid, and the
//!   permutation of axes between the working planes.
//! * [`line3d`], [`line2d`]: rasterisation of straight segments.
//! * [`arc`]: which chord points of an arc are rotated approximately, which
//!   exactly, and when the target is reached.
//! * [`lookahead`]: the look-ahead planner with its queue, its planned mark
//!   and the two passes of a recalculation.
//! * [`reachability`]: what the arithmetic behind a recalculation has to do
//!   for the plan to come out right, and the proof that it then does.
//! * [`profile`]: the mode decision of a trapezoidal ramp.
//!
//! The contracts state what each function computes; the proofs also rule
//! out overflow and panics.

pub mod arc;
pub mod line2d;
pub mod line3d;
pub mod lookahead;
pub mod profile;
pub mod reachability;
pub mod vecx;

pub use line2d::{Line2D, Octant};
pub use line3d::Line3D;
pub use lookahead::{Direction, Planer};
pub use vecx::{CanonPlane, Point, Point3, Vec2, Vec3, Vec5};
