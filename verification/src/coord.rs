//! 2D panel positions, in exact tenths of a panel unit.
//!
//! Every pad coordinate the layouts use is a multiple of 0.1 panels, so
//! positions are stored as scaled integers and all geometry below is exact.

use vstd::prelude::*;
use crate::angle::{spec_bearing, spec_unwrap, bearing, unwrap_angle, ANGLE_LIMIT, PI_U};
use crate::fixed::{spec_isqrt, isqrt};

verus! {

/// Largest coordinate magnitude a layout can supply, in tenths.
pub const COORD_LIMIT: i64 = 1_000;

/// A point on the pad plane.  `x` and `y` are in tenths of a panel.
#[derive(Copy, Clone, Debug, PartialEq, Eq, Structural)]
pub struct Coord {
    pub x: i64,
    pub y: i64,
}

impl Coord {
    /// Coordinates small enough that every derived quantity fits easily.
    pub open spec fn wf(self) -> bool {
        &&& -COORD_LIMIT <= self.x <= COORD_LIMIT
        &&& -COORD_LIMIT <= self.y <= COORD_LIMIT
    }

    /// Squared distance in hundredths-of-a-panel squared (tenths squared).
    pub open spec fn spec_dist_sq(self, other: Coord) -> int {
        let dx = other.x - self.x;
        let dy = other.y - self.y;
        dx * dx + dy * dy
    }

    /// Distance in hundredths of a panel, rounded down.
    pub open spec fn spec_dist(self, other: Coord) -> int {
        spec_isqrt((self.spec_dist_sq(other) * 100) as nat) as int
    }

    /// Squared distance between two points, in tenths squared.  Exact.
    pub fn dist_sq(&self, other: &Coord) -> (r: i64)
        requires
            self.wf(),
            other.wf(),
        ensures
            r == self.spec_dist_sq(*other),
            0 <= r <= 8_000_000,
    {
        let dx = other.x - self.x;
        let dy = other.y - self.y;
        proof {
            assert(0 <= dx * dx <= 4_000_000 && 0 <= dy * dy <= 4_000_000) by (nonlinear_arith)
                requires -2_000 <= dx <= 2_000, -2_000 <= dy <= 2_000;
        }
        dx * dx + dy * dy
    }

    /// Euclidean distance to `other`, in hundredths of a panel, rounded
    /// down to an integer.  Exact whenever the true distance is a whole
    /// number of hundredths (in particular on whole-panel separations).
    pub fn dist(&self, other: &Coord) -> (r: i64)
        requires
            self.wf(),
            other.wf(),
        ensures
            r == self.spec_dist(*other),
            0 <= r <= 30_000,
    {
        let sq = self.dist_sq(other);
        let n = (sq as u64) * 100;
        let r = isqrt(n);
        proof {
            if r > 30_000 {
                assert(r * r > 30_000u64 * 30_000u64) by (nonlinear_arith)
                    requires r > 30_000u64;
            }
        }
        r as i64
    }

    /// Squared distance is symmetric, and zero exactly on equal points.
    pub proof fn lemma_dist_sq_symmetric(a: Coord, b: Coord)
        ensures
            a.spec_dist_sq(b) == b.spec_dist_sq(a),
            a.spec_dist_sq(b) == 0 <==> a == b,
    {
        let dx = b.x - a.x;
        let dy = b.y - a.y;
        assert(dx * dx == (a.x - b.x) * (a.x - b.x)) by (nonlinear_arith)
            requires dx == b.x - a.x;
        assert(dy * dy == (a.y - b.y) * (a.y - b.y)) by (nonlinear_arith)
            requires dy == b.y - a.y;
        assert(dx * dx >= 0 && dy * dy >= 0) by (nonlinear_arith);
        if dx * dx + dy * dy == 0 {
            assert(dx == 0 && dy == 0) by (nonlinear_arith)
                requires dx * dx + dy * dy == 0;
        }
        if a == b {
            assert(dx * dx + dy * dy == 0) by (nonlinear_arith)
                requires dx == 0, dy == 0;
        }
    }

    /// Distance is symmetric — `dist(a, b) == dist(b, a)` — and the
    /// distance from a point to itself is zero.
    pub proof fn lemma_dist_symmetric(a: Coord, b: Coord)
        ensures
            a.spec_dist(b) == b.spec_dist(a),
            a.spec_dist(a) == 0,
    {
        Self::lemma_dist_sq_symmetric(a, b);
        Self::lemma_dist_sq_symmetric(a, a);
        assert(spec_isqrt(0) == 0);
    }

    /// The continuity-preserving bearing from `self` to `other`: congruent
    /// to the raw bearing of the separation vector modulo a full turn, and
    /// the unique such value in `(prev_angle - PI_U, prev_angle + PI_U]`.
    pub open spec fn spec_angle(self, other: Coord, prev_angle: int) -> int {
        spec_unwrap(spec_bearing(other.y - self.y, other.x - self.x), prev_angle)
    }

    /// Bearing from `self` to `other`, unwrapped to be continuous with
    /// `prev_angle` rather than jumping across the seam at +/- pi.
    pub fn angle(&self, other: &Coord, prev_angle: i64) -> (r: i64)
        requires
            self.wf(),
            other.wf(),
            -ANGLE_LIMIT <= prev_angle <= ANGLE_LIMIT,
        ensures
            r == self.spec_angle(*other, prev_angle as int),
            prev_angle - PI_U < r <= prev_angle + PI_U,
    {
        let raw = bearing(other.y - self.y, other.x - self.x);
        unwrap_angle(raw, prev_angle)
    }
}

} // verus!
