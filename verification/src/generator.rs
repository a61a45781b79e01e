//! The step-selection engine: per-foot state, hard-constraint filtering,
//! soft probability weighting, and seeded random selection.

use vstd::prelude::*;
use rand::rngs::StdRng;
use crate::angle::{PI_U, PI_2_U, ANGLE_LIMIT};
use crate::coord::Coord;
use crate::fixed::{ONE_Q32, WEIGHT_CAP, spec_mul_q32, spec_pow_q32, mul_q32, pow_q32, floor_div};
use crate::angle::UNITS_PER_RAD;
use crate::foot::Foot;
use crate::params::GeneratorParameters;
use crate::rng::{rng_from_seed, rng_bool, rng_below};
use crate::style::Style;

verus! {

/// Bound on zone x positions, in tenths of a panel.
pub const ZONE_X_LIMIT: i64 = 1_000_000;

/// The seed used when none is configured.  Construction never draws from
/// the environment: a caller that wants nondeterminism supplies its own
/// entropy-derived seed, and the chart conversion derives one from the
/// chart's content hash.
pub const DEFAULT_SEED: u64 = 0x5ee0_0f00_7514_7721;

/// Per-foot history: the last two columns danced, the run length of the
/// current repeat, and the input column that produced the last choice.
#[derive(Copy, Clone, Debug)]
pub struct FootStatus {
    pub last_last_col: Option<i8>,
    pub last_col: Option<i8>,
    pub repeated: i32,
    pub last_input_col: Option<i8>,
}

impl FootStatus {
    /// A foot that has not stepped yet.
    pub open spec fn spec_empty() -> FootStatus {
        FootStatus { last_last_col: None, last_col: None, repeated: 0, last_input_col: None }
    }

    /// Fresh per-foot history.
    pub fn empty() -> (r: FootStatus)
        ensures
            r == FootStatus::spec_empty(),
    {
        FootStatus { last_last_col: None, last_col: None, repeated: 0, last_input_col: None }
    }

    /// Columns recorded in the history are valid for the style.
    pub open spec fn wf(self, style: Style) -> bool {
        &&& (match self.last_col {
            Some(c) => 0 <= c < style.spec_num_cols(),
            None => true,
        })
        &&& (match self.last_last_col {
            Some(c) => 0 <= c < style.spec_num_cols(),
            None => true,
        })
        &&& 0 <= self.repeated
    }

    /// The history after this foot steps on `col` for input `input_col`:
    /// the repeat counter grows on a repeat (saturating) and resets to one
    /// otherwise, and the column memory shifts.
    pub open spec fn spec_stepped(self, col: i8, input_col: i8) -> FootStatus {
        FootStatus {
            last_last_col: self.last_col,
            last_col: Some(col),
            repeated: if self.last_col == Some(col) {
                if self.repeated < 0x7fff_ffff {
                    (self.repeated + 1) as i32
                } else {
                    self.repeated
                }
            } else {
                1
            },
            last_input_col: Some(input_col),
        }
    }
}

/// A horizontal drift corridor: linear travel from `start_x` to `end_x`
/// (tenths of a panel) over `total_move_steps` steps, with
/// `steps_until_end` still to go.
#[derive(Copy, Clone, Debug)]
pub struct Zone {
    pub start_x: i64,
    pub end_x: i64,
    pub total_move_steps: i32,
    pub steps_until_end: i32,
}

impl Zone {
    /// Machine bounds and a coherent countdown.
    pub open spec fn wf(self) -> bool {
        &&& 1 <= self.total_move_steps
        &&& 0 <= self.steps_until_end <= self.total_move_steps
        &&& -ZONE_X_LIMIT <= self.start_x <= ZONE_X_LIMIT
        &&& -ZONE_X_LIMIT <= self.end_x <= ZONE_X_LIMIT
    }

    /// One committed step consumes one unit of the countdown.
    pub fn step(&mut self)
        requires
            old(self).steps_until_end > -0x7fff_ffff,
        ensures
            *final(self) == (Zone { steps_until_end: (old(self).steps_until_end - 1) as i32,
                ..*old(self) }),
    {
        self.steps_until_end = self.steps_until_end - 1;
    }

    /// Whether the corridor has been fully traversed.
    pub fn is_done(&self) -> (r: bool)
        ensures
            r == (self.steps_until_end <= 0),
    {
        self.steps_until_end <= 0
    }

    /// Where along the corridor the drift target currently sits: linear
    /// interpolation by elapsed steps, in tenths, rounded down.
    pub open spec fn spec_current_x(self) -> int {
        let delta = self.end_x - self.start_x;
        let elapsed = self.total_move_steps - self.steps_until_end;
        self.start_x + (delta * elapsed) / (self.total_move_steps as int)
    }

    /// The interpolated x never leaves the corridor.
    pub proof fn lemma_current_x_bounds(self)
        requires
            self.wf(),
        ensures
            self.start_x <= self.end_x ==> self.start_x <= self.spec_current_x() <= self.end_x,
            self.start_x > self.end_x ==> self.end_x <= self.spec_current_x() <= self.start_x,
    {
        let delta = self.end_x - self.start_x;
        let elapsed = self.total_move_steps - self.steps_until_end;
        let t = self.total_move_steps as int;
        if delta >= 0 {
            assert(0 <= delta * elapsed <= delta * t) by (nonlinear_arith)
                requires 0 <= elapsed <= t, delta >= 0;
            vstd::arithmetic::div_mod::lemma_div_pos_is_pos(delta * elapsed, t);
            vstd::arithmetic::div_mod::lemma_div_is_ordered(delta * elapsed, delta * t, t);
            vstd::arithmetic::div_mod::lemma_div_multiples_vanish(delta, t);
            assert(delta * t == t * delta) by (nonlinear_arith);
        } else {
            assert(delta * t <= delta * elapsed <= 0) by (nonlinear_arith)
                requires 0 <= elapsed <= t, delta < 0;
            vstd::arithmetic::div_mod::lemma_div_is_ordered(delta * t, delta * elapsed, t);
            assert((delta * elapsed) / t <= 0) by {
                vstd::arithmetic::div_mod::lemma_fundamental_div_mod(delta * elapsed, t);
                vstd::arithmetic::div_mod::lemma_mod_division_less_than_divisor(
                    delta * elapsed, t);
                if (delta * elapsed) / t > 0 {
                    assert(t * ((delta * elapsed) / t) >= t) by (nonlinear_arith)
                        requires (delta * elapsed) / t >= 1, t >= 1;
                }
            }
            vstd::arithmetic::div_mod::lemma_div_multiples_vanish(delta, t);
            assert(delta * t == t * delta) by (nonlinear_arith);
        }
    }

    /// The current drift x, exactly as `spec_current_x` describes.
    pub fn current_x(&self) -> (r: i64)
        requires
            self.wf(),
        ensures
            r == self.spec_current_x(),
            -ZONE_X_LIMIT <= r <= ZONE_X_LIMIT,
    {
        proof {
            self.lemma_current_x_bounds();
        }
        let delta = self.end_x - self.start_x;
        let elapsed = (self.total_move_steps - self.steps_until_end) as i64;
        proof {
            assert(-0x4000_0000_0000_0000int < delta * elapsed
                && delta * elapsed < 0x4000_0000_0000_0000int) by (nonlinear_arith)
                requires -2_000_001 <= delta <= 2_000_001, 0 <= elapsed < 0x8000_0000;
        }
        let q = floor_div(delta * elapsed, self.total_move_steps as i64);
        self.start_x + q
    }
}

/// Why a step could not be generated.
#[derive(Copy, Clone, Debug)]
pub enum GenError {
    /// Every column was eliminated by the active hard constraints.  The
    /// context names the style, the foot that was to move, and both feet's
    /// recent history.
    NoValidColumns { style: Style, foot: Foot, left: FootStatus, right: FootStatus },
    /// All surviving candidates weighed exactly zero, so no draw was
    /// possible.
    ZeroTotalWeight { style: Style, foot: Foot },
    /// The committed angle drifted past the representable range — only
    /// reachable after an astronomically long run of full turns.
    AngleOutOfRange,
}

/// The stateful step generator for one chart-to-layout conversion.
pub struct Generator {
    pub style: Style,
    pub params: GeneratorParameters,
    pub rand: StdRng,
    pub left_status: FootStatus,
    pub right_status: FootStatus,
    pub next_foot: Foot,
    pub prev_angle: i64,
    pub zone: Zone,
}

impl Generator {
    /// The history of one foot.
    pub open spec fn spec_status(self, f: Foot) -> FootStatus {
        match f {
            Foot::Left => self.left_status,
            Foot::Right => self.right_status,
        }
    }

    /// The engine's invariant: parameters, histories, angle and zone all
    /// within the bounds its arithmetic is proved against.
    pub open spec fn wf(self) -> bool {
        &&& self.params.wf()
        &&& self.left_status.wf(self.style)
        &&& self.right_status.wf(self.style)
        &&& -ANGLE_LIMIT <= self.prev_angle <= ANGLE_LIMIT
        &&& self.zone.wf()
    }

    /// The history of the foot that steps next.
    pub fn next_foot_status(&self) -> (r: &FootStatus)
        ensures
            *r == self.spec_status(self.next_foot),
    {
        match self.next_foot {
            Foot::Left => &self.left_status,
            Foot::Right => &self.right_status,
        }
    }

    /// The history of the foot that stepped last.
    pub fn prev_foot_status(&self) -> (r: &FootStatus)
        ensures
            *r == self.spec_status(self.next_foot.spec_other()),
    {
        match self.next_foot {
            Foot::Left => &self.right_status,
            Foot::Right => &self.left_status,
        }
    }

    /// The step budget of a corridor of length `dist` (tenths) at `spd`
    /// steps per ten panels: proportional to the distance, rounded up, at
    /// least one, and capped to fit the countdown counter.
    pub open spec fn spec_zone_steps(dist: int, spd: int) -> int {
        let s = (dist * spd + 99) / 100;
        if s < 1 {
            1
        } else if s > 0x7fff_0000 {
            0x7fff_0000
        } else {
            s
        }
    }

    /// A step budget drawn for a corridor of length `dist`: the budget at
    /// some steps-per-distance between twelve and sixteen steps per panel.
    pub open spec fn spec_drawn_budget(total: int, dist: int) -> bool {
        exists|v: int| 120 <= v < 160 && total == #[trigger] Self::spec_zone_steps(dist, v)
    }

    /// Everything a freshly drawn drift corridor satisfies: it starts at
    /// `prev_x` with a full countdown; a degenerate layout gets a one-step
    /// corridor to the center; otherwise it heads for the far side (or the
    /// near edge when already past the center), with a budget of
    /// `spec_zone_steps` at the configured steps-per-distance or at one
    /// drawn from twelve to sixteen steps per panel.
    pub open spec fn spec_fresh_zone(z: Zone, style: Style, prev_x: int,
        override_dist_from_edge: Option<i64>, override_steps_per_dist: Option<i64>) -> bool {
        let dfe = match override_dist_from_edge {
            Some(v) => v as int,
            None => if style == Style::PumpDoubles || style == Style::PumpTriples {
                0int
            } else {
                5int
            },
        };
        let mx = style.spec_max_x_coord() - dfe;
        z.start_x == prev_x && z.steps_until_end == z.total_move_steps
        && if dfe >= mx {
            z.end_x == style.spec_center_x() && z.total_move_steps == 1
        } else {
            let dest = if prev_x < style.spec_center_x() {
                mx
            } else {
                dfe
            };
            let dist = if dest >= prev_x {
                dest - prev_x
            } else {
                prev_x - dest
            };
            z.end_x == dest && (match override_steps_per_dist {
                Some(v) => z.total_move_steps == Self::spec_zone_steps(dist, v as int),
                None => Self::spec_drawn_budget(z.total_move_steps as int, dist),
            })
        }
    }

    /// Draw a fresh drift corridor: from `prev_x` toward the far side of
    /// the layout (or the near edge), with a step budget proportional to
    /// the distance; degenerate layouts fall back to a one-step corridor
    /// to the center.
    pub fn rand_zone(
        rand: &mut StdRng,
        style: Style,
        prev_x: i64,
        override_dist_from_edge: Option<i64>,
        override_steps_per_dist: Option<i64>,
    ) -> (z: Zone)
        requires
            -ZONE_X_LIMIT <= prev_x <= ZONE_X_LIMIT,
            match override_dist_from_edge {
                Some(v) => 0 <= v <= crate::params::DIST_PARAM_LIMIT,
                None => true,
            },
            match override_steps_per_dist {
                Some(v) => 0 <= v <= crate::params::SPD_PARAM_LIMIT,
                None => true,
            },
        ensures
            z.wf(),
            Self::spec_fresh_zone(z, style, prev_x as int,
                override_dist_from_edge, override_steps_per_dist),
    {
        let dist_from_edge: i64 = match override_dist_from_edge {
            Some(v) => v,
            None => {
                if matches!(style, Style::PumpDoubles) || matches!(style, Style::PumpTriples) {
                    0
                } else {
                    5
                }
            }
        };
        let max = style.max_x_coord() - dist_from_edge;
        if dist_from_edge >= max {
            // empty or trivial corridor: default to the center
            return Zone {
                start_x: prev_x,
                end_x: style.center_x(),
                total_move_steps: 1,
                steps_until_end: 1,
            };
        }
        let x_dest = if prev_x < style.center_x() {
            max
        } else {
            dist_from_edge
        };
        let dist = if x_dest >= prev_x {
            x_dest - prev_x
        } else {
            prev_x - x_dest
        };
        let steps_per_dist: i64 = match override_steps_per_dist {
            Some(v) => v,
            None => 120 + rng_below(rand, 40) as i64,
        };
        // ceil(dist * steps_per_dist / 100), at least one step
        proof {
            assert((dist as int) * (steps_per_dist as int) <= 2_000_001int * 10_001)
                by (nonlinear_arith)
                requires 0 <= dist <= 2_000_001, 0 <= steps_per_dist <= 10_001;
        }
        let num = (dist as u64) * (steps_per_dist as u64);
        let move_steps_u = (num + 99) / 100;
        let move_steps: i32 = if move_steps_u < 1 {
            1
        } else if move_steps_u > 0x7fff_0000 {
            0x7fff_0000
        } else {
            move_steps_u as i32
        };
        let z = Zone {
            start_x: prev_x,
            end_x: x_dest,
            total_move_steps: move_steps,
            steps_until_end: move_steps,
        };
        proof {
            let dfe = match override_dist_from_edge {
                Some(v) => v as int,
                None => if style == Style::PumpDoubles || style == Style::PumpTriples {
                    0int
                } else {
                    5int
                },
            };
            let mx = style.spec_max_x_coord() - dfe;
            let dest = if (prev_x as int) < style.spec_center_x() {
                mx
            } else {
                dfe
            };
            let dist_spec = if dest >= prev_x as int {
                dest - prev_x
            } else {
                prev_x - dest
            };
            assert(dist as int == dist_spec);
            assert(z.total_move_steps as int
                == Self::spec_zone_steps(dist_spec, steps_per_dist as int));
            if override_steps_per_dist is None {
                assert(120 <= steps_per_dist < 160);
                assert(Self::spec_drawn_budget(z.total_move_steps as int, dist_spec));
            }
        }
        z
    }

    /// A fresh engine: empty foot histories, a starting foot drawn from
    /// the random stream, a zero committed angle, and a drift corridor
    /// seeded from the style's initial position.  The seed in `params`
    /// makes every draw reproducible; without one the engine falls back
    /// to `DEFAULT_SEED` rather than drawing from the environment.
    pub fn new(style: Style, params: GeneratorParameters) -> (g: Generator)
        requires
            params.wf(),
        ensures
            g.wf(),
            g.style == style,
            g.params == params,
            g.left_status == FootStatus::spec_empty(),
            g.right_status == FootStatus::spec_empty(),
            g.prev_angle == 0,
            Self::spec_fresh_zone(g.zone, style, style.spec_init_pos().x as int,
                params.doubles_dist_from_side, params.doubles_steps_per_dist),
    {
        let mut rand = match params.seed {
            Some(s) => rng_from_seed(s),
            None => rng_from_seed(DEFAULT_SEED),
        };
        let next_foot = if rng_bool(&mut rand) {
            Foot::Left
        } else {
            Foot::Right
        };
        let init = style.init_pos();
        let zone = Self::rand_zone(
            &mut rand,
            style,
            init.x,
            params.doubles_dist_from_side,
            params.doubles_steps_per_dist,
        );
        Generator {
            style,
            params,
            rand,
            left_status: FootStatus::empty(),
            right_status: FootStatus::empty(),
            next_foot,
            prev_angle: 0,
            zone,
        }
    }

    /// The unwrapped angle from the left foot's panel to the right
    /// foot's panel, continuous with the committed angle.
    pub open spec fn spec_feet_angle(self, lc: i8, rc: i8) -> int {
        self.style.spec_coord(lc as int).spec_angle(
            self.style.spec_coord(rc as int), self.prev_angle as int)
    }

    /// The body angle that placing the acting foot on `col` would give:
    /// known only once the other foot has a recorded column.
    pub open spec fn spec_test_angle(self, col: i8) -> Option<int> {
        match self.next_foot {
            Foot::Left => match self.right_status.last_col {
                Some(rc) => Some(self.spec_feet_angle(col, rc)),
                None => None,
            },
            Foot::Right => match self.left_status.last_col {
                Some(lc) => Some(self.spec_feet_angle(lc, col)),
                None => None,
            },
        }
    }

    /// Whether placing the acting foot on `col` is a crossover: the feet
    /// angle turned past a right angle in either direction.
    pub open spec fn spec_crossover(self, col: i8) -> bool {
        match self.spec_test_angle(col) {
            Some(a) => a > PI_2_U || a < -PI_2_U,
            None => false,
        }
    }

    /// The signed twist measured against the bar reference point: the
    /// difference of the two feet's bearings from the bar.
    pub open spec fn spec_bar_angle(self, col: i8) -> Option<int> {
        let bar = self.style.spec_bar_coord();
        match self.next_foot {
            Foot::Left => match self.right_status.last_col {
                Some(rc) => Some(
                    bar.spec_angle(self.style.spec_coord(col as int), PI_2_U as int)
                    - bar.spec_angle(self.style.spec_coord(rc as int), PI_2_U as int)),
                None => None,
            },
            Foot::Right => match self.left_status.last_col {
                Some(lc) => Some(
                    bar.spec_angle(self.style.spec_coord(lc as int), PI_2_U as int)
                    - bar.spec_angle(self.style.spec_coord(col as int), PI_2_U as int)),
                None => None,
            },
        }
    }

    /// The feet angle candidate `col` would commit, when computable.
    pub fn test_angle(&self, col: i8) -> (r: Option<i64>)
        requires
            self.wf(),
            0 <= col < self.style.spec_num_cols(),
        ensures
            match r {
                Some(a) => self.spec_test_angle(col) == Some(a as int)
                    && self.prev_angle - PI_U < a <= self.prev_angle + PI_U,
                None => self.spec_test_angle(col) is None,
            },
    {
        let (lc, rc) = match self.next_foot {
            Foot::Left => {
                match self.right_status.last_col {
                    Some(rc) => (col, rc),
                    None => { return None; }
                }
            }
            Foot::Right => {
                match self.left_status.last_col {
                    Some(lc) => (lc, col),
                    None => { return None; }
                }
            }
        };
        let l = self.style.coord(lc);
        let r = self.style.coord(rc);
        Some(l.angle(&r, self.prev_angle))
    }

    /// Whether candidate `col` is a crossover for the acting foot.
    pub fn test_crossover(&self, col: i8) -> (r: bool)
        requires
            self.wf(),
            0 <= col < self.style.spec_num_cols(),
        ensures
            r == self.spec_crossover(col),
    {
        match self.test_angle(col) {
            Some(a) => a > PI_2_U || a < -PI_2_U,
            None => false,
        }
    }

    /// The bar twist candidate `col` would give, when computable.
    pub fn test_bar_angle(&self, col: i8) -> (r: Option<i64>)
        requires
            self.wf(),
            0 <= col < self.style.spec_num_cols(),
        ensures
            match r {
                Some(a) => self.spec_bar_angle(col) == Some(a as int)
                    && -2 * PI_U <= a <= 2 * PI_U,
                None => self.spec_bar_angle(col) is None,
            },
    {
        let (lc, rc) = match self.next_foot {
            Foot::Left => {
                match self.right_status.last_col {
                    Some(rc) => (col, rc),
                    None => { return None; }
                }
            }
            Foot::Right => {
                match self.left_status.last_col {
                    Some(lc) => (lc, col),
                    None => { return None; }
                }
            }
        };
        let l = self.style.coord(lc);
        let r = self.style.coord(rc);
        let bar = self.style.bar_coord();
        let langle = bar.angle(&l, PI_2_U);
        let rangle = bar.angle(&r, PI_2_U);
        Some(langle - rangle)
    }

    /// The committed angle implied by the two feet's current columns,
    /// when both are known.
    pub open spec fn spec_cur_angle(self) -> Option<int> {
        match (self.left_status.last_col, self.right_status.last_col) {
            (Some(lc), Some(rc)) => Some(self.spec_feet_angle(lc, rc)),
            _ => None,
        }
    }

    /// Recompute the committed angle from both feet, when both are known.
    pub fn calc_cur_angle(&self) -> (r: Option<i64>)
        requires
            self.wf(),
        ensures
            match r {
                Some(a) => self.spec_cur_angle() == Some(a as int)
                    && self.prev_angle - PI_U < a <= self.prev_angle + PI_U,
                None => self.spec_cur_angle() is None,
            },
    {
        let lc = match self.left_status.last_col {
            Some(c) => c,
            None => { return None; }
        };
        let rc = match self.right_status.last_col {
            Some(c) => c,
            None => { return None; }
        };
        let l = self.style.coord(lc);
        let r = self.style.coord(rc);
        Some(l.angle(&r, self.prev_angle))
    }

    /// The hard-constraint filter: every enabled rule must pass for the
    /// candidate to survive.  Distance rules compare exactly on squared
    /// tenths, angle rules exactly on fixed angle units.
    ///
    /// Three rules deserve spelling out, because their names alone can
    /// mislead:
    /// - the crossover-conditioned caps (`..._if_crossover`) bind only
    ///   candidates that *are* crossovers: a candidate past the distance
    ///   cap survives as long as it is not a crossover;
    /// - the four-step horizontal cap is measured from the *other* foot's
    ///   second-previous column to the candidate (two placements of each
    ///   foot span four steps);
    /// - the wrong-half rule keeps the left foot off the rightmost extent
    ///   of the layout and the right foot off the leftmost column, rather
    ///   than confining each foot to its own half.
    pub open spec fn spec_is_valid_col(self, col: i8) -> bool {
        let nf = self.spec_status(self.next_foot);
        let pf = self.spec_status(self.next_foot.spec_other());
        let c = self.style.spec_coord(col as int);
        &&& !(self.params.disallow_footswitch && pf.last_col == Some(col))
        &&& (match self.params.max_repeated {
            Some(mr) => !(nf.last_col == Some(col) && nf.repeated >= mr),
            None => true,
        })
        &&& (match (self.params.max_dist_between_feet, pf.last_col) {
            (Some(md), Some(pc)) =>
                self.style.spec_coord(pc as int).spec_dist_sq(c) <= md * md,
            _ => true,
        })
        &&& (match (self.params.max_dist_between_feet_if_crossover, pf.last_col) {
            (Some(md), Some(pc)) =>
                self.style.spec_coord(pc as int).spec_dist_sq(c) > md * md
                    ==> !self.spec_crossover(col),
            _ => true,
        })
        &&& (match (self.params.max_dist_between_steps, nf.last_col) {
            (Some(md), Some(nc)) =>
                self.style.spec_coord(nc as int).spec_dist_sq(c) <= md * md,
            _ => true,
        })
        &&& (match (self.params.max_horizontal_dist_between_steps, nf.last_col) {
            (Some(md), Some(nc)) => {
                let dx = self.style.spec_coord(nc as int).x - c.x;
                -md <= dx <= md
            },
            _ => true,
        })
        &&& (match (self.params.max_horizontal_dist_between_steps_if_crossover,
                nf.last_col) {
            (Some(md), Some(nc)) => {
                let dx = self.style.spec_coord(nc as int).x - c.x;
                !(-md <= dx <= md) ==> !self.spec_crossover(col)
            },
            _ => true,
        })
        &&& (match (self.params.max_vertical_dist_between_steps, nf.last_col) {
            (Some(md), Some(nc)) => {
                let dy = self.style.spec_coord(nc as int).y - c.y;
                -md <= dy <= md
            },
            _ => true,
        })
        &&& (match (self.params.max_horizontal_dist_between_4_steps_both_feet,
                pf.last_last_col) {
            (Some(md), Some(pc)) => {
                let dx = self.style.spec_coord(pc as int).x - c.x;
                -md <= dx <= md
            },
            _ => true,
        })
        &&& (match (self.params.max_angle, self.spec_test_angle(col)) {
            (Some(ma), Some(a)) => -ma <= a <= ma,
            _ => true,
        })
        &&& (match (self.params.max_turn, self.spec_test_angle(col)) {
            (Some(mt), Some(a)) => -mt <= a - self.prev_angle <= mt,
            _ => true,
        })
        &&& (match (self.params.max_bar_angle, self.spec_bar_angle(col)) {
            (Some(ma), Some(a)) => -a <= ma,
            _ => true,
        })
        &&& (self.params.disallow_foot_opposite_side ==> match self.next_foot {
            Foot::Left => c.x < self.style.spec_max_x_coord(),
            Foot::Right => c.x > 0,
        })
    }

    /// Whether candidate `col` passes every active hard constraint.
    pub fn is_valid_col(&self, col: i8) -> (r: bool)
        requires
            self.wf(),
            0 <= col < self.style.spec_num_cols(),
        ensures
            r == self.spec_is_valid_col(col),
    {
        let nf = *self.next_foot_status();
        let pf = *self.prev_foot_status();
        let c = self.style.coord(col);
        if self.params.disallow_footswitch {
            if opt_eq8(pf.last_col, col) {
                return false;
            }
        }
        if let Some(mr) = self.params.max_repeated {
            if opt_eq8(nf.last_col, col) && nf.repeated >= mr {
                return false;
            }
        }
        if let Some(md) = self.params.max_dist_between_feet {
            if let Some(pc) = pf.last_col {
                let prev_coord = self.style.coord(pc);
                if prev_coord.dist_sq(&c) > sq(md) {
                    return false;
                }
            }
        }
        if let Some(md) = self.params.max_dist_between_feet_if_crossover {
            if let Some(pc) = pf.last_col {
                let prev_coord = self.style.coord(pc);
                if prev_coord.dist_sq(&c) > sq(md) {
                    if self.test_crossover(col) {
                        return false;
                    }
                }
            }
        }
        if let Some(md) = self.params.max_dist_between_steps {
            if let Some(nc) = nf.last_col {
                let prev_coord = self.style.coord(nc);
                if prev_coord.dist_sq(&c) > sq(md) {
                    return false;
                }
            }
        }
        if let Some(md) = self.params.max_horizontal_dist_between_steps {
            if let Some(nc) = nf.last_col {
                let dx = self.style.coord(nc).x - c.x;
                if dx > md || dx < -md {
                    return false;
                }
            }
        }
        if let Some(md) = self.params.max_horizontal_dist_between_steps_if_crossover {
            if let Some(nc) = nf.last_col {
                let dx = self.style.coord(nc).x - c.x;
                if dx > md || dx < -md {
                    if self.test_crossover(col) {
                        return false;
                    }
                }
            }
        }
        if let Some(md) = self.params.max_vertical_dist_between_steps {
            if let Some(nc) = nf.last_col {
                let dy = self.style.coord(nc).y - c.y;
                if dy > md || dy < -md {
                    return false;
                }
            }
        }
        if let Some(md) = self.params.max_horizontal_dist_between_4_steps_both_feet {
            if let Some(pc) = pf.last_last_col {
                let dx = self.style.coord(pc).x - c.x;
                if dx > md || dx < -md {
                    return false;
                }
            }
        }
        if let Some(ma) = self.params.max_angle {
            if let Some(a) = self.test_angle(col) {
                if a > ma || a < -ma {
                    return false;
                }
            }
        }
        if let Some(mt) = self.params.max_turn {
            if let Some(a) = self.test_angle(col) {
                let turn = a - self.prev_angle;
                if turn > mt || turn < -mt {
                    return false;
                }
            }
        }
        if let Some(ma) = self.params.max_bar_angle {
            if let Some(a) = self.test_bar_angle(col) {
                if -a > ma {
                    return false;
                }
            }
        }
        if self.params.disallow_foot_opposite_side {
            match self.next_foot {
                Foot::Left => {
                    if c.x >= self.style.max_x_coord() {
                        return false;
                    }
                }
                Foot::Right => {
                    if c.x <= 0 {
                        return false;
                    }
                }
            }
        }
        true
    }

    /// All columns that pass every active hard constraint, in ascending
    /// order.  May be empty: the caller decides whether that is fatal.
    pub fn valid_cols(&self) -> (r: Vec<i8>)
        requires
            self.wf(),
        ensures
            forall|i: int| 0 <= i < r@.len() ==> {
                &&& 0 <= #[trigger] r@[i] < self.style.spec_num_cols()
                &&& self.spec_is_valid_col(r@[i])
            },
            forall|c: i8| 0 <= c < self.style.spec_num_cols() ==>
                (self.spec_is_valid_col(c) <==> r@.contains(c)),
            forall|i: int, j: int| 0 <= i < j < r@.len() ==> r@[i] < r@[j],
            r@.len() <= 27,
    {
        let n = self.style.num_cols();
        let mut r: Vec<i8> = Vec::new();
        let mut col: i8 = 0;
        while col < n
            invariant
                self.wf(),
                0 <= col <= n,
                n == self.style.spec_num_cols(),
                forall|i: int| 0 <= i < r@.len() ==> {
                    &&& 0 <= #[trigger] r@[i] < col
                    &&& self.spec_is_valid_col(r@[i])
                },
                forall|c: i8| 0 <= c < col ==>
                    (self.spec_is_valid_col(c) <==> r@.contains(c)),
                forall|i: int, j: int| 0 <= i < j < r@.len() ==> r@[i] < r@[j],
                r@.len() <= col,
            decreases n - col,
        {
            let ghost r0 = r@;
            if self.is_valid_col(col) {
                r.push(col);
            }
            proof {
                assert forall|c: i8| 0 <= c < col + 1 implies
                    (self.spec_is_valid_col(c) <==> r@.contains(c)) by {
                    if c == col {
                        if self.spec_is_valid_col(col) {
                            assert(r@[r0.len() as int] == col);
                            assert(r@.contains(col));
                        } else {
                            if r@.contains(col) {
                                let i = choose|i: int| 0 <= i < r@.len() && r@[i] == col;
                                assert(r0[i] == col);
                            }
                        }
                    } else {
                        if self.spec_is_valid_col(c) {
                            assert(r0.contains(c));
                            let i = choose|i: int| 0 <= i < r0.len() && r0[i] == c;
                            assert(r@[i] == c);
                            assert(r@.contains(c));
                        } else {
                            if r@.contains(c) {
                                let i = choose|i: int| 0 <= i < r@.len() && r@[i] == c;
                                assert(r0[i] == c);
                                assert(r0.contains(c));
                            }
                        }
                    }
                }
            }
            col = col + 1;
        }
        r
    }
}

impl Generator {
    /// Q16 exponent for a distance overshoot measured in hundredths of a
    /// panel: the overshoot in whole panels.
    pub open spec fn spec_exp_dist(over_centis: int) -> int {
        (over_centis * 0x10000) / 100
    }

    /// Q16 exponent for an angle overshoot measured in angle units: the
    /// overshoot in radians.
    pub open spec fn spec_exp_angle(over_units: int) -> int {
        (over_units * 0x10000) / (UNITS_PER_RAD as int)
    }

    /// A decay base raised to a distance overshoot.
    pub open spec fn spec_pow_dist(base: u64, over_centis: int) -> int {
        spec_pow_q32(base as int, Self::spec_exp_dist(over_centis))
    }

    /// A decay base raised to an angle overshoot.
    pub open spec fn spec_pow_angle(base: u64, over_units: int) -> int {
        spec_pow_q32(base as int, Self::spec_exp_angle(over_units))
    }

    /// Repeat penalty: a flat factor once this foot has repeated `col`
    /// beyond the threshold.
    pub open spec fn spec_f_repeat(self, col: i8) -> int {
        let nf = self.spec_status(self.next_foot);
        match self.params.repeated_decay {
            Some((thr, base)) => if nf.last_col == Some(col) && nf.repeated - thr > 0 {
                base as int
            } else {
                ONE_Q32 as int
            },
            None => ONE_Q32 as int,
        }
    }

    /// Penalty when the other foot has just repeated and this candidate
    /// would step onto this foot's own last column.
    pub open spec fn spec_f_other_repeat(self, col: i8) -> int {
        let nf = self.spec_status(self.next_foot);
        let pf = self.spec_status(self.next_foot.spec_other());
        match self.params.other_foot_repeat_decay {
            Some(base) => if pf.repeated > 1 && nf.last_col == Some(col) {
                base as int
            } else {
                ONE_Q32 as int
            },
            None => ONE_Q32 as int,
        }
    }

    /// Continuous penalty on the distance between the feet.
    pub open spec fn spec_f_dist_feet(self, col: i8) -> int {
        let pf = self.spec_status(self.next_foot.spec_other());
        let c = self.style.spec_coord(col as int);
        match (self.params.dist_between_feet_decay, pf.last_col) {
            (Some((thr, base)), Some(pc)) => {
                let over = self.style.spec_coord(pc as int).spec_dist(c) - 10 * thr;
                if over > 0 {
                    Self::spec_pow_dist(base, over)
                } else {
                    ONE_Q32 as int
                }
            },
            _ => ONE_Q32 as int,
        }
    }

    /// Continuous penalty on this foot's step distance.
    pub open spec fn spec_f_dist_steps(self, col: i8) -> int {
        let nf = self.spec_status(self.next_foot);
        let c = self.style.spec_coord(col as int);
        match (self.params.dist_between_steps_decay, nf.last_col) {
            (Some((thr, base)), Some(nc)) => {
                let over = self.style.spec_coord(nc as int).spec_dist(c) - 10 * thr;
                if over > 0 {
                    Self::spec_pow_dist(base, over)
                } else {
                    ONE_Q32 as int
                }
            },
            _ => ONE_Q32 as int,
        }
    }

    /// Continuous penalty on the horizontal distance between a previous
    /// column of this foot and the candidate.
    pub open spec fn spec_f_hdist(self, prev: Option<i8>, col: i8,
        decay: Option<(i64, u64)>) -> int {
        let c = self.style.spec_coord(col as int);
        match (decay, prev) {
            (Some((thr, base)), Some(nc)) => {
                let dx = self.style.spec_coord(nc as int).x - c.x;
                let adx = if dx >= 0 { dx as int } else { -dx as int };
                let over = 10 * adx - 10 * thr;
                if over > 0 {
                    Self::spec_pow_dist(base, over)
                } else {
                    ONE_Q32 as int
                }
            },
            _ => ONE_Q32 as int,
        }
    }

    /// Continuous penalty on this foot's vertical step distance.
    pub open spec fn spec_f_vdist(self, col: i8) -> int {
        let nf = self.spec_status(self.next_foot);
        let c = self.style.spec_coord(col as int);
        match (self.params.vertical_dist_between_steps_decay, nf.last_col) {
            (Some((thr, base)), Some(nc)) => {
                let dy = self.style.spec_coord(nc as int).y - c.y;
                let ady = if dy >= 0 { dy as int } else { -dy as int };
                let over = 10 * ady - 10 * thr;
                if over > 0 {
                    Self::spec_pow_dist(base, over)
                } else {
                    ONE_Q32 as int
                }
            },
            _ => ONE_Q32 as int,
        }
    }

    /// Continuous penalty on the feet angle's magnitude.
    pub open spec fn spec_f_angle(self, col: i8) -> int {
        match (self.params.angle_decay, self.spec_test_angle(col)) {
            (Some((thr, base)), Some(a)) => {
                let aa = if a >= 0 { a } else { -a };
                let over = aa - thr;
                if over > 0 {
                    Self::spec_pow_angle(base, over)
                } else {
                    ONE_Q32 as int
                }
            },
            _ => ONE_Q32 as int,
        }
    }

    /// Continuous penalty on the turn away from the committed angle.
    pub open spec fn spec_f_turn(self, col: i8) -> int {
        match (self.params.turn_decay, self.spec_test_angle(col)) {
            (Some((thr, base)), Some(a)) => {
                let turn = a - self.prev_angle;
                let at = if turn >= 0 { turn } else { -turn };
                let over = at - thr;
                if over > 0 {
                    Self::spec_pow_angle(base, over)
                } else {
                    ONE_Q32 as int
                }
            },
            _ => ONE_Q32 as int,
        }
    }

    /// A flat multiplier on crossover candidates.
    pub open spec fn spec_f_xover(self, col: i8) -> int {
        match self.params.crossover_multiplier {
            Some(m) => if self.spec_crossover(col) {
                m as int
            } else {
                ONE_Q32 as int
            },
            None => ONE_Q32 as int,
        }
    }

    /// Continuous penalty on the bar twist.
    pub open spec fn spec_f_bar(self, col: i8) -> int {
        match (self.params.bar_angle_decay, self.spec_bar_angle(col)) {
            (Some((thr, base)), Some(a)) => {
                let over = -a - thr;
                if over > 0 {
                    Self::spec_pow_angle(base, over)
                } else {
                    ONE_Q32 as int
                }
            },
            _ => ONE_Q32 as int,
        }
    }

    /// Penalty against repeating this foot's output column when the input
    /// column has changed — discourages repeats absent from the source.
    pub open spec fn spec_f_diff(self, col: i8, input_col: i8) -> int {
        let nf = self.spec_status(self.next_foot);
        match (self.params.preserve_input_repetitions, nf.last_input_col) {
            (Some(dd), Some(lic)) => if input_col != lic && nf.last_col == Some(col) {
                dd as int
            } else {
                ONE_Q32 as int
            },
            _ => ONE_Q32 as int,
        }
    }

    /// The drift target the acting foot is measured against: the zone's
    /// interpolated x, shifted half a panel outward per foot when feet are
    /// tracked individually.
    pub open spec fn spec_zone_x(self) -> int {
        self.zone.spec_current_x() + if self.params.doubles_track_individual_feet {
            match self.next_foot {
                Foot::Left => -5int,
                Foot::Right => 5int,
            }
        } else {
            0int
        }
    }

    /// Continuous penalty on the candidate's distance from the drift
    /// target.
    pub open spec fn spec_f_zone(self, col: i8) -> int {
        let c = self.style.spec_coord(col as int);
        match self.params.doubles_movement {
            Some((thr, base)) => {
                let dx = self.spec_zone_x() - c.x;
                let adx = if dx >= 0 { dx } else { -dx };
                let over = 10 * adx - 10 * thr;
                if over > 0 {
                    Self::spec_pow_dist(base, over)
                } else {
                    ONE_Q32 as int
                }
            },
            None => ONE_Q32 as int,
        }
    }

    /// The candidate's sampling weight: every active soft penalty
    /// multiplied together in Q32, starting from 1.0, in a fixed order.
    ///
    /// A weight is conceptually positive whenever every configured base
    /// and multiplier is, but in Q32 a decay raised to a large overshoot
    /// rounds to exactly zero — as a float power underflows at somewhat
    /// larger exponents — and a zero base or multiplier is accepted
    /// configuration.  A draw over an all-zero weighting is impossible,
    /// so that case is surfaced as `GenError::ZeroTotalWeight` rather
    /// than handled silently.
    pub open spec fn spec_prob(self, col: i8, input_col: i8) -> int {
        let w1 = spec_mul_q32(ONE_Q32 as int, self.spec_f_repeat(col));
        let w2 = spec_mul_q32(w1, self.spec_f_other_repeat(col));
        let w3 = spec_mul_q32(w2, self.spec_f_dist_feet(col));
        let w4 = spec_mul_q32(w3, self.spec_f_dist_steps(col));
        let w5 = spec_mul_q32(w4, self.spec_f_hdist(
            self.spec_status(self.next_foot).last_col, col,
            self.params.horizontal_dist_between_steps_decay));
        let w6 = spec_mul_q32(w5, self.spec_f_vdist(col));
        let w7 = spec_mul_q32(w6, self.spec_f_hdist(
            self.spec_status(self.next_foot).last_last_col, col,
            self.params.horizontal_dist_between_3_steps_decay));
        let w8 = spec_mul_q32(w7, self.spec_f_hdist(
            self.spec_status(self.next_foot).last_last_col, col,
            self.params.horizontal_dist_between_3_steps_same_foot_decay));
        let w9 = spec_mul_q32(w8, self.spec_f_angle(col));
        let w10 = spec_mul_q32(w9, self.spec_f_turn(col));
        let w11 = spec_mul_q32(w10, self.spec_f_xover(col));
        let w12 = spec_mul_q32(w11, self.spec_f_bar(col));
        let w13 = spec_mul_q32(w12, self.spec_f_diff(col, input_col));
        spec_mul_q32(w13, self.spec_f_zone(col))
    }
}

/// A decay base raised to a distance overshoot in hundredths of a panel.
fn pow_dist(base: u64, over_centis: i64) -> (r: u64)
    requires
        base <= ONE_Q32,
        0 < over_centis <= 100_000_000,
    ensures
        r as int == Generator::spec_pow_dist(base, over_centis as int),
        r <= ONE_Q32,
{
    let e = ((over_centis as u64) * 0x10000) / 100;
    proof {
        vstd::arithmetic::div_mod::lemma_div_pos_is_pos((over_centis as int) * 0x10000, 100);
        vstd::arithmetic::div_mod::lemma_div_is_ordered(
            (over_centis as int) * 0x10000, 100_000_000int * 0x10000, 100);
    }
    pow_q32(base, e)
}

/// A decay base raised to an angle overshoot in angle units.
fn pow_angle(base: u64, over_units: i64) -> (r: u64)
    requires
        base <= ONE_Q32,
        0 < over_units <= 0x400_0000_0000,
    ensures
        r as int == Generator::spec_pow_angle(base, over_units as int),
        r <= ONE_Q32,
{
    let e = ((over_units as u64) * 0x10000) / (UNITS_PER_RAD as u64);
    proof {
        vstd::arithmetic::div_mod::lemma_div_pos_is_pos(
            (over_units as int) * 0x10000, UNITS_PER_RAD as int);
        vstd::arithmetic::div_mod::lemma_div_is_ordered(
            (over_units as int) * 0x10000, 0x400_0000_0000int * 0x10000,
            UNITS_PER_RAD as int);
    }
    pow_q32(base, e)
}

impl Generator {
    /// The sampling weight of candidate `col` for input column
    /// `input_col`, exactly as `spec_prob` describes.
    #[verifier::rlimit(100)]
    #[verifier::spinoff_prover]
    pub fn prob_with_input_col(&self, col: i8, input_col: i8) -> (r: u64)
        requires
            self.wf(),
            0 <= col < self.style.spec_num_cols(),
        ensures
            r as int == self.spec_prob(col, input_col),
            r <= WEIGHT_CAP,
    {
        let mut p: u64 = ONE_Q32;
        let f1 = self.f_repeat(col);
        p = mul_q32(p, f1);
        let f2 = self.f_other_repeat(col);
        p = mul_q32(p, f2);
        let f3 = self.f_dist_feet(col);
        p = mul_q32(p, f3);
        let f4 = self.f_dist_steps(col);
        p = mul_q32(p, f4);
        let f5 = self.hdist_factor(self.next_foot_status().last_col, col,
            self.params.horizontal_dist_between_steps_decay);
        p = mul_q32(p, f5);
        let f6 = self.f_vdist(col);
        p = mul_q32(p, f6);
        let f7 = self.hdist_factor(self.next_foot_status().last_last_col, col,
            self.params.horizontal_dist_between_3_steps_decay);
        p = mul_q32(p, f7);
        let f8 = self.hdist_factor(self.next_foot_status().last_last_col, col,
            self.params.horizontal_dist_between_3_steps_same_foot_decay);
        p = mul_q32(p, f8);
        let f9 = self.f_angle(col);
        p = mul_q32(p, f9);
        let f10 = self.f_turn(col);
        p = mul_q32(p, f10);
        let f11 = self.f_xover(col);
        p = mul_q32(p, f11);
        let f12 = self.f_bar(col);
        p = mul_q32(p, f12);
        let f13 = self.f_diff(col, input_col);
        p = mul_q32(p, f13);
        let f14 = self.f_zone(col);
        p = mul_q32(p, f14);
        p
    }


    /// The flat repeat-overflow factor.
    fn f_repeat(&self, col: i8) -> (r: u64)
        requires
            self.wf(),
        ensures
            r as int == self.spec_f_repeat(col),
            r <= WEIGHT_CAP,
    {
        let nf = *self.next_foot_status();
        match self.params.repeated_decay {
            Some((thr, base)) => {
                if opt_eq8(nf.last_col, col) && nf.repeated > thr {
                    base
                } else {
                    ONE_Q32
                }
            }
            None => ONE_Q32,
        }
    }

    /// The flat other-foot-repeated factor.
    fn f_other_repeat(&self, col: i8) -> (r: u64)
        requires
            self.wf(),
        ensures
            r as int == self.spec_f_other_repeat(col),
            r <= WEIGHT_CAP,
    {
        let nf = *self.next_foot_status();
        let pf = *self.prev_foot_status();
        match self.params.other_foot_repeat_decay {
            Some(base) => {
                if pf.repeated > 1 && opt_eq8(nf.last_col, col) {
                    base
                } else {
                    ONE_Q32
                }
            }
            None => ONE_Q32,
        }
    }

    /// The inter-foot distance decay factor.
    fn f_dist_feet(&self, col: i8) -> (r: u64)
        requires
            self.wf(),
            0 <= col < self.style.spec_num_cols(),
        ensures
            r as int == self.spec_f_dist_feet(col),
            r <= ONE_Q32,
    {
        let pf = *self.prev_foot_status();
        let c = self.style.coord(col);
        match (self.params.dist_between_feet_decay, pf.last_col) {
            (Some((thr, base)), Some(pc)) => {
                let over = self.style.coord(pc).dist(&c) - 10 * thr;
                if over > 0 {
                    pow_dist(base, over)
                } else {
                    ONE_Q32
                }
            }
            _ => ONE_Q32,
        }
    }

    /// The same-foot step-distance decay factor.
    fn f_dist_steps(&self, col: i8) -> (r: u64)
        requires
            self.wf(),
            0 <= col < self.style.spec_num_cols(),
        ensures
            r as int == self.spec_f_dist_steps(col),
            r <= ONE_Q32,
    {
        let nf = *self.next_foot_status();
        let c = self.style.coord(col);
        match (self.params.dist_between_steps_decay, nf.last_col) {
            (Some((thr, base)), Some(nc)) => {
                let over = self.style.coord(nc).dist(&c) - 10 * thr;
                if over > 0 {
                    pow_dist(base, over)
                } else {
                    ONE_Q32
                }
            }
            _ => ONE_Q32,
        }
    }

    /// The vertical step-distance decay factor.
    fn f_vdist(&self, col: i8) -> (r: u64)
        requires
            self.wf(),
            0 <= col < self.style.spec_num_cols(),
        ensures
            r as int == self.spec_f_vdist(col),
            r <= ONE_Q32,
    {
        let nf = *self.next_foot_status();
        let c = self.style.coord(col);
        match (self.params.vertical_dist_between_steps_decay, nf.last_col) {
            (Some((thr, base)), Some(nc)) => {
                let dy = self.style.coord(nc).y - c.y;
                let ady = if dy >= 0 { dy } else { -dy };
                let over = 10 * ady - 10 * thr;
                if over > 0 {
                    pow_dist(base, over)
                } else {
                    ONE_Q32
                }
            }
            _ => ONE_Q32,
        }
    }

    /// The feet-angle magnitude decay factor.
    fn f_angle(&self, col: i8) -> (r: u64)
        requires
            self.wf(),
            0 <= col < self.style.spec_num_cols(),
        ensures
            r as int == self.spec_f_angle(col),
            r <= ONE_Q32,
    {
        match self.params.angle_decay {
            Some((thr, base)) => match self.test_angle(col) {
                Some(a) => {
                    let aa = if a >= 0 { a } else { -a };
                    let over = aa - thr;
                    if over > 0 {
                        pow_angle(base, over)
                    } else {
                        ONE_Q32
                    }
                }
                None => ONE_Q32,
            },
            None => ONE_Q32,
        }
    }

    /// The turn-magnitude decay factor.
    fn f_turn(&self, col: i8) -> (r: u64)
        requires
            self.wf(),
            0 <= col < self.style.spec_num_cols(),
        ensures
            r as int == self.spec_f_turn(col),
            r <= ONE_Q32,
    {
        match self.params.turn_decay {
            Some((thr, base)) => match self.test_angle(col) {
                Some(a) => {
                    let turn = a - self.prev_angle;
                    let at = if turn >= 0 { turn } else { -turn };
                    let over = at - thr;
                    if over > 0 {
                        pow_angle(base, over)
                    } else {
                        ONE_Q32
                    }
                }
                None => ONE_Q32,
            },
            None => ONE_Q32,
        }
    }

    /// The flat crossover multiplier.
    fn f_xover(&self, col: i8) -> (r: u64)
        requires
            self.wf(),
            0 <= col < self.style.spec_num_cols(),
        ensures
            r as int == self.spec_f_xover(col),
            r <= WEIGHT_CAP,
    {
        match self.params.crossover_multiplier {
            Some(m) => {
                if self.test_crossover(col) {
                    m
                } else {
                    ONE_Q32
                }
            }
            None => ONE_Q32,
        }
    }

    /// The bar-twist decay factor.
    fn f_bar(&self, col: i8) -> (r: u64)
        requires
            self.wf(),
            0 <= col < self.style.spec_num_cols(),
        ensures
            r as int == self.spec_f_bar(col),
            r <= ONE_Q32,
    {
        match self.params.bar_angle_decay {
            Some((thr, base)) => match self.test_bar_angle(col) {
                Some(a) => {
                    let over = -a - thr;
                    if over > 0 {
                        pow_angle(base, over)
                    } else {
                        ONE_Q32
                    }
                }
                None => ONE_Q32,
            },
            None => ONE_Q32,
        }
    }

    /// The changed-input repeat discouragement factor.
    fn f_diff(&self, col: i8, input_col: i8) -> (r: u64)
        requires
            self.wf(),
        ensures
            r as int == self.spec_f_diff(col, input_col),
            r <= WEIGHT_CAP,
    {
        let nf = *self.next_foot_status();
        match (self.params.preserve_input_repetitions, nf.last_input_col) {
            (Some(dd), Some(lic)) => {
                if input_col != lic && opt_eq8(nf.last_col, col) {
                    dd
                } else {
                    ONE_Q32
                }
            }
            _ => ONE_Q32,
        }
    }

    /// The drift-distance decay factor.
    fn f_zone(&self, col: i8) -> (r: u64)
        requires
            self.wf(),
            0 <= col < self.style.spec_num_cols(),
        ensures
            r as int == self.spec_f_zone(col),
            r <= ONE_Q32,
    {
        let c = self.style.coord(col);
        match self.params.doubles_movement {
            Some((thr, base)) => {
                let zone_x = self.zone.current_x() + if
                    self.params.doubles_track_individual_feet {
                    match self.next_foot {
                        Foot::Left => -5i64,
                        Foot::Right => 5i64,
                    }
                } else {
                    0i64
                };
                let dx = zone_x - c.x;
                let adx = if dx >= 0 { dx } else { -dx };
                let over = 10 * adx - 10 * thr;
                if over > 0 {
                    pow_dist(base, over)
                } else {
                    ONE_Q32
                }
            }
            None => ONE_Q32,
        }
    }

    /// The sampling weight of candidate `col` for an unknown input column.
    pub fn prob(&self, col: i8) -> (r: u64)
        requires
            self.wf(),
            0 <= col < self.style.spec_num_cols(),
        ensures
            r as int == self.spec_prob(col, -1i8),
            r <= WEIGHT_CAP,
    {
        self.prob_with_input_col(col, -1)
    }

    /// One horizontal-distance decay factor.
    fn hdist_factor(&self, prev: Option<i8>, col: i8, decay: Option<(i64, u64)>) -> (r: u64)
        requires
            self.wf(),
            0 <= col < self.style.spec_num_cols(),
            match prev {
                Some(pc) => 0 <= pc < self.style.spec_num_cols(),
                None => true,
            },
            crate::params::dist_decay_wf(decay),
        ensures
            r as int == self.spec_f_hdist(prev, col, decay),
            r <= ONE_Q32,
    {
        let c = self.style.coord(col);
        match (decay, prev) {
            (Some((thr, base)), Some(nc)) => {
                let dx = self.style.coord(nc).x - c.x;
                let adx = if dx >= 0 { dx } else { -dx };
                let over = 10 * adx - 10 * thr;
                if over > 0 {
                    pow_dist(base, over)
                } else {
                    ONE_Q32
                }
            }
            _ => ONE_Q32,
        }
    }
}

impl Generator {
    /// The index the subtraction walk picks from a weighted candidate
    /// list: the first whose cumulative weight reaches the drawn value,
    /// or the last as a stable fallback.
    pub open spec fn spec_choose_index(s: Seq<(i8, u64)>, p: int) -> int
        decreases s.len(),
    {
        if s.len() <= 1 {
            0
        } else if p - s[0].1 <= 0 {
            0
        } else {
            1 + Self::spec_choose_index(s.drop_first(), p - s[0].1)
        }
    }

    /// The walk always lands inside the list.
    pub proof fn lemma_choose_index_in_range(s: Seq<(i8, u64)>, p: int)
        requires
            s.len() >= 1,
        ensures
            0 <= Self::spec_choose_index(s, p) < s.len(),
        decreases s.len(),
    {
        if s.len() > 1 && p - s[0].1 > 0 {
            Self::lemma_choose_index_in_range(s.drop_first(), p - s[0].1);
        }
    }

    /// Walk the weighted candidates, subtracting weights from `prob`
    /// until it is spent; returns the candidate `spec_choose_index`
    /// names.  Never fails on a non-empty list.
    pub fn choose_from_probs_with_prob(col_probs: &Vec<(i8, u64)>, prob: u64) -> (r: i8)
        requires
            col_probs@.len() >= 1,
        ensures
            r == col_probs@[Self::spec_choose_index(col_probs@, prob as int)].0,
    {
        proof {
            Self::lemma_choose_index_in_range(col_probs@, prob as int);
        }
        let n = col_probs.len();
        let mut i: usize = 0;
        let mut p = prob;
        proof {
            assert(col_probs@.skip(0) =~= col_probs@);
        }
        while i < n - 1
            invariant
                col_probs@.len() == n,
                n >= 1,
                0 <= i < n,
                Self::spec_choose_index(col_probs@, prob as int)
                    == i + Self::spec_choose_index(col_probs@.skip(i as int), p as int),
            decreases n - i,
        {
            let w = col_probs[i].1;
            proof {
                assert(col_probs@.skip(i as int)[0] == col_probs@[i as int]);
                assert(col_probs@.skip(i as int).drop_first()
                    =~= col_probs@.skip(i as int + 1));
                Self::lemma_choose_index_in_range(
                    col_probs@.skip(i as int), p as int);
            }
            if p <= w {
                proof {
                    assert(Self::spec_choose_index(col_probs@.skip(i as int), p as int) == 0);
                }
                return col_probs[i].0;
            }
            p = p - w;
            i = i + 1;
        }
        proof {
            assert(col_probs@.skip(n - 1 as int).len() == 1);
            assert(Self::spec_choose_index(col_probs@.skip(n - 1 as int), p as int) == 0);
            assert(col_probs@.skip(n - 1 as int)[0] == col_probs@[n - 1 as int]);
        }
        col_probs[n - 1].0
    }

    /// Sample one column among those passing every hard constraint,
    /// weighting each by its soft-penalty product.  Only the random
    /// stream advances; every other field is untouched.
    #[verifier::rlimit(100)]
    #[verifier::spinoff_prover]
    pub fn choose_col(&mut self, input_col: i8) -> (r: Result<i8, GenError>)
        requires
            old(self).wf(),
        ensures
            final(self).wf(),
            final(self).style == old(self).style,
            final(self).params == old(self).params,
            final(self).left_status == old(self).left_status,
            final(self).right_status == old(self).right_status,
            final(self).next_foot == old(self).next_foot,
            final(self).prev_angle == old(self).prev_angle,
            final(self).zone == old(self).zone,
            match r {
                Ok(c) => {
                    &&& 0 <= c < old(self).style.spec_num_cols()
                    &&& old(self).spec_is_valid_col(c)
                    &&& exists|c2: i8| 0 <= c2 < old(self).style.spec_num_cols()
                        && old(self).spec_is_valid_col(c2)
                        && old(self).spec_prob(c2, input_col) > 0
                },
                Err(e) => match e {
                    GenError::NoValidColumns { style, foot, left, right } => {
                        &&& forall|c: i8| 0 <= c < old(self).style.spec_num_cols()
                            ==> !old(self).spec_is_valid_col(c)
                        &&& style == old(self).style
                        &&& foot == old(self).next_foot
                        &&& left == old(self).left_status
                        &&& right == old(self).right_status
                    },
                    GenError::ZeroTotalWeight { style, foot } => {
                        &&& exists|c: i8| 0 <= c < old(self).style.spec_num_cols()
                            && old(self).spec_is_valid_col(c)
                        &&& forall|c: i8| 0 <= c < old(self).style.spec_num_cols()
                            && old(self).spec_is_valid_col(c)
                            ==> old(self).spec_prob(c, input_col) == 0
                        &&& style == old(self).style
                        &&& foot == old(self).next_foot
                    },
                    GenError::AngleOutOfRange => false,
                },
            },
    {
        let cols = self.valid_cols();
        if cols.len() == 0 {
            return Err(GenError::NoValidColumns {
                style: self.style,
                foot: self.next_foot,
                left: self.left_status,
                right: self.right_status,
            });
        }
        let mut col_probs: Vec<(i8, u64)> = Vec::new();
        let mut total: u64 = 0;
        let mut k: usize = 0;
        while k < cols.len()
            invariant
                self.wf(),
                *self == *old(self),
                forall|i: int| 0 <= i < cols@.len() ==> {
                    &&& 0 <= #[trigger] cols@[i] < self.style.spec_num_cols()
                    &&& self.spec_is_valid_col(cols@[i])
                },
                0 <= k <= cols@.len(),
                cols@.len() <= 27,
                col_probs@.len() == k,
                forall|j: int| 0 <= j < k ==> (#[trigger] col_probs@[j]).0 == cols@[j],
                forall|j: int| 0 <= j < k ==>
                    (#[trigger] col_probs@[j]).1 as int
                        == self.spec_prob(cols@[j], input_col),
                total <= k * WEIGHT_CAP,
                (total == 0) <==> (forall|j: int| 0 <= j < k
                    ==> (#[trigger] col_probs@[j]).1 == 0),
            decreases cols@.len() - k,
        {
            let c = cols[k];
            let w = self.prob_with_input_col(c, input_col);
            let ghost cp0 = col_probs@;
            col_probs.push((c, w));
            proof {
                assert((k + 1) * WEIGHT_CAP == k * WEIGHT_CAP + WEIGHT_CAP)
                    by (nonlinear_arith);
                assert((k + 1) * WEIGHT_CAP <= 27 * WEIGHT_CAP) by (nonlinear_arith)
                    requires k + 1 <= 27;
                assert(col_probs@[k as int].1 == w);
                assert(col_probs@[k as int].0 == c);
                if total + w == 0 {
                    assert forall|j: int| 0 <= j < k + 1
                        implies (#[trigger] col_probs@[j]).1 == 0 by {
                        if j < k {
                            assert(cp0[j].1 == 0);
                            assert(col_probs@[j] == cp0[j]);
                        }
                    }
                } else {
                    if w != 0 {
                        assert(col_probs@[k as int].1 != 0);
                        assert(!(forall|j: int| 0 <= j < k + 1
                            ==> (#[trigger] col_probs@[j]).1 == 0));
                    } else {
                        assert(total != 0);
                        let j0 = choose|j: int| 0 <= j < k && (#[trigger] cp0[j]).1 != 0;
                        assert(col_probs@[j0] == cp0[j0]);
                        assert(!(forall|j: int| 0 <= j < k + 1
                            ==> (#[trigger] col_probs@[j]).1 == 0));
                    }
                }
            }
            total = total + w;
            k = k + 1;
        }
        if total == 0 {
            proof {
                assert(self.spec_is_valid_col(cols@[0]));
                assert forall|c: i8| 0 <= c < self.style.spec_num_cols()
                    && self.spec_is_valid_col(c)
                    implies self.spec_prob(c, input_col) == 0 by {
                    assert(cols@.contains(c));
                    let i = choose|i: int| 0 <= i < cols@.len() && cols@[i] == c;
                    assert(col_probs@[i].1 == 0);
                }
            }
            return Err(GenError::ZeroTotalWeight {
                style: self.style,
                foot: self.next_foot,
            });
        }
        proof {
            assert(!(forall|j: int| 0 <= j < col_probs@.len()
                ==> (#[trigger] col_probs@[j]).1 == 0));
            let j0 = choose|j: int| 0 <= j < col_probs@.len()
                && (#[trigger] col_probs@[j]).1 != 0;
            assert(self.spec_is_valid_col(cols@[j0]));
            assert(self.spec_prob(cols@[j0], input_col) > 0);
        }
        let draw = rng_below(&mut self.rand, total);
        let c = Self::choose_from_probs_with_prob(&col_probs, draw);
        proof {
            Self::lemma_choose_index_in_range(col_probs@, draw as int);
        }
        Ok(c)
    }

    /// The unwrapped bearing between two columns' panels, continuous
    /// with a previous angle.
    pub open spec fn spec_angle_between(style: Style, lc: i8, rc: i8, prev: int) -> int {
        style.spec_coord(lc as int).spec_angle(style.spec_coord(rc as int), prev)
    }

    /// The two feet's recorded columns after foot `f` commits `col`.
    pub open spec fn spec_post_cols(self, col: i8, f: Foot) -> (Option<i8>, Option<i8>) {
        match f {
            Foot::Left => (Some(col), self.right_status.last_col),
            Foot::Right => (self.left_status.last_col, Some(col)),
        }
    }

    /// Whether committing `col` with foot `f` keeps the recomputed
    /// committed angle inside the representable range.  This is the one
    /// and only way a commit can fail, and it is false only after the
    /// angle has already drifted within a half-turn of `ANGLE_LIMIT` —
    /// astronomically many full turns into a chart.
    pub open spec fn spec_commit_in_range(self, col: i8, f: Foot) -> bool {
        match self.spec_post_cols(col, f) {
            (Some(lc), Some(rc)) => {
                let a = Self::spec_angle_between(self.style, lc, rc, self.prev_angle as int);
                -ANGLE_LIMIT <= a <= ANGLE_LIMIT
            },
            _ => true,
        }
    }

    /// The foot history of one side.
    pub fn status_of(&self, f: Foot) -> (r: FootStatus)
        ensures
            r == self.spec_status(f),
    {
        match f {
            Foot::Left => self.left_status,
            Foot::Right => self.right_status,
        }
    }

    /// Commit a placement: update the acting foot's history, recompute
    /// the committed angle when both feet are known, advance the drift
    /// zone, and flip the acting foot unless suppressed.
    ///
    /// Fails only when the committed angle would leave the representable
    /// range, in which case the engine is left untouched.
    pub fn step_impl(&mut self, col: i8, input_col: i8, switch_feet: bool)
        -> (r: Result<(), GenError>)
        requires
            old(self).wf(),
            0 <= col < old(self).style.spec_num_cols(),
        ensures
            final(self).wf(),
            final(self).style == old(self).style,
            final(self).params == old(self).params,
            match r {
                Ok(()) => {
                    let f = if switch_feet {
                        old(self).next_foot
                    } else {
                        old(self).next_foot.spec_other()
                    };
                    &&& final(self).spec_status(f)
                        == old(self).spec_status(f).spec_stepped(col, input_col)
                    &&& final(self).spec_status(f.spec_other())
                        == old(self).spec_status(f.spec_other())
                    &&& final(self).next_foot == (if switch_feet {
                        old(self).next_foot.spec_other()
                    } else {
                        old(self).next_foot
                    })
                    &&& (match (final(self).left_status.last_col,
                            final(self).right_status.last_col) {
                        (Some(lc), Some(rc)) => final(self).prev_angle as int
                            == Self::spec_angle_between(old(self).style, lc, rc,
                                old(self).prev_angle as int),
                        _ => final(self).prev_angle == old(self).prev_angle,
                    })
                    &&& (old(self).params.doubles_movement is None
                        ==> final(self).zone == old(self).zone)
                    &&& (old(self).params.doubles_movement is Some ==> ({
                        let zs = Zone { steps_until_end:
                            (old(self).zone.steps_until_end - 1) as i32, ..old(self).zone };
                        if zs.steps_until_end <= 0 {
                            Self::spec_fresh_zone(final(self).zone, old(self).style,
                                old(self).zone.end_x as int,
                                old(self).params.doubles_dist_from_side,
                                old(self).params.doubles_steps_per_dist)
                        } else {
                            final(self).zone == zs
                        }
                    }))
                },
                Err(e) => {
                    &&& e is AngleOutOfRange
                    &&& *final(self) == *old(self)
                },
            },
            ({
                let f = if switch_feet {
                    old(self).next_foot
                } else {
                    old(self).next_foot.spec_other()
                };
                r is Ok <==> old(self).spec_commit_in_range(col, f)
            }),
    {
        let f = if switch_feet {
            self.next_foot
        } else {
            self.next_foot.other()
        };
        let old_st = self.status_of(f);
        let new_st = stepped(old_st, col, input_col);
        // what both feet would hold after the commit
        let (nl, nr) = match f {
            Foot::Left => (new_st, self.right_status),
            Foot::Right => (self.left_status, new_st),
        };
        let committed: Option<i64> = match (nl.last_col, nr.last_col) {
            (Some(lc), Some(rc)) => {
                let l = self.style.coord(lc);
                let rr = self.style.coord(rc);
                Some(l.angle(&rr, self.prev_angle))
            }
            _ => None,
        };
        if let Some(a) = committed {
            if a > ANGLE_LIMIT || a < -ANGLE_LIMIT {
                return Err(GenError::AngleOutOfRange);
            }
        }
        match f {
            Foot::Left => {
                self.left_status = new_st;
            }
            Foot::Right => {
                self.right_status = new_st;
            }
        }
        if let Some(a) = committed {
            self.prev_angle = a;
        }
        if self.params.doubles_movement.is_some() {
            self.zone.step();
            if self.zone.is_done() {
                let z = Self::rand_zone(
                    &mut self.rand,
                    self.style,
                    self.zone.end_x,
                    self.params.doubles_dist_from_side,
                    self.params.doubles_steps_per_dist,
                );
                self.zone = z;
            }
        }
        if switch_feet {
            self.next_foot = self.next_foot.other();
        }
        Ok(())
    }

    /// Commit a placement of the acting foot and switch feet.
    pub fn step(&mut self, col: i8) -> (r: Result<(), GenError>)
        requires
            old(self).wf(),
            0 <= col < old(self).style.spec_num_cols(),
        ensures
            final(self).wf(),
            final(self).style == old(self).style,
            final(self).params == old(self).params,
            r is Ok <==> old(self).spec_commit_in_range(col, old(self).next_foot),
            r is Err ==> *final(self) == *old(self),
            r is Ok ==> final(self).spec_status(old(self).next_foot)
                == old(self).spec_status(old(self).next_foot).spec_stepped(col, -1i8),
            r is Ok ==> final(self).next_foot == old(self).next_foot.spec_other(),
    {
        self.step_impl(col, -1, true)
    }

    /// Commit a placement of the acting foot for a known input column.
    pub fn step_with_input_col(&mut self, col: i8, input_col: i8) -> (r: Result<(), GenError>)
        requires
            old(self).wf(),
            0 <= col < old(self).style.spec_num_cols(),
        ensures
            final(self).wf(),
            final(self).style == old(self).style,
            final(self).params == old(self).params,
            r is Ok <==> old(self).spec_commit_in_range(col, old(self).next_foot),
            r is Err ==> *final(self) == *old(self),
            r is Ok ==> final(self).spec_status(old(self).next_foot)
                == old(self).spec_status(old(self).next_foot).spec_stepped(col, input_col),
            r is Ok ==> final(self).next_foot == old(self).next_foot.spec_other(),
    {
        self.step_impl(col, input_col, true)
    }
}

impl Generator {
    /// Commit a placement of the previous foot again, without switching
    /// feet: reproduces a footswitch or jack present in the source.
    pub fn step_without_switching_feet(&mut self, col: i8, input_col: i8)
        -> (r: Result<(), GenError>)
        requires
            old(self).wf(),
            0 <= col < old(self).style.spec_num_cols(),
        ensures
            final(self).wf(),
            final(self).style == old(self).style,
            final(self).params == old(self).params,
            r is Ok <==> old(self).spec_commit_in_range(col,
                old(self).next_foot.spec_other()),
            r is Err ==> *final(self) == *old(self),
            r is Ok ==> final(self).spec_status(old(self).next_foot.spec_other())
                == old(self).spec_status(old(self).next_foot.spec_other())
                    .spec_stepped(col, input_col),
            r is Ok ==> final(self).next_foot == old(self).next_foot,
    {
        self.step_impl(col, input_col, false)
    }

    /// One sampled (or initial) placement for the acting foot: the very
    /// first placement of a foot is forced to the style's initial column;
    /// afterwards a weighted draw among the valid candidates decides.
    fn gen_impl(&mut self, input_col: i8) -> (r: Result<i8, GenError>)
        requires
            old(self).wf(),
        ensures
            final(self).wf(),
            final(self).style == old(self).style,
            final(self).params == old(self).params,
            ({
                let of = *old(self);
                let nf = of.spec_status(of.next_foot);
                match r {
                    Ok(c) => {
                        &&& 0 <= c < of.style.spec_num_cols()
                        &&& (nf.last_col is None
                            ==> c == of.style.spec_init_col(of.next_foot))
                        &&& (nf.last_col is Some ==> of.spec_is_valid_col(c))
                        &&& final(self).next_foot == of.next_foot.spec_other()
                        &&& final(self).spec_status(of.next_foot)
                            == nf.spec_stepped(c, input_col)
                        &&& final(self).spec_status(of.next_foot.spec_other())
                            == of.spec_status(of.next_foot.spec_other())
                        &&& (match (final(self).left_status.last_col,
                                final(self).right_status.last_col) {
                            (Some(lc), Some(rc)) => final(self).prev_angle as int
                                == Self::spec_angle_between(of.style, lc, rc,
                                    of.prev_angle as int),
                            _ => final(self).prev_angle == of.prev_angle,
                        })
                        &&& (of.params.doubles_movement is None
                            ==> final(self).zone == of.zone)
                    },
                    Err(e) => {
                        &&& (e matches GenError::NoValidColumns { .. } <==> (
                            nf.last_col is Some
                            && forall|c: i8| 0 <= c < of.style.spec_num_cols()
                                ==> !of.spec_is_valid_col(c)))
                        &&& final(self).left_status == of.left_status
                        &&& final(self).right_status == of.right_status
                        &&& final(self).next_foot == of.next_foot
                        &&& final(self).prev_angle == of.prev_angle
                        &&& final(self).zone == of.zone
                    },
                }
            }),
            ({
                let of = *old(self);
                let nf = of.spec_status(of.next_foot);
                &&& (nf.last_col is None ==> (r is Ok <==> of.spec_commit_in_range(
                    of.style.spec_init_col(of.next_foot) as i8, of.next_foot)))
                &&& (nf.last_col is Some
                    && (exists|c: i8| 0 <= c < of.style.spec_num_cols()
                        && #[trigger] of.spec_is_valid_col(c)
                        && of.spec_prob(c, input_col) > 0)
                    && (forall|c: i8| 0 <= c < of.style.spec_num_cols()
                        && #[trigger] of.spec_is_valid_col(c)
                        ==> of.spec_commit_in_range(c, of.next_foot))
                    ==> r is Ok)
                &&& ((r matches Err(GenError::ZeroTotalWeight { .. })) <==> (
                    nf.last_col is Some
                    && (exists|c: i8| 0 <= c < of.style.spec_num_cols()
                        && #[trigger] of.spec_is_valid_col(c))
                    && (forall|c: i8| 0 <= c < of.style.spec_num_cols()
                        && #[trigger] of.spec_is_valid_col(c)
                        ==> of.spec_prob(c, input_col) == 0)))
                &&& ((r matches Err(GenError::AngleOutOfRange)) ==> ({
                    ||| (nf.last_col is None && !of.spec_commit_in_range(
                        of.style.spec_init_col(of.next_foot) as i8, of.next_foot))
                    ||| (nf.last_col is Some && exists|c: i8|
                        0 <= c < of.style.spec_num_cols()
                        && #[trigger] of.spec_is_valid_col(c)
                        && !of.spec_commit_in_range(c, of.next_foot))
                }))
            }),
    {
        let col: i8;
        if self.next_foot_status().last_col.is_none() {
            col = self.style.init_col(self.next_foot);
        } else {
            match self.choose_col(input_col) {
                Ok(c) => {
                    col = c;
                }
                Err(e) => {
                    return Err(e);
                }
            }
        }
        match self.step_impl(col, input_col, true) {
            Ok(()) => Ok(col),
            Err(e) => Err(e),
        }
    }


    /// The full contract of one generating call, shared by `gen` and
    /// `gen_with_input_col`: which column comes back on each decision
    /// path, how the state advances, which failure each path can produce,
    /// and when success is owed.  Only the choice among several valid
    /// nonzero-weight candidates is left to the random draw.
    pub open spec fn spec_gen_post(pre: Generator, post: Generator, input_col: i8,
        r: Result<i8, GenError>) -> bool {
        let nf = pre.spec_status(pre.next_foot);
        let pf = pre.spec_status(pre.next_foot.spec_other());
        let preserve = pre.params.preserve_input_repetitions is Some;
        let replay_same = preserve && nf.last_input_col == Some(input_col)
            && nf.last_col is Some;
        let replay_other = preserve && !(nf.last_input_col == Some(input_col))
            && pf.last_input_col == Some(input_col) && pf.last_col is Some;
        let init_path = !replay_same && !replay_other && nf.last_col is None;
        let sampled = !replay_same && !replay_other && nf.last_col is Some;
        &&& (match r {
            Ok(c) => {
                &&& 0 <= c < pre.style.spec_num_cols()
                &&& (replay_same ==> Some(c) == nf.last_col)
                &&& (replay_other ==> Some(c) == pf.last_col)
                &&& (init_path ==> c == pre.style.spec_init_col(pre.next_foot))
                &&& (sampled ==> pre.spec_is_valid_col(c))
                &&& ({
                    let acting = if replay_other {
                        pre.next_foot.spec_other()
                    } else {
                        pre.next_foot
                    };
                    &&& post.next_foot == (if replay_other {
                        pre.next_foot
                    } else {
                        pre.next_foot.spec_other()
                    })
                    &&& post.spec_status(acting)
                        == pre.spec_status(acting).spec_stepped(c, input_col)
                    &&& post.spec_status(acting.spec_other())
                        == pre.spec_status(acting.spec_other())
                })
                &&& (match (post.left_status.last_col, post.right_status.last_col) {
                    (Some(lc), Some(rc)) => post.prev_angle as int
                        == Self::spec_angle_between(pre.style, lc, rc,
                            pre.prev_angle as int),
                    _ => post.prev_angle == pre.prev_angle,
                })
                &&& (pre.params.doubles_movement is None ==> post.zone == pre.zone)
            },
            Err(e) => {
                &&& (e matches GenError::NoValidColumns { .. } <==> (sampled
                    && forall|c: i8| 0 <= c < pre.style.spec_num_cols()
                        ==> !pre.spec_is_valid_col(c)))
                &&& post.left_status == pre.left_status
                &&& post.right_status == pre.right_status
                &&& post.next_foot == pre.next_foot
                &&& post.prev_angle == pre.prev_angle
                &&& post.zone == pre.zone
            },
        })
        // success is owed on every path no random draw decides
        &&& (replay_same ==> (r is Ok <==> pre.spec_commit_in_range(
            nf.last_col.unwrap(), pre.next_foot)))
        &&& (replay_other ==> (r is Ok <==> pre.spec_commit_in_range(
            pf.last_col.unwrap(), pre.next_foot.spec_other())))
        &&& (init_path ==> (r is Ok <==> pre.spec_commit_in_range(
            pre.style.spec_init_col(pre.next_foot) as i8, pre.next_foot)))
        &&& (sampled
            && (exists|c: i8| 0 <= c < pre.style.spec_num_cols()
                && #[trigger] pre.spec_is_valid_col(c)
                && pre.spec_prob(c, input_col) > 0)
            && (forall|c: i8| 0 <= c < pre.style.spec_num_cols()
                && #[trigger] pre.spec_is_valid_col(c)
                ==> pre.spec_commit_in_range(c, pre.next_foot))
            ==> r is Ok)
        // the degenerate all-zero weighting is fatal exactly when it holds
        &&& ((r matches Err(GenError::ZeroTotalWeight { .. })) <==> (sampled
            && (exists|c: i8| 0 <= c < pre.style.spec_num_cols()
                && #[trigger] pre.spec_is_valid_col(c))
            && (forall|c: i8| 0 <= c < pre.style.spec_num_cols()
                && #[trigger] pre.spec_is_valid_col(c)
                ==> pre.spec_prob(c, input_col) == 0)))
        // the angle-range guard fires only against a genuinely out-of-range
        // commit on the taken path
        &&& ((r matches Err(GenError::AngleOutOfRange)) ==> ({
            ||| (replay_same && !pre.spec_commit_in_range(
                nf.last_col.unwrap(), pre.next_foot))
            ||| (replay_other && !pre.spec_commit_in_range(
                pf.last_col.unwrap(), pre.next_foot.spec_other()))
            ||| (init_path && !pre.spec_commit_in_range(
                pre.style.spec_init_col(pre.next_foot) as i8, pre.next_foot))
            ||| (sampled && exists|c: i8| 0 <= c < pre.style.spec_num_cols()
                && #[trigger] pre.spec_is_valid_col(c)
                && !pre.spec_commit_in_range(c, pre.next_foot))
        }))
    }

    /// Generate the next output column for one input column.
    ///
    /// When input repetitions are preserved and the acting foot last
    /// answered this same input column, its previous output is replayed
    /// and the feet alternate as usual; when the other foot did, that
    /// foot steps again without switching.  Otherwise the placement is
    /// the forced initial column (first step of a foot) or a weighted
    /// sample over the columns passing every hard constraint.  Absent
    /// both replay paths, consecutive calls alternate the acting foot,
    /// and only the acting foot's history changes.
    #[verifier::rlimit(100)]
    #[verifier::spinoff_prover]
    pub fn gen_with_input_col(&mut self, input_col: i8) -> (r: Result<i8, GenError>)
        requires
            old(self).wf(),
        ensures
            final(self).wf(),
            final(self).style == old(self).style,
            final(self).params == old(self).params,
            Self::spec_gen_post(*old(self), *final(self), input_col, r),
    {
        if self.params.preserve_input_repetitions.is_some() {
            if opt_eq8(self.next_foot_status().last_input_col, input_col) {
                if let Some(lc) = self.next_foot_status().last_col {
                    match self.step_impl(lc, input_col, true) {
                        Ok(()) => {
                            return Ok(lc);
                        }
                        Err(e) => {
                            return Err(e);
                        }
                    }
                }
            } else if opt_eq8(self.prev_foot_status().last_input_col, input_col) {
                if let Some(lc) = self.prev_foot_status().last_col {
                    match self.step_impl(lc, input_col, false) {
                        Ok(()) => {
                            return Ok(lc);
                        }
                        Err(e) => {
                            return Err(e);
                        }
                    }
                }
            }
        }
        self.gen_impl(input_col)
    }

    /// Generate the next output column with no particular input column.
    pub fn gen(&mut self) -> (r: Result<i8, GenError>)
        requires
            old(self).wf(),
        ensures
            final(self).wf(),
            final(self).style == old(self).style,
            final(self).params == old(self).params,
            Self::spec_gen_post(*old(self), *final(self), -1i8, r),
    {
        self.gen_with_input_col(-1)
    }
}

impl Generator {
    /// With the repeat decay as the only active soft penalty, a candidate
    /// that would repeat the acting foot's column beyond the threshold
    /// weighs exactly the configured base — relative to the baseline
    /// weight of one — and a candidate that would not weighs exactly one.
    pub proof fn lemma_repeat_decay_weight(g: Generator, col: i8, input_col: i8,
        thr: i32, base: u64)
        requires
            g.wf(),
            g.params.repeated_decay == Some((thr, base)),
            g.params.other_foot_repeat_decay is None,
            g.params.dist_between_feet_decay is None,
            g.params.dist_between_steps_decay is None,
            g.params.horizontal_dist_between_steps_decay is None,
            g.params.vertical_dist_between_steps_decay is None,
            g.params.horizontal_dist_between_3_steps_decay is None,
            g.params.horizontal_dist_between_3_steps_same_foot_decay is None,
            g.params.angle_decay is None,
            g.params.turn_decay is None,
            g.params.crossover_multiplier is None,
            g.params.bar_angle_decay is None,
            g.params.preserve_input_repetitions is None,
            g.params.doubles_movement is None,
        ensures
            g.spec_status(g.next_foot).last_col == Some(col)
                && g.spec_status(g.next_foot).repeated > thr
                ==> g.spec_prob(col, input_col) == base,
            !(g.spec_status(g.next_foot).last_col == Some(col)
                && g.spec_status(g.next_foot).repeated > thr)
                ==> g.spec_prob(col, input_col) == ONE_Q32,
    {
        crate::fixed::lemma_mul_q32_one(ONE_Q32 as int);
        crate::fixed::lemma_mul_q32_one(base as int);
    }
}

/// The per-foot history after a step, with a saturating repeat counter.
fn stepped(st: FootStatus, col: i8, input_col: i8) -> (r: FootStatus)
    ensures
        r == st.spec_stepped(col, input_col),
{
    FootStatus {
        last_last_col: st.last_col,
        last_col: Some(col),
        repeated: if opt_eq8(st.last_col, col) {
            if st.repeated < 0x7fff_ffff {
                st.repeated + 1
            } else {
                st.repeated
            }
        } else {
            1
        },
        last_input_col: Some(input_col),
    }
}

/// Whether an optional column equals a concrete one.
fn opt_eq8(a: Option<i8>, b: i8) -> (r: bool)
    ensures
        r == (a == Some(b)),
{
    match a {
        Some(x) => x == b,
        None => false,
    }
}

/// The square of a small nonnegative quantity.
fn sq(v: i64) -> (r: i64)
    requires
        0 <= v <= 3_000_000,
    ensures
        r == v * v,
{
    proof {
        assert(v * v <= 3_000_000int * 3_000_000) by (nonlinear_arith)
            requires 0 <= v <= 3_000_000;
    }
    v * v
}

} // verus!
