//! Generator configuration: hard limits, soft decay penalties, and flags.
//!
//! Distances are in tenths of a panel, angles in `angle` units (pi is
//! `PI_U`), and decay bases and multipliers in Q32 fixed point (`ONE_Q32`
//! is 1.0).  A hard limit eliminates candidate columns outright; a
//! `(threshold, base)` decay pair multiplies a candidate's weight by
//! `base ^ (measured - threshold)` once the measured quantity exceeds the
//! threshold.

use vstd::prelude::*;
use crate::fixed::{ONE_Q32, WEIGHT_CAP};
use crate::angle::PI_U;
use crate::style::Style;

verus! {

/// Largest distance threshold accepted, in tenths of a panel.
pub const DIST_PARAM_LIMIT: i64 = 100_000;

/// Largest angle threshold accepted, in angle units.
pub const ANGLE_PARAM_LIMIT: i64 = 1_000_000_000;

/// Largest steps-per-distance value accepted, in steps per ten panels.
pub const SPD_PARAM_LIMIT: i64 = 10_000;

/// Configuration snapshot for one Generator, immutable for its lifetime.
#[derive(Copy, Clone, Debug)]
pub struct GeneratorParameters {
    pub seed: Option<u64>,
    pub disallow_footswitch: bool,
    pub max_repeated: Option<i32>,
    pub repeated_decay: Option<(i32, u64)>,
    pub other_foot_repeat_decay: Option<u64>,
    pub max_dist_between_feet: Option<i64>,
    pub dist_between_feet_decay: Option<(i64, u64)>,
    pub max_dist_between_feet_if_crossover: Option<i64>,
    pub max_dist_between_steps: Option<i64>,
    pub dist_between_steps_decay: Option<(i64, u64)>,
    pub max_horizontal_dist_between_steps: Option<i64>,
    pub horizontal_dist_between_steps_decay: Option<(i64, u64)>,
    pub max_horizontal_dist_between_steps_if_crossover: Option<i64>,
    pub max_vertical_dist_between_steps: Option<i64>,
    pub vertical_dist_between_steps_decay: Option<(i64, u64)>,
    pub horizontal_dist_between_3_steps_same_foot_decay: Option<(i64, u64)>,
    pub max_horizontal_dist_between_4_steps_both_feet: Option<i64>,
    pub horizontal_dist_between_3_steps_decay: Option<(i64, u64)>,
    pub max_angle: Option<i64>,
    pub angle_decay: Option<(i64, u64)>,
    pub max_turn: Option<i64>,
    pub turn_decay: Option<(i64, u64)>,
    pub crossover_multiplier: Option<u64>,
    pub max_bar_angle: Option<i64>,
    pub bar_angle_decay: Option<(i64, u64)>,
    pub preserve_input_repetitions: Option<u64>,
    pub doubles_movement: Option<(i64, u64)>,
    pub doubles_dist_from_side: Option<i64>,
    pub doubles_steps_per_dist: Option<i64>,
    pub doubles_track_individual_feet: bool,
    pub disallow_foot_opposite_side: bool,
    pub remove_jumps: bool,
    pub min_difficulty: Option<i32>,
    pub max_difficulty: Option<i32>,
}

/// A distance threshold within machine bounds.
pub open spec fn dist_opt_wf(o: Option<i64>) -> bool {
    match o {
        Some(v) => 0 <= v <= DIST_PARAM_LIMIT,
        None => true,
    }
}

/// A distance decay pair: threshold in bounds, base a true decay (at
/// most 1.0).
pub open spec fn dist_decay_wf(o: Option<(i64, u64)>) -> bool {
    match o {
        Some((v, b)) => 0 <= v <= DIST_PARAM_LIMIT && b <= ONE_Q32,
        None => true,
    }
}

/// An angle threshold within machine bounds.
pub open spec fn angle_opt_wf(o: Option<i64>) -> bool {
    match o {
        Some(v) => 0 <= v <= ANGLE_PARAM_LIMIT,
        None => true,
    }
}

/// An angle decay pair.
pub open spec fn angle_decay_wf(o: Option<(i64, u64)>) -> bool {
    match o {
        Some((v, b)) => 0 <= v <= ANGLE_PARAM_LIMIT && b <= ONE_Q32,
        None => true,
    }
}

/// A flat multiplier within the weight cap.
pub open spec fn mult_opt_wf(o: Option<u64>) -> bool {
    match o {
        Some(m) => m <= WEIGHT_CAP,
        None => true,
    }
}

impl GeneratorParameters {
    /// All thresholds within the machine bounds the engine's arithmetic
    /// is proved against.
    pub open spec fn wf(self) -> bool {
        &&& dist_opt_wf(self.max_dist_between_feet)
        &&& dist_decay_wf(self.dist_between_feet_decay)
        &&& dist_opt_wf(self.max_dist_between_feet_if_crossover)
        &&& dist_opt_wf(self.max_dist_between_steps)
        &&& dist_decay_wf(self.dist_between_steps_decay)
        &&& dist_opt_wf(self.max_horizontal_dist_between_steps)
        &&& dist_decay_wf(self.horizontal_dist_between_steps_decay)
        &&& dist_opt_wf(self.max_horizontal_dist_between_steps_if_crossover)
        &&& dist_opt_wf(self.max_vertical_dist_between_steps)
        &&& dist_decay_wf(self.vertical_dist_between_steps_decay)
        &&& dist_decay_wf(self.horizontal_dist_between_3_steps_same_foot_decay)
        &&& dist_opt_wf(self.max_horizontal_dist_between_4_steps_both_feet)
        &&& dist_decay_wf(self.horizontal_dist_between_3_steps_decay)
        &&& angle_opt_wf(self.max_angle)
        &&& angle_decay_wf(self.angle_decay)
        &&& angle_opt_wf(self.max_turn)
        &&& angle_decay_wf(self.turn_decay)
        &&& mult_opt_wf(self.crossover_multiplier)
        &&& angle_opt_wf(self.max_bar_angle)
        &&& angle_decay_wf(self.bar_angle_decay)
        &&& mult_opt_wf(self.other_foot_repeat_decay)
        &&& mult_opt_wf(self.preserve_input_repetitions)
        &&& dist_decay_wf(self.doubles_movement)
        &&& dist_opt_wf(self.doubles_dist_from_side)
        &&& (match self.doubles_steps_per_dist {
            Some(v) => 0 <= v <= SPD_PARAM_LIMIT,
            None => true,
        })
        &&& (match self.repeated_decay {
            Some((_t, b)) => b <= ONE_Q32,
            None => true,
        })
    }

    /// Check the machine bounds at run time, for callers outside the
    /// verified world.
    pub fn check_wf(&self) -> (r: bool)
        ensures
            r == self.wf(),
    {
        dist_opt_ok(self.max_dist_between_feet)
            && dist_decay_ok(self.dist_between_feet_decay)
            && dist_opt_ok(self.max_dist_between_feet_if_crossover)
            && dist_opt_ok(self.max_dist_between_steps)
            && dist_decay_ok(self.dist_between_steps_decay)
            && dist_opt_ok(self.max_horizontal_dist_between_steps)
            && dist_decay_ok(self.horizontal_dist_between_steps_decay)
            && dist_opt_ok(self.max_horizontal_dist_between_steps_if_crossover)
            && dist_opt_ok(self.max_vertical_dist_between_steps)
            && dist_decay_ok(self.vertical_dist_between_steps_decay)
            && dist_decay_ok(self.horizontal_dist_between_3_steps_same_foot_decay)
            && dist_opt_ok(self.max_horizontal_dist_between_4_steps_both_feet)
            && dist_decay_ok(self.horizontal_dist_between_3_steps_decay)
            && angle_opt_ok(self.max_angle)
            && angle_decay_ok(self.angle_decay)
            && angle_opt_ok(self.max_turn)
            && angle_decay_ok(self.turn_decay)
            && mult_opt_ok(self.crossover_multiplier)
            && angle_opt_ok(self.max_bar_angle)
            && angle_decay_ok(self.bar_angle_decay)
            && mult_opt_ok(self.other_foot_repeat_decay)
            && mult_opt_ok(self.preserve_input_repetitions)
            && dist_decay_ok(self.doubles_movement)
            && dist_opt_ok(self.doubles_dist_from_side)
            && (match self.doubles_steps_per_dist {
                Some(v) => 0 <= v && v <= SPD_PARAM_LIMIT,
                None => true,
            })
            && (match self.repeated_decay {
                Some((_t, b)) => b <= ONE_Q32,
                None => true,
            })
    }
}

fn dist_opt_ok(o: Option<i64>) -> (r: bool)
    ensures
        r == dist_opt_wf(o),
{
    match o {
        Some(v) => 0 <= v && v <= DIST_PARAM_LIMIT,
        None => true,
    }
}

fn dist_decay_ok(o: Option<(i64, u64)>) -> (r: bool)
    ensures
        r == dist_decay_wf(o),
{
    match o {
        Some((v, b)) => 0 <= v && v <= DIST_PARAM_LIMIT && b <= ONE_Q32,
        None => true,
    }
}

fn angle_opt_ok(o: Option<i64>) -> (r: bool)
    ensures
        r == angle_opt_wf(o),
{
    match o {
        Some(v) => 0 <= v && v <= ANGLE_PARAM_LIMIT,
        None => true,
    }
}

fn angle_decay_ok(o: Option<(i64, u64)>) -> (r: bool)
    ensures
        r == angle_decay_wf(o),
{
    match o {
        Some((v, b)) => 0 <= v && v <= ANGLE_PARAM_LIMIT && b <= ONE_Q32,
        None => true,
    }
}

fn mult_opt_ok(o: Option<u64>) -> (r: bool)
    ensures
        r == mult_opt_wf(o),
{
    match o {
        Some(m) => m <= WEIGHT_CAP,
        None => true,
    }
}

impl Default for GeneratorParameters {
    /// The empty configuration: no hard constraint, no decay, no flag.
    fn default() -> (r: Self)
        ensures
            r.seed.is_none(),
            !r.disallow_footswitch,
            r.max_repeated.is_none(),
            r.repeated_decay.is_none(),
            r.other_foot_repeat_decay.is_none(),
            r.max_dist_between_feet.is_none(),
            r.dist_between_feet_decay.is_none(),
            r.max_dist_between_feet_if_crossover.is_none(),
            r.max_dist_between_steps.is_none(),
            r.dist_between_steps_decay.is_none(),
            r.max_horizontal_dist_between_steps.is_none(),
            r.horizontal_dist_between_steps_decay.is_none(),
            r.max_horizontal_dist_between_steps_if_crossover.is_none(),
            r.max_vertical_dist_between_steps.is_none(),
            r.vertical_dist_between_steps_decay.is_none(),
            r.horizontal_dist_between_3_steps_same_foot_decay.is_none(),
            r.max_horizontal_dist_between_4_steps_both_feet.is_none(),
            r.horizontal_dist_between_3_steps_decay.is_none(),
            r.max_angle.is_none(),
            r.angle_decay.is_none(),
            r.max_turn.is_none(),
            r.turn_decay.is_none(),
            r.crossover_multiplier.is_none(),
            r.max_bar_angle.is_none(),
            r.bar_angle_decay.is_none(),
            r.preserve_input_repetitions.is_none(),
            r.doubles_movement.is_none(),
            r.doubles_dist_from_side.is_none(),
            r.doubles_steps_per_dist.is_none(),
            !r.doubles_track_individual_feet,
            !r.disallow_foot_opposite_side,
            !r.remove_jumps,
            r.min_difficulty.is_none(),
            r.max_difficulty.is_none(),
            r.wf(),
    {
        GeneratorParameters {
            seed: None,
            disallow_footswitch: false,
            max_repeated: None,
            repeated_decay: None,
            other_foot_repeat_decay: None,
            max_dist_between_feet: None,
            dist_between_feet_decay: None,
            max_dist_between_feet_if_crossover: None,
            max_dist_between_steps: None,
            dist_between_steps_decay: None,
            max_horizontal_dist_between_steps: None,
            horizontal_dist_between_steps_decay: None,
            max_horizontal_dist_between_steps_if_crossover: None,
            max_vertical_dist_between_steps: None,
            vertical_dist_between_steps_decay: None,
            horizontal_dist_between_3_steps_same_foot_decay: None,
            max_horizontal_dist_between_4_steps_both_feet: None,
            horizontal_dist_between_3_steps_decay: None,
            max_angle: None,
            angle_decay: None,
            max_turn: None,
            turn_decay: None,
            crossover_multiplier: None,
            max_bar_angle: None,
            bar_angle_decay: None,
            preserve_input_repetitions: None,
            doubles_movement: None,
            doubles_dist_from_side: None,
            doubles_steps_per_dist: None,
            doubles_track_individual_feet: false,
            disallow_foot_opposite_side: false,
            remove_jumps: false,
            min_difficulty: None,
            max_difficulty: None,
        }
    }
}

/// Build the standard parameter set the command-line front end uses, from
/// its flags.  Constants mirror the tool's tuned defaults; distances are
/// exact in tenths, angles exact in `PI_U` units, and decay bases are the
/// Q32 renderings of the tuned decimal factors.
pub fn create_params(
    seed: Option<u64>,
    crossovers: i32,
    more_easy_crossovers: bool,
    vroom: bool,
    preserve_input_repetitions: bool,
    disallow_footswitch: bool,
    to_style: Style,
    min_difficulty: Option<i32>,
    max_difficulty: Option<i32>,
) -> (r: GeneratorParameters)
    requires
        0 <= crossovers <= 100,
    ensures
        r.wf(),
        r.seed == seed,
        r.disallow_footswitch == disallow_footswitch,
        r.max_repeated.is_none(),
        r.repeated_decay == (if preserve_input_repetitions {
            Option::<(i32, u64)>::None
        } else {
            Some((1i32, 429496730u64))
        }),
        r.other_foot_repeat_decay == Some(1288490189u64),
        r.max_dist_between_feet == Some((if to_style == Style::PumpDoublesBrackets {
            39i64
        } else {
            29i64
        })),
        r.max_dist_between_feet_if_crossover == Some(25i64),
        r.dist_between_feet_decay.is_none(),
        r.max_dist_between_steps == Some((if crossovers != 0 || vroom {
            29i64
        } else {
            21i64
        })),
        r.dist_between_steps_decay == Some((15i64, 1288490189u64)),
        r.max_horizontal_dist_between_steps == (if crossovers != 0 || vroom {
            Option::<i64>::None
        } else {
            Some(10i64)
        }),
        r.horizontal_dist_between_steps_decay.is_none(),
        r.max_horizontal_dist_between_steps_if_crossover == (if more_easy_crossovers {
            Some(19i64)
        } else {
            Option::<i64>::None
        }),
        r.max_vertical_dist_between_steps.is_none(),
        r.vertical_dist_between_steps_decay.is_none(),
        r.horizontal_dist_between_3_steps_same_foot_decay.is_none(),
        r.max_horizontal_dist_between_4_steps_both_feet == (
            if crossovers != 0 || preserve_input_repetitions || vroom {
                Option::<i64>::None
            } else {
                Some(25i64)
            }),
        r.horizontal_dist_between_3_steps_decay == Some((10i64,
            if crossovers != 0 || vroom { 1717986918u64 } else { 1288490189u64 })),
        r.max_angle == Some((1_800_000 + 1_080_000 * (crossovers as i64)) as i64),
        r.angle_decay.is_none(),
        r.max_turn == Some((if crossovers > 1 { PI_U } else { 2_700_000i64 })),
        r.turn_decay.is_none(),
        r.crossover_multiplier == (if more_easy_crossovers {
            Some((2 * crate::fixed::ONE_Q32) as u64)
        } else {
            Option::<u64>::None
        }),
        r.max_bar_angle.is_none(),
        r.bar_angle_decay == Some((0i64,
            if crossovers != 0 || vroom { 1717986918u64 } else { 858993459u64 })),
        r.preserve_input_repetitions == (if preserve_input_repetitions {
            Some(if crossovers != 0 { 4294967u64 } else { 0u64 })
        } else {
            Option::<u64>::None
        }),
        r.doubles_movement == Some((5i64, 85899346u64)),
        r.doubles_dist_from_side == (if vroom { Some(0i64) } else { Option::<i64>::None }),
        r.doubles_steps_per_dist == (if vroom { Some(25i64) } else { Option::<i64>::None }),
        r.doubles_track_individual_feet == (!vroom && crossovers == 0),
        r.disallow_foot_opposite_side == (crossovers == 0),
        r.remove_jumps == (crossovers != 0),
        r.min_difficulty == min_difficulty,
        r.max_difficulty == max_difficulty,
{
    let has_crossovers = crossovers != 0;
    GeneratorParameters {
        seed,
        disallow_footswitch,
        max_repeated: None,
        repeated_decay: if preserve_input_repetitions {
            None
        } else {
            Some((1, 429496730))
        },
        other_foot_repeat_decay: Some(1288490189),
        max_dist_between_feet: Some(if to_style == Style::PumpDoublesBrackets {
            39
        } else {
            29
        }),
        max_dist_between_feet_if_crossover: Some(25),
        dist_between_feet_decay: None,
        max_dist_between_steps: Some(if has_crossovers || vroom {
            29
        } else {
            21
        }),
        dist_between_steps_decay: Some((15, 1288490189)),
        max_horizontal_dist_between_steps: if has_crossovers || vroom {
            None
        } else {
            Some(10)
        },
        horizontal_dist_between_steps_decay: None,
        max_horizontal_dist_between_steps_if_crossover: if more_easy_crossovers {
            Some(19)
        } else {
            None
        },
        max_vertical_dist_between_steps: None,
        vertical_dist_between_steps_decay: None,
        horizontal_dist_between_3_steps_same_foot_decay: None,
        max_horizontal_dist_between_4_steps_both_feet: if has_crossovers
            || preserve_input_repetitions || vroom {
            None
        } else {
            Some(25)
        },
        horizontal_dist_between_3_steps_decay: Some((
            10,
            if has_crossovers || vroom {
                1717986918
            } else {
                1288490189
            },
        )),
        max_angle: Some(1_800_000 + 1_080_000 * (crossovers as i64)),
        angle_decay: None,
        max_turn: Some(if crossovers > 1 {
            PI_U
        } else {
            2_700_000
        }),
        turn_decay: None,
        crossover_multiplier: if more_easy_crossovers {
            Some((2 * crate::fixed::ONE_Q32) as u64)
        } else {
            None
        },
        max_bar_angle: None,
        bar_angle_decay: Some((0, if has_crossovers || vroom {
            1717986918
        } else {
            858993459
        })),
        preserve_input_repetitions: if preserve_input_repetitions {
            Some(if has_crossovers {
                4294967
            } else {
                0
            })
        } else {
            None
        },
        doubles_movement: Some((5, 85899346)),
        doubles_dist_from_side: if vroom {
            Some(0)
        } else {
            None
        },
        doubles_steps_per_dist: if vroom {
            Some(25)
        } else {
            None
        },
        doubles_track_individual_feet: !vroom && !has_crossovers,
        disallow_foot_opposite_side: !has_crossovers,
        remove_jumps: has_crossovers,
        min_difficulty,
        max_difficulty,
    }
}

} // verus!
