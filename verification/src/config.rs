//! The settings of the drive.

use vstd::prelude::*;
use crate::fixed::Fixed;

verus! {

/// The settings of the drive. Every gain is read afresh on each tick, so a
/// change takes effect without the controllers being rebuilt.
#[derive(Clone, Copy, Debug)]
pub struct Config {
    /// Travel per electrical cycle of the motor, in millimetres.
    pub motor_len_per_cycle: Fixed,
    /// Travel per cycle of the encoder, in millimetres.
    pub encoder_len_per_cycle: Fixed,
    /// Length of the calibration stroke, in millimetres.
    pub calibration_length: Fixed,
    /// Calibration speed, in electrical revolutions per second.
    pub calibration_speed: Fixed,
    /// Voltage applied while driving open-loop, in volts.
    pub open_loop_voltage: Fixed,
    /// Bus voltage below which the drive is locked out, in volts.
    pub uvlo: Fixed,
    /// Switching frequency, in hertz.
    pub switching_frequency: Fixed,
    /// Clock of the switching timer, in hertz.
    pub switching_clock_frequency: Fixed,
    /// Dead time inserted into every duty, in seconds.
    pub cycle_deadtime: Fixed,
    /// Rate of the control loop, in hertz.
    pub control_frequency: Fixed,
    /// Proportional gain of the current loops.
    pub current_controller_k_p: Fixed,
    /// Integral gain of the current loops.
    pub current_controller_k_i: Fixed,
    /// Proportional gain of the velocity loop.
    pub vel_controller_k_p: Fixed,
    /// Integral gain of the velocity loop.
    pub vel_controller_k_i: Fixed,
    /// Proportional gain of the position loop.
    pub pos_controller_k_p: Fixed,
    /// Limit of the requested current, in amperes.
    pub curr_limit: Fixed,
    /// Phase current beyond which the drive is switched off, in amperes.
    pub hard_curr_limit: Fixed,
    /// Row `j` holds the weights that give compensated channel `j`.
    pub comp_matrix: [[Fixed; 8]; 8],
    /// Offsets added to the normalized channels before they are weighted.
    pub comp_bias: [Fixed; 8],
}

impl Config {
    /// The settings the drive starts with.
    pub open spec fn spec_new() -> Config {
        Config {
            motor_len_per_cycle: Fixed { raw: 81604378624i64 },
            encoder_len_per_cycle: Fixed { raw: 10066329600i64 },
            calibration_length: Fixed { raw: 429496729600i64 },
            calibration_speed: Fixed { raw: 429496730i64 },
            open_loop_voltage: Fixed { raw: 2147483648i64 },
            uvlo: Fixed { raw: 42949672960i64 },
            switching_frequency: Fixed { raw: 858993459200000i64 },
            switching_clock_frequency: Fixed { raw: 429496729600000000i64 },
            cycle_deadtime: Fixed { raw: 1288i64 },
            control_frequency: Fixed { raw: 34359738368000i64 },
            current_controller_k_p: Fixed { raw: 94489i64 },
            current_controller_k_i: Fixed { raw: 32212255i64 },
            vel_controller_k_p: Fixed { raw: 429496730i64 },
            vel_controller_k_i: Fixed { raw: 5368709i64 },
            pos_controller_k_p: Fixed { raw: 171798691840i64 },
            curr_limit: Fixed { raw: 96636764160i64 },
            hard_curr_limit: Fixed { raw: 150323855360i64 },
            comp_matrix: [
                [Fixed { raw: 4798766960i64 }, Fixed { raw: -3569547320i64 }, Fixed { raw: 1272598810i64 }, Fixed { raw: -1387274437i64 }, Fixed { raw: 51539608i64 }, Fixed { raw: 129708012i64 }, Fixed { raw: 0i64 }, Fixed { raw: 0i64 }],
                [Fixed { raw: -4548799863i64 }, Fixed { raw: 3871913017i64 }, Fixed { raw: -1525142887i64 }, Fixed { raw: 1233514607i64 }, Fixed { raw: -34359738i64 }, Fixed { raw: -121118078i64 }, Fixed { raw: 0i64 }, Fixed { raw: 0i64 }],
                [Fixed { raw: 1437096057i64 }, Fixed { raw: -1293214653i64 }, Fixed { raw: 3163243414i64 }, Fixed { raw: -3083357022i64 }, Fixed { raw: 190267051i64 }, Fixed { raw: 275307404i64 }, Fixed { raw: 0i64 }, Fixed { raw: 0i64 }],
                [Fixed { raw: -1804745258i64 }, Fixed { raw: 824204224i64 }, Fixed { raw: -2697668959i64 }, Fixed { raw: 3372408321i64 }, Fixed { raw: -216466352i64 }, Fixed { raw: -299359221i64 }, Fixed { raw: 0i64 }, Fixed { raw: 0i64 }],
                [Fixed { raw: -397713972i64 }, Fixed { raw: 329853488i64 }, Fixed { raw: -222479306i64 }, Fixed { raw: 355193795i64 }, Fixed { raw: 4721887045i64 }, Fixed { raw: -880038799i64 }, Fixed { raw: -721554506i64 }, Fixed { raw: -702656650i64 }],
                [Fixed { raw: -384399573i64 }, Fixed { raw: -1176821039i64 }, Fixed { raw: -768799146i64 }, Fixed { raw: -1309965025i64 }, Fixed { raw: -445817605i64 }, Fixed { raw: 5552104224i64 }, Fixed { raw: 13743895i64 }, Fixed { raw: -6442451i64 }],
                [Fixed { raw: 0i64 }, Fixed { raw: 0i64 }, Fixed { raw: 0i64 }, Fixed { raw: 0i64 }, Fixed { raw: 36077725i64 }, Fixed { raw: -82033875i64 }, Fixed { raw: 5747525236i64 }, Fixed { raw: -1006740334i64 }],
                [Fixed { raw: 0i64 }, Fixed { raw: 0i64 }, Fixed { raw: 0i64 }, Fixed { raw: 0i64 }, Fixed { raw: -173946175i64 }, Fixed { raw: 555339271i64 }, Fixed { raw: -915687028i64 }, Fixed { raw: 6108302488i64 }],
            ],
            comp_bias: [Fixed { raw: -40802189i64 }, Fixed { raw: -226344776i64 }, Fixed { raw: -275736900i64 }, Fixed { raw: -59700045i64 }, Fixed { raw: -176093659i64 }, Fixed { raw: -313532613i64 }, Fixed { raw: -268005959i64 }, Fixed { raw: -210023901i64 }],
        }
    }

    #[verifier::when_used_as_spec(spec_new)]
    pub fn new() -> (r: Config)
        ensures
            r == Config::spec_new(),
    {
        Config {
            motor_len_per_cycle: Fixed { raw: 81604378624i64 },
            encoder_len_per_cycle: Fixed { raw: 10066329600i64 },
            calibration_length: Fixed { raw: 429496729600i64 },
            calibration_speed: Fixed { raw: 429496730i64 },
            open_loop_voltage: Fixed { raw: 2147483648i64 },
            uvlo: Fixed { raw: 42949672960i64 },
            switching_frequency: Fixed { raw: 858993459200000i64 },
            switching_clock_frequency: Fixed { raw: 429496729600000000i64 },
            cycle_deadtime: Fixed { raw: 1288i64 },
            control_frequency: Fixed { raw: 34359738368000i64 },
            current_controller_k_p: Fixed { raw: 94489i64 },
            current_controller_k_i: Fixed { raw: 32212255i64 },
            vel_controller_k_p: Fixed { raw: 429496730i64 },
            vel_controller_k_i: Fixed { raw: 5368709i64 },
            pos_controller_k_p: Fixed { raw: 171798691840i64 },
            curr_limit: Fixed { raw: 96636764160i64 },
            hard_curr_limit: Fixed { raw: 150323855360i64 },
            comp_matrix: [
                [Fixed { raw: 4798766960i64 }, Fixed { raw: -3569547320i64 }, Fixed { raw: 1272598810i64 }, Fixed { raw: -1387274437i64 }, Fixed { raw: 51539608i64 }, Fixed { raw: 129708012i64 }, Fixed { raw: 0i64 }, Fixed { raw: 0i64 }],
                [Fixed { raw: -4548799863i64 }, Fixed { raw: 3871913017i64 }, Fixed { raw: -1525142887i64 }, Fixed { raw: 1233514607i64 }, Fixed { raw: -34359738i64 }, Fixed { raw: -121118078i64 }, Fixed { raw: 0i64 }, Fixed { raw: 0i64 }],
                [Fixed { raw: 1437096057i64 }, Fixed { raw: -1293214653i64 }, Fixed { raw: 3163243414i64 }, Fixed { raw: -3083357022i64 }, Fixed { raw: 190267051i64 }, Fixed { raw: 275307404i64 }, Fixed { raw: 0i64 }, Fixed { raw: 0i64 }],
                [Fixed { raw: -1804745258i64 }, Fixed { raw: 824204224i64 }, Fixed { raw: -2697668959i64 }, Fixed { raw: 3372408321i64 }, Fixed { raw: -216466352i64 }, Fixed { raw: -299359221i64 }, Fixed { raw: 0i64 }, Fixed { raw: 0i64 }],
                [Fixed { raw: -397713972i64 }, Fixed { raw: 329853488i64 }, Fixed { raw: -222479306i64 }, Fixed { raw: 355193795i64 }, Fixed { raw: 4721887045i64 }, Fixed { raw: -880038799i64 }, Fixed { raw: -721554506i64 }, Fixed { raw: -702656650i64 }],
                [Fixed { raw: -384399573i64 }, Fixed { raw: -1176821039i64 }, Fixed { raw: -768799146i64 }, Fixed { raw: -1309965025i64 }, Fixed { raw: -445817605i64 }, Fixed { raw: 5552104224i64 }, Fixed { raw: 13743895i64 }, Fixed { raw: -6442451i64 }],
                [Fixed { raw: 0i64 }, Fixed { raw: 0i64 }, Fixed { raw: 0i64 }, Fixed { raw: 0i64 }, Fixed { raw: 36077725i64 }, Fixed { raw: -82033875i64 }, Fixed { raw: 5747525236i64 }, Fixed { raw: -1006740334i64 }],
                [Fixed { raw: 0i64 }, Fixed { raw: 0i64 }, Fixed { raw: 0i64 }, Fixed { raw: 0i64 }, Fixed { raw: -173946175i64 }, Fixed { raw: 555339271i64 }, Fixed { raw: -915687028i64 }, Fixed { raw: 6108302488i64 }],
            ],
            comp_bias: [Fixed { raw: -40802189i64 }, Fixed { raw: -226344776i64 }, Fixed { raw: -275736900i64 }, Fixed { raw: -59700045i64 }, Fixed { raw: -176093659i64 }, Fixed { raw: -313532613i64 }, Fixed { raw: -268005959i64 }, Fixed { raw: -210023901i64 }],
        }
    }
}

} // verus!
