//! The rainbow effect: the colour runs through the hues at a fixed opacity
//! until the effect ends.

use vstd::prelude::*;

use crate::color::FlashColor;
use crate::effect::default::{default_frame, DURATION_MS};

verus! {

/// The whole length of the rainbow effect.
pub const RAINBOW_DURATION_MS: u64 = 900;

/// The delay between two samples while the rainbow effect runs.
pub const RAINBOW_STEP_MS: u64 = 16;

/// The built-in rainbow effect.
#[derive(Clone, Copy, Debug, Default, PartialEq, Eq, Structural)]
pub struct RainbowFlashEffect;

/// One sample of the rainbow effect.
#[derive(Clone, Copy, Debug, PartialEq, Eq, Structural)]
pub struct RainbowFrame {
    /// How far through the hue cycle the colour is, in milliseconds out of
    /// `RAINBOW_DURATION_MS`: the hue is `360 * hue_elapsed_ms / RAINBOW_DURATION_MS` degrees.
    pub hue_elapsed_ms: u64,
    /// Whether the effect still shows (at its fixed opacity) or has ended (transparent).
    pub active: bool,
    /// The delay before the next sample, `None` once the effect is over.
    pub next_step_ms: Option<u64>,
}

/// The sample of the rainbow effect after `elapsed_ms` milliseconds.
pub open spec fn rainbow_frame(elapsed_ms: u64) -> RainbowFrame {
    if elapsed_ms >= RAINBOW_DURATION_MS {
        RainbowFrame {
            hue_elapsed_ms: RAINBOW_DURATION_MS,
            active: false,
            next_step_ms: None,
        }
    } else {
        RainbowFrame { hue_elapsed_ms: elapsed_ms, active: true, next_step_ms: Some(RAINBOW_STEP_MS) }
    }
}

impl RainbowFlashEffect {
    /// Samples the effect after `elapsed_ms` milliseconds.
    pub fn frame(&self, elapsed_ms: u64) -> (frame: RainbowFrame)
        ensures
            frame == rainbow_frame(elapsed_ms),
    {
        if elapsed_ms >= RAINBOW_DURATION_MS {
            return RainbowFrame {
                hue_elapsed_ms: RAINBOW_DURATION_MS,
                active: false,
                next_step_ms: None,
            };
        }
        RainbowFrame { hue_elapsed_ms: elapsed_ms, active: true, next_step_ms: Some(RAINBOW_STEP_MS) }
    }
}


/// The rainbow effect shows at its fixed opacity exactly while it runs, its
/// place in the hue cycle never moves backwards, and once it has ended it
/// stays ended; while it runs the next step is a positive delay.
pub proof fn lemma_rainbow_effect_progresses(t1: u64, t2: u64)
    requires
        t1 <= t2,
    ensures
        rainbow_frame(t1).active <==> t1 < RAINBOW_DURATION_MS,
        rainbow_frame(t1).active <==> rainbow_frame(t1).next_step_ms is Some,
        rainbow_frame(t1).next_step_ms matches Some(step) ==> step > 0,
        rainbow_frame(t1).hue_elapsed_ms <= rainbow_frame(t2).hue_elapsed_ms,
        rainbow_frame(t1).hue_elapsed_ms <= RAINBOW_DURATION_MS,
        t1 < t2 && rainbow_frame(t2).active ==> rainbow_frame(t1).hue_elapsed_ms
            < rainbow_frame(t2).hue_elapsed_ms,
        !rainbow_frame(t1).active ==> !rainbow_frame(t2).active,
{
}

/// The rainbow effect lasts longer than the default one: whenever the default
/// effect still runs, so does the rainbow, and from the end of the default
/// effect to the end of the rainbow only the rainbow runs.
pub proof fn lemma_rainbow_outlasts_default(color: FlashColor, t: u64)
    ensures
        default_frame(color, t).next_step_ms is Some ==> rainbow_frame(t).active,
        DURATION_MS <= t < RAINBOW_DURATION_MS ==> default_frame(color, t).phase is Finished
            && rainbow_frame(t).active,
        DURATION_MS < RAINBOW_DURATION_MS,
{
}


/// While the rainbow effect runs it is sampled every 16 ms, the fixed step, so
/// that its colour moves through the hues; from its end on there is no next sample.
pub proof fn lemma_rainbow_effect_step(elapsed_ms: u64)
    ensures
        RAINBOW_STEP_MS == 16,
        RAINBOW_DURATION_MS == 900,
        elapsed_ms < RAINBOW_DURATION_MS ==> rainbow_frame(elapsed_ms).next_step_ms == Some(
            RAINBOW_STEP_MS,
        ),
        elapsed_ms < RAINBOW_DURATION_MS ==> rainbow_frame(elapsed_ms).hue_elapsed_ms
            == elapsed_ms,
        elapsed_ms >= RAINBOW_DURATION_MS ==> rainbow_frame(elapsed_ms).next_step_ms is None,
        elapsed_ms >= RAINBOW_DURATION_MS ==> rainbow_frame(elapsed_ms).hue_elapsed_ms
            == RAINBOW_DURATION_MS && !rainbow_frame(elapsed_ms).active,
        elapsed_ms < RAINBOW_DURATION_MS ==> rainbow_frame(elapsed_ms).active,
{
}

} // verus!
