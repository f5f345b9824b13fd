//! The default effect: a short hold at the highest opacity, then a fade out.

use vstd::prelude::*;

use crate::color::FlashColor;

verus! {

/// How long the default effect holds its highest opacity.
pub const HOLD_MS: u64 = 90;

/// How long the default effect then takes to fade out.
pub const FADE_MS: u64 = 240;

/// The whole length of the default effect.
pub const DURATION_MS: u64 = HOLD_MS + FADE_MS;

/// The delay between two samples while the default effect runs.
pub const STEP_MS: u64 = 16;

/// The built-in default effect: a colour that briefly holds a high opacity and
/// then fades out.
#[derive(Clone, Copy, Debug, PartialEq, Eq, Structural)]
pub struct DefaultFlashEffect {
    /// The colour of the flash.
    pub color: FlashColor,
}

/// Black, the colour of the default effect when none is given.
pub open spec fn black() -> FlashColor {
    FlashColor { red: 0, green: 0, blue: 0 }
}

impl Default for DefaultFlashEffect {
    fn default() -> (effect: Self)
        ensures
            effect.color == black(),
    {
        DefaultFlashEffect { color: FlashColor { red: 0, green: 0, blue: 0 } }
    }
}

/// Where the default effect stands at a given instant. The opacity is the
/// highest while holding, the highest scaled by `remaining_ms / FADE_MS` while
/// fading, and zero once finished.
#[derive(Clone, Copy, Debug, PartialEq, Eq, Structural)]
pub enum DefaultPhase {
    /// Up to `HOLD_MS`: full opacity.
    Hold,
    /// Between `HOLD_MS` and `DURATION_MS`: fading, with this much of the fade left.
    Fading { remaining_ms: u64 },
    /// From `DURATION_MS` on: transparent, and no further sample.
    Finished,
}

/// One sample of the default effect.
#[derive(Clone, Copy, Debug, PartialEq, Eq, Structural)]
pub struct DefaultFrame {
    /// The colour to show.
    pub color: FlashColor,
    /// The phase that decides the opacity.
    pub phase: DefaultPhase,
    /// The delay before the next sample, `None` once the effect is over.
    pub next_step_ms: Option<u64>,
}

/// The phase of the default effect after `elapsed_ms` milliseconds.
pub open spec fn default_phase(elapsed_ms: u64) -> DefaultPhase {
    if elapsed_ms <= HOLD_MS {
        DefaultPhase::Hold
    } else if elapsed_ms >= DURATION_MS {
        DefaultPhase::Finished
    } else {
        DefaultPhase::Fading { remaining_ms: (FADE_MS - (elapsed_ms - HOLD_MS)) as u64 }
    }
}

/// The sample of the default effect in `color` after `elapsed_ms` milliseconds.
pub open spec fn default_frame(color: FlashColor, elapsed_ms: u64) -> DefaultFrame {
    DefaultFrame {
        color,
        phase: default_phase(elapsed_ms),
        next_step_ms: if elapsed_ms >= DURATION_MS {
            None
        } else {
            Some(STEP_MS)
        },
    }
}

impl DefaultFlashEffect {
    /// Samples the effect after `elapsed_ms` milliseconds.
    pub fn frame(&self, elapsed_ms: u64) -> (frame: DefaultFrame)
        ensures
            frame == default_frame(self.color, elapsed_ms),
    {
        let phase = if elapsed_ms <= HOLD_MS {
            DefaultPhase::Hold
        } else if elapsed_ms >= DURATION_MS {
            DefaultPhase::Finished
        } else {
            let fade_elapsed_ms = elapsed_ms - HOLD_MS;
            DefaultPhase::Fading { remaining_ms: FADE_MS - fade_elapsed_ms }
        };
        let next_step_ms = if elapsed_ms >= DURATION_MS {
            None
        } else {
            Some(STEP_MS)
        };
        DefaultFrame { color: self.color, phase, next_step_ms }
    }
}


/// The default effect holds, then fades, then stays finished: at any two
/// instants `t1 <= t2`, the later phase is no earlier one, the fade left only
/// shrinks (strictly, while fading), a fading sample always has some of the
/// fade left and less than all of it, and once the effect has no next step it
/// never gets one again. While it runs the next step is a positive delay.
pub proof fn lemma_default_effect_progresses(color: FlashColor, t1: u64, t2: u64)
    requires
        t1 <= t2,
    ensures
        default_frame(color, t1).phase matches DefaultPhase::Fading { remaining_ms } ==> 0
            < remaining_ms < FADE_MS,
        default_frame(color, t2).phase is Hold ==> default_frame(color, t1).phase is Hold,
        default_frame(color, t1).phase is Finished ==> default_frame(color, t2).phase is Finished,
        t1 < t2 ==> (default_frame(color, t1).phase matches DefaultPhase::Fading { remaining_ms: r1 }
            ==> (default_frame(color, t2).phase matches DefaultPhase::Fading { remaining_ms: r2 }
            ==> r2 < r1)),
        default_frame(color, t1).next_step_ms is None ==> default_frame(color, t2).next_step_ms is None,
        default_frame(color, t1).next_step_ms matches Some(step) ==> step > 0,
        default_frame(color, t1).next_step_ms is None <==> default_frame(color, t1).phase is Finished,
        default_frame(color, t1).color == color,
{
}


/// While the default effect runs it is sampled every 16 ms, the fixed step,
/// whatever its colour and phase; from its end on there is no next sample.
pub proof fn lemma_default_effect_step(color: FlashColor, elapsed_ms: u64)
    ensures
        STEP_MS == 16,
        DURATION_MS == 330,
        elapsed_ms < DURATION_MS ==> default_frame(color, elapsed_ms).next_step_ms == Some(
            STEP_MS,
        ),
        elapsed_ms >= DURATION_MS ==> default_frame(color, elapsed_ms).next_step_ms is None,
{
}

/// The default effect holds its full opacity for its first 90 ms, then fades
/// over 240 ms, the fade left at each instant being the time left until the
/// end at 330 ms, and is finished from then on.
pub proof fn lemma_default_effect_phases(color: FlashColor, elapsed_ms: u64)
    ensures
        HOLD_MS == 90,
        FADE_MS == 240,
        (default_frame(color, elapsed_ms).phase is Hold) <==> elapsed_ms <= 90,
        (default_frame(color, elapsed_ms).phase is Finished) <==> elapsed_ms >= 330,
        90 < elapsed_ms < 330 ==> default_frame(color, elapsed_ms).phase == (DefaultPhase::Fading {
            remaining_ms: (330 - elapsed_ms) as u64,
        }),
{
}

/// The default colour of the default effect is black.
pub proof fn lemma_default_color_is_black()
    ensures
        black() == (FlashColor { red: 0, green: 0, blue: 0 }),
{
}

/// The default effect shows the colour it was made with, at every instant.
pub proof fn lemma_default_effect_color(color: FlashColor, elapsed_ms: u64)
    ensures
        default_frame(color, elapsed_ms).color == color,
{
}

} // verus!
