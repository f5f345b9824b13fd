//! Packing a colour for GDI, and the decisions of the flash loop.

use vstd::prelude::*;

use crate::color::FlashColor;

verus! {

/// The `COLORREF` value of a colour as a plain integer: red in the lowest byte,
/// then green, then blue.
pub open spec fn colorref_value(color: FlashColor) -> int {
    color.red + color.green * 256 + color.blue * 65536
}

/// Packs a colour into the `0x00BBGGRR` layout that GDI expects.
pub fn colorref_from_flash_color(color: FlashColor) -> (packed: u32)
    ensures
        packed == colorref_value(color),
        packed < 0x0100_0000,
        packed & 0xff == color.red,
        (packed >> 8u32) & 0xff == color.green,
        (packed >> 16u32) & 0xff == color.blue,
{
    let r: u32 = color.red as u32;
    let g: u32 = color.green as u32;
    let b: u32 = color.blue as u32;
    let packed: u32 = r | (g << 8u32) | (b << 16u32);
    assert(r < 256 && g < 256 && b < 256 ==> {
        let p = r | (g << 8u32) | (b << 16u32);
        &&& p == r + g * 256 + b * 65536
        &&& p < 0x0100_0000
        &&& p & 0xff == r
        &&& (p >> 8u32) & 0xff == g
        &&& (p >> 16u32) & 0xff == b
    }) by (bit_vector);
    packed
}


/// Distinct colours are painted with distinct `COLORREF` values.
pub proof fn lemma_colorref_injective(a: FlashColor, b: FlashColor)
    ensures
        colorref_value(a) == colorref_value(b) ==> a == b,
{
}

/// What the flash loop does after it has applied a sample.
#[derive(Clone, Copy, Debug, PartialEq, Eq, Structural)]
pub enum FlashAction {
    /// Sleep this many milliseconds, then take the next sample.
    Wait { ms: u64 },
    /// The effect is over: clear and destroy the window.
    Finish,
}

/// The action for a sample's `next_step_ms`: wait that long, but never less
/// than a millisecond, or finish when there is no next step.
pub open spec fn action_after(next_step_ms: Option<u64>) -> FlashAction {
    match next_step_ms {
        Some(step_ms) => FlashAction::Wait { ms: if step_ms < 1 { 1 } else { step_ms } },
        None => FlashAction::Finish,
    }
}

/// The loop waits exactly the step a sample asks for when it is positive, a
/// millisecond when it asks for none, and finishes when there is no next step.
pub proof fn lemma_loop_waits_the_step(step_ms: u64)
    ensures
        step_ms >= 1 ==> action_after(Some(step_ms)) == (FlashAction::Wait { ms: step_ms }),
        action_after(Some(0)) == (FlashAction::Wait { ms: 1 }),
        action_after(None) == FlashAction::Finish,
{
}

/// Decides what the flash loop does once a sample has been applied.
pub fn after_sample(next_step_ms: Option<u64>) -> (action: FlashAction)
    ensures
        action == action_after(next_step_ms),
        action matches FlashAction::Wait { ms } ==> ms >= 1,
{
    match next_step_ms {
        Some(step_ms) => FlashAction::Wait { ms: if step_ms < 1 { 1 } else { step_ms } },
        None => FlashAction::Finish,
    }
}

/// The outcome of a flash from the outcome of running it and that of
/// unregistering its window class: the first error wins.
pub open spec fn flash_outcome<E>(flash: Result<(), E>, unregister: Result<(), E>) -> Result<(), E> {
    match flash {
        Err(error) => Err(error),
        Ok(()) => unregister,
    }
}

/// A flash that failed reports its own error, whatever unregistering gave; a
/// flash that succeeded reports the outcome of unregistering.
pub proof fn lemma_first_error_wins<E>(flash: Result<(), E>, unregister: Result<(), E>)
    ensures
        flash matches Err(e) ==> flash_outcome(flash, unregister) == Err::<(), E>(e),
        flash is Ok ==> flash_outcome(flash, unregister) == unregister,
        flash_outcome(flash, unregister) is Ok <==> (flash is Ok && unregister is Ok),
{
}

/// Combines the outcome of running a flash with that of unregistering its
/// window class; the window class is unregistered whether or not the flash failed.
pub fn combine_outcomes<E>(flash: Result<(), E>, unregister: Result<(), E>) -> (r: Result<(), E>)
    ensures
        r == flash_outcome(flash, unregister),
{
    if flash.is_err() {
        flash
    } else {
        unregister
    }
}

} // verus!
