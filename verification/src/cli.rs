//! The command line of the flash program: a built-in effect, and for the
//! default effect an optional colour.

pub mod color;

use vstd::prelude::*;

use crate::color::FlashColor;
use crate::effect::default::{black, DefaultFlashEffect};
use crate::effect::rainbow::RainbowFlashEffect;

verus! {

/// The built-in effects that the command can play.
#[derive(Clone, Copy, Debug, PartialEq, Eq, Structural)]
pub enum BuiltinEffect {
    Default,
    Rainbow,
}

/// The parsed command line.
#[derive(Clone, Copy, Debug, PartialEq, Eq, Structural)]
pub struct Cli {
    /// The effect to play.
    pub effect: BuiltinEffect,
    /// The colour of the default effect; not allowed with another effect.
    pub color: Option<FlashColor>,
}

/// The effect that a command line asks for, ready to be flashed.
#[derive(Clone, Copy, Debug, PartialEq, Eq, Structural)]
pub enum SelectedEffect {
    Default(DefaultFlashEffect),
    Rainbow(RainbowFlashEffect),
}

/// The message for a colour given with an effect other than the default one.
pub open spec fn color_with_other_effect_message() -> Seq<char> {
    "--color can only be used with the default effect"@
}

/// What a command line selects: the default effect in the given colour (black
/// when none is given), or the rainbow effect, which takes no colour.
pub open spec fn selection(cli: Cli) -> Result<SelectedEffect, Seq<char>> {
    match cli.effect {
        BuiltinEffect::Default => Ok(
            SelectedEffect::Default(
                DefaultFlashEffect {
                    color: match cli.color {
                        Some(color) => color,
                        None => black(),
                    },
                },
            ),
        ),
        BuiltinEffect::Rainbow => if cli.color.is_some() {
            Err(color_with_other_effect_message())
        } else {
            Ok(SelectedEffect::Rainbow(RainbowFlashEffect))
        },
    }
}

/// A selection with its error message as characters.
pub open spec fn selection_of(r: Result<SelectedEffect, String>) -> Result<SelectedEffect, Seq<char>> {
    match r {
        Ok(effect) => Ok(effect),
        Err(message) => Err(message@),
    }
}

/// The default effect takes exactly the colour given, and black without one;
/// the rainbow effect refuses a colour and is chosen without one.
pub proof fn lemma_selection_by_case(color: FlashColor)
    ensures
        selection(Cli { effect: BuiltinEffect::Default, color: Some(color) }) == Ok::<
            SelectedEffect,
            Seq<char>,
        >(SelectedEffect::Default(DefaultFlashEffect { color })),
        selection(Cli { effect: BuiltinEffect::Default, color: None }) == Ok::<
            SelectedEffect,
            Seq<char>,
        >(SelectedEffect::Default(DefaultFlashEffect { color: FlashColor { red: 0, green: 0, blue: 0 } })),
        selection(Cli { effect: BuiltinEffect::Rainbow, color: Some(color) }) == Err::<
            SelectedEffect,
            Seq<char>,
        >(color_with_other_effect_message()),
        selection(Cli { effect: BuiltinEffect::Rainbow, color: None }) == Ok::<
            SelectedEffect,
            Seq<char>,
        >(SelectedEffect::Rainbow(RainbowFlashEffect)),
{
}

impl Cli {
    /// Chooses the effect that this command line asks for.
    pub fn run(self) -> (r: Result<SelectedEffect, String>)
        ensures
            selection_of(r) == selection(self),
    {
        match self.effect {
            BuiltinEffect::Default => {
                let effect = match self.color {
                    Some(color) => DefaultFlashEffect { color },
                    None => DefaultFlashEffect::default(),
                };
                Ok(SelectedEffect::Default(effect))
            },
            BuiltinEffect::Rainbow => {
                if self.color.is_some() {
                    return Err("--color can only be used with the default effect".to_owned());
                }
                Ok(SelectedEffect::Rainbow(RainbowFlashEffect))
            },
        }
    }
}

/// Runs a parsed command line: the effect to flash, or why there is none.
pub fn run(cli: Cli) -> (r: Result<SelectedEffect, String>)
    ensures
        selection_of(r) == selection(cli),
{
    cli.run()
}

} // verus!
