//! Full-screen flash effects: colours, effect schedules and colour parsing.

pub mod cli;
pub mod color;
pub mod color_arg;
pub mod effect;
pub mod flash;
pub mod text;

pub use cli::color::{flash_color_cuts_safe, parse_flash_color};
pub use cli::{run, BuiltinEffect, Cli, SelectedEffect};
pub use color::FlashColor;
pub use color_arg::{color_arg_cuts_safely, parse_color, CliError};
pub use effect::default::{
    DefaultFlashEffect, DefaultFrame, DefaultPhase, DURATION_MS, FADE_MS, HOLD_MS, STEP_MS,
};
pub use effect::rainbow::{RainbowFlashEffect, RainbowFrame, RAINBOW_DURATION_MS, RAINBOW_STEP_MS};
pub use flash::{after_sample, colorref_from_flash_color, combine_outcomes, FlashAction};
