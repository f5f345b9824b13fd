//! The built-in flash effects. An effect is sampled at the milliseconds elapsed
//! since the flash began; each sample tells the colour, the phase that decides
//! the opacity, and how long to wait before the next sample (none once the
//! effect is over).

pub mod default;
pub mod rainbow;
