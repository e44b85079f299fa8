//! A catalog-driven engine for terminal color themes: a normalized color
//! value with hex/HSV conversion and blend/shade arithmetic, completion of
//! sparse color ramps, derivation of a full palette from a base one, and
//! fuzzy resolution of theme names.
//!
//! Colors are carried as fixed-point integers: a channel is measured in
//! units of 1/255000 (so a hex byte `b` maps exactly to `1000 * b`), hue in
//! thousandths of a degree, saturation and value in thousandths of a
//! percent, and blend or shade fractions in thousandths.

pub mod error;
pub mod hex;
pub mod color;
pub mod config;
pub mod ramp;
pub mod term;
pub mod theme;
pub mod collection;
pub mod alacritty;
