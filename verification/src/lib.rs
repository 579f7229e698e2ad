//! Astronomical darkness calculator.
//!
//! Computes, for a geographic location and date, when the Sun and Moon
//! cross the horizon and the successive twilight bands, and the darkness
//! window available for deep-sky observation.  Calendar arithmetic is
//! carried out exactly on Julian Day Numbers and seconds of day; horizon
//! crossings and darkness windows are found on sampled altitude grids
//! held in fixed-point units (ten-thousandths of a degree, milliseconds
//! of time), so every decision the engine takes is stated and proved.

pub mod constraint;
pub mod constraints;
pub mod darkness;
pub mod datetime;
pub mod environment;
pub mod horizon;
pub mod moon;
pub mod observer;
pub mod reports;
pub mod sun;
pub mod text;
