//! A verified calendar library: month arithmetic for the proleptic Gregorian
//! calendar, resolution of a requested month from optional arguments, and the
//! layout of a month as a fixed-width text grid with an optional highlighted
//! day.

pub mod arith;
pub mod error;
pub mod grid;
pub mod resolve;
pub mod text;
