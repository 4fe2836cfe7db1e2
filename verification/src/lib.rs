//! An estimate of pi from straight lines: the arc of a sector of the unit circle is
//! measured as a sum of chords between sampled points and scaled up to the circle.
//!
//! All numbers are exact rationals. The one inexact step is the decimal square root
//! of [`root`], which cuts a root off after a given number of digits; [`circle`],
//! [`sector`] and [`estimate`] are built on it.

pub mod args;
pub mod circle;
pub mod error;
pub mod estimate;
pub mod power;
pub mod rational;
pub mod root;
pub mod sector;
