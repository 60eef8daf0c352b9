//! Smooth color fading for a three-channel PWM LED.
//!
//! `ramp` steps one channel's duty value toward a target, one write per
//! step; `sequence` holds the built-in table of color targets; `player`
//! walks that table forever, ramping red, green and blue in turn.

pub mod player;
pub mod ramp;
pub mod sequence;
