//! Triggered acquisition for an oscilloscope-style display.
//!
//! A stream of samples arrives in blocks. The engine keeps a sliding window of
//! the most recent samples, tests every adjacent pair of samples against an
//! edge trigger, and publishes a copy of the window to a display buffer each
//! time the trigger fires outside its hold-off time.
//!
//! Samples are IEEE 754 binary32 values held by their bit pattern, so that
//! every comparison the trigger makes is stated and proved over integers.

pub mod sample;
pub mod trigger;
pub mod window;
pub mod display;
pub mod pairs;
pub mod clock;
pub mod config;
pub mod decimal;
pub mod engine;
pub mod theorems;
