//! Deterministic synthesis and supervision logic for a batch media converter.

pub mod arguments;
pub mod ascii;
pub mod cancel;
pub mod digits;
pub mod encoder;
pub mod error;
pub mod gradient;
pub mod inputs;
pub mod job;
pub mod naming;
pub mod progress;
pub mod pulse;
pub mod scroll;
pub mod slideshow;
pub mod strip;
pub mod tools;
pub mod wind;
