//! A countdown-timer engine: one state record, four commands that change it,
//! and a once-per-second step that advances it. Every function here is a pure
//! transition from a state and a clock reading to a new state and the effects
//! that the host should carry out.

pub mod laws;
pub mod model;
pub mod notice;
pub mod timer;
