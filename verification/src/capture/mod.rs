//! Taking sequences of frames.

pub mod filing;
pub mod laws;
pub mod plan;
pub mod run;
pub mod solve;
