//! Verified core of the dressed trajectory field reproduction: experiment
//! sequencing, seed schedules, block-structured matrix layouts, the limited
//! memory of the quasi-Newton optimiser, and plot text escaping.

pub mod band;
pub mod experiment;
pub mod lbfgs;
pub mod matrix;
pub mod model;
pub mod plot;
pub mod seeds;
