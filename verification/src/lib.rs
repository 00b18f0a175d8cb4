//! Spin-orbit dynamics of an elongated moon on a fixed orbit: the state of the
//! system, the rules that admit a state or a step, the history of a run, and the
//! analysis that picks one point per orbital cycle for a stroboscopic section.
//!
//! Every quantity is an IEEE 754 binary64 number held by its encoding, so that
//! the comparisons the analysis depends on are exact integer facts.

pub mod binary64;
pub mod hyperion;
pub mod sampler;
pub mod cycles;
pub mod dataset;
