//! Decide whether one of several candidate container images already exists
//! in a registry.
//!
//! The library has two halves. The reference parser (`images`, `args`) turns
//! a list of raw command-line tokens into fully qualified image references,
//! enforcing a single addressing mode for the whole batch. The existence
//! prober (`probe`) is the decision core of the registry probe: a state
//! machine that authenticates once, then checks candidates strictly in input
//! order and stops at the first hit. The network exchanges themselves are
//! performed by the surrounding application, which feeds their outcomes back
//! into the machine as events.

pub mod args;
pub mod images;
pub mod probe;
pub mod text;
