//! A small real-time step sequencer: a euclidean rhythm pattern played at a
//! fixed tempo, one trigger message per active step.
//!
//! The library holds the decisions: the beat clock, the per-tick scheduler
//! step, the trigger message bytes and the local port scan. Time, sleeping,
//! sockets and thread priority belong to the program that drives it.

pub mod clock;
pub mod error;
pub mod pattern;
pub mod emitter;
pub mod scheduler;
pub mod simulation;
pub mod ports;
pub mod realtime;
