//! An asynchronous multi-channel ADC acquisition engine.
//!
//! `channel` holds the channel table and the conversion requests built from
//! it, `engine` the two-context state machine driven by the completion
//! interrupt and by deferred work, and `rounds` what holds over runs of
//! completion interrupts.

pub mod channel;
pub mod engine;
pub mod rounds;
