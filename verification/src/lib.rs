//! A multicast DNS repeater's forwarding decision engine.
//!
//! The library models host interfaces, resolves which interface a datagram
//! arrived on, guards against forwarding loops, classifies packets by their
//! question and answer names, and evaluates a rule list to decide which
//! relay-eligible interfaces a datagram must be re-transmitted on. All
//! decisions are pure functions with verified contracts; socket I/O,
//! interface enumeration and configuration loading live outside the library.

pub mod classify;
pub mod iface;
pub mod matching;
pub mod net;
pub mod pipeline;
pub mod rules;
pub mod seqs;
