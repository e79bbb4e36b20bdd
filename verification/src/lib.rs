//! Verified core of a dining-philosophers simulation.
//!
//! N actors sit in a ring around a table of N fork slots. Each actor runs
//! a small state machine that acquires and releases the two forks adjacent
//! to its seat without ever blocking: an unavailable fork is a normal
//! outcome that makes the actor retreat. The crate verifies the table's
//! take/return discipline, the per-actor transitions, the fork-accounting
//! laws of interleaved runs (token conservation, mutual exclusion, the
//! single-seat corollary), the drivers that record histories, the exact
//! rational scoring of those histories, and the drain-on-shutdown protocol
//! of the worker-pool model.

pub mod table;

pub mod state_machine;

pub mod thinking;

pub mod left_thinking;

pub mod right_thinking;

pub mod eating;

pub mod system;

pub mod results;

pub mod philosopher;

pub mod driver;

pub mod philosophers;

pub mod thinking_philosopher;

pub mod left_thinking_philosopher;

pub mod right_thinking_philosopher;

pub mod eating_philosopher;

pub mod analysis;

pub mod thread_pool;

pub mod simulation;
