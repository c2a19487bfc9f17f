//! Event-driven applet scheduling for microcontroller boards.
//!
//! Hardware interrupts are turned into events, queued in arrival order, and
//! dispatched one at a time to the handler an applet registered for them.

pub mod api;
pub mod applet;
pub mod board;
pub mod call;
pub mod crypto;
pub mod event;
pub mod queue;
pub mod runner;
pub mod scheduler;
