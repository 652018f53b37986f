//! A verified model of a line-oriented broadcast relay: the fan-out hub with
//! bounded per-subscriber queues, the per-connection session state machine,
//! and the wire-line codec. The I/O shell that drives it lives outside the
//! library.

pub mod hub;
pub mod laws;
pub mod msg;
pub mod queue;
pub mod session;
