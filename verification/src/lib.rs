//! Call-latency monitoring: a verified call-timing tracking engine together
//! with the event delivery pipeline that turns emitted records into alert
//! notifications.
//!
//! Each instrumented call is observed at entry and at exit.  A per-call
//! tracker correlates the two observations by task id, computes the elapsed
//! time, and emits an event record when the call overran its deadline.
//! Records travel through a bounded output channel to a reader, which decodes
//! them from their fixed binary layout, renders an alert message and hands it
//! to the webhook sender.

pub mod alert;
pub mod channel;
pub mod codec;
pub mod duration;
pub mod event;
pub mod orchestrator;
pub mod reader;
pub mod text;
pub mod tracker;
pub mod workload;
