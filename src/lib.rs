//! Ingestion core of a telemetry gateway: admission control, coordinate
//! validation, the per-request fan-out sequence and the decoding of stream
//! documents handed to the internal queue.

pub mod error;
pub mod payload;
pub mod auth;
pub mod queue;
pub mod fanout;
