//! A bounded telemetry pipeline: a no-allocation text formatter, a closed
//! topic registry, event envelopes, a fixed-capacity FIFO channel, and the
//! connection state machines of the publishing and subscribing tasks.

pub mod format_string;
pub mod topics;
pub mod envelope;
pub mod channel;
pub mod connection;
pub mod publisher;
pub mod subscriber;
pub mod logger;
