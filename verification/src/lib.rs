//! A verified core of a log-shipping pipeline: records parsed from JSON
//! lines, durable line-at-a-time tailing of a growing byte stream, and a
//! batching broker sink with a fail-fast delivery policy.

pub mod decoder;
pub mod json;
pub mod kafka;
pub mod pipeline;
pub mod record;
pub mod tail;
