//! A verified core for a media-transformation job pipeline.
//!
//! A producer submits a job (resize to a target size, cut, remux, combine,
//! speed change or stream introspection) and later collects the transformed
//! file.  This crate holds the parts of that pipeline that are pure logic,
//! each with a contract:
//!
//! - [`protocol`]: the line-oriented `key=value` progress protocol a running
//!   transcode process emits, parsed by an explicit state machine;
//! - [`encoding`]: the strategy engine that turns an operation into one or two
//!   command invocations, including the two-pass bitrate-targeting arithmetic;
//! - [`queue`]: the ordered, at-most-once work queue, modelled over the
//!   sequence of jobs it holds;
//! - [`worker`]: the per-job supervisor state machine, which decides what to
//!   publish and when to clean up;
//! - [`request`]: producer-side construction of job parameters from raw text;
//! - [`timestamp`]: `MM:SS`-style timestamp parsing and formatting.
//!
//! Process spawning, sockets, the queue store and durable storage are I/O and
//! live outside this crate; they hand these functions plain values and carry
//! their decisions out.

pub mod error;
pub mod media;
pub mod job;
pub mod text;
pub mod protocol;
pub mod encoding;
pub mod queue;
pub mod worker;
pub mod timestamp;
pub mod request;
