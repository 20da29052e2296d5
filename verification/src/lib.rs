//! A library for benchmarking DNS resolvers and software mirrors.
//!
//! The heart of the crate is an orchestrator that walks an ordered list of
//! candidates through a single-in-flight probe protocol, records each
//! measurement, keeps an incrementally maintained best result per mode, and
//! ranks the accumulated results by a selectable column and direction.
//! Network probing, terminal rendering and system configuration are left to
//! the surrounding binary; the library works on plain values: durations in
//! microseconds, throughput in bits per second, addresses in their
//! canonical textual form.
//!
//! - [`app`] holds the orchestrator and its state machine.
//! - [`results`] holds the probe result records and the best-result rule.
//! - [`sort`] is the ranking engine and its ordering laws.
//! - [`protocol`] models the single-in-flight dispatch protocol and proves
//!   its two defining properties.
//! - [`distro`] carries distribution tags and the mirror selection rule.
//! - [`queue`] declares the two queues the orchestrator talks through.
//! - [`text`] supplies case folding and lexicographic string order.

pub mod app;
pub mod distro;
pub mod protocol;
pub mod queue;
pub mod results;
pub mod sort;
pub mod text;
