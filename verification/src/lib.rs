//! Channel-health inspection and remediation engine for a Lightning node,
//! together with the schedulers that drive it and the reachability probe.
//!
//! Everything here is a function from plain values to plain values: the
//! surrounding program talks to the node and to the notification providers
//! and hands the results in.
//!
//! - [`channel`], [`gossip`] and [`report`] hold the data of one cycle: the
//!   snapshot of the node's channels, the index of the gossip about them and
//!   the findings per peer.
//! - [`channelwatch`] is the inspector with its rules.
//! - [`cycle`] is the health check cycle: inspect, remediate, inspect again,
//!   report what is left.
//! - [`amboss`] is the reachability probe and its loop.
//! - [`notify`] writes the alerts, [`config`] and [`structs`] hold the
//!   options and the configuration.
//! - [`text`] and [`util`] are helpers for texts and numbers, [`json`] is
//!   the boundary to the JSON crate.

pub mod amboss;
pub mod channel;
pub mod channelwatch;
pub mod config;
pub mod cycle;
pub mod gossip;
pub mod json;
pub mod notify;
pub mod report;
pub mod structs;
pub mod text;
pub mod util;
