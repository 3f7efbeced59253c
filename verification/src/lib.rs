//! Telemetry ingestion and windowed queries for field sensor devices.
//!
//! Devices publish one reading per message on a topic that names the device
//! and the metric. This library holds the decisions of the service that
//! stores those readings and answers queries about them:
//!
//! - [`topic`] decodes and encodes topics and lists the subscriptions;
//! - [`config`] names the metrics of a deployment and their collections;
//! - [`registry`] maps each metric to the handle of its collection;
//! - [`ingest`] decides what the ingestion loop does with each event;
//! - [`window`] and [`query`] plan a query, filter what the store returns
//!   and assemble the response;
//! - [`answer`] states what a whole query returns.
//!
//! The code that talks to the broker and to the stores drives these
//! decisions and lives outside this crate. It hands the library plain values
//! and carries out what the library decides.

pub mod answer;
mod clock;
pub mod config;
pub mod ingest;
pub mod model;
pub mod query;
pub mod registry;
pub mod text;
pub mod topic;
pub mod window;
