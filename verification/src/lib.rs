//! Probe-and-publish engine of a TCP port exporter.
//!
//! The crate owns the data model (configured targets bound to live gauges),
//! the routing and scrape decisions of the HTTP front door, and the exact
//! shape of the text exposition. Connecting to ports and serving HTTP are
//! left to the caller, which drives the engine one step at a time.

pub mod collector;
pub mod config;
pub mod exposition;
pub mod front_door;
pub mod probe;
pub mod registry;
pub mod text;
