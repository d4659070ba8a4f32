//! Core of a zero-copy, shared-memory publish/subscribe messaging system.
//!
//! A [`service::Service`] is a named rendezvous with fixed capacities. Publisher
//! ports loan reference-counted payload slots from a per-publisher data segment,
//! write a payload and send; each connected subscriber port owns a bounded queue
//! of slot identifiers and receives payloads in the order they were sent.
//! A dynamic registry tracks the live endpoints of a service.
//!
//! The sample lifecycle (uninitialised, initialised, sent or dropped) is driven
//! through linear tokens: a loaned sample is a value that `send` or an explicit
//! drop consumes, so a sample cannot be sent twice.

pub mod config;
pub mod container;
pub mod errors;
pub mod ids;
pub mod permission;
pub mod port_factory;
pub mod registry;
pub mod samples;
pub mod segment;
pub mod service;
