//! Placement and scheduling core of a distributed actor framework.
//!
//! The modules hold the decisions of the framework as verified code: where a
//! key's actor lives (`stage`, `backstage`), how one actor's mailbox
//! interleaves shared and exclusive calls (`mailbox`), and how keys, actors
//! and locations travel as tagged byte blobs (`data`, `transport`).
pub mod transport;
pub mod data;
pub mod backstage;
pub mod mailbox;
pub mod stage;
