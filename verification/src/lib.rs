//! A streaming-automation pipeline engine.
//!
//! The engine runs a user-editable dataflow graph of components connected by
//! typed message ports.  Components exchange immutable message values through
//! bounded input queues; every edge of the graph carries an assignment that
//! renames and selects producer properties into the shape the consumer
//! expects.  A pipeline description is turned into a wired runtime by the
//! factory, and the active pipeline is replaced atomically on every edit.
//!
//! The crate verifies the value types, the routing fabric, the builder and
//! the component state machines.  Task spawning, sockets and HTTP calls are
//! left to the embedding program, which drives the verified state machines
//! and performs the actions they decide on.

pub mod assignment;
pub mod assoc;
pub mod builder;
pub mod connection;
pub mod editor;
pub mod error;
pub mod factory;
pub mod message;
pub mod model;
pub mod port;
pub mod publisher;
pub mod repository;
pub mod subscriber;
pub mod tray;
