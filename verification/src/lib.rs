//! A verified event-to-state bridge for a desktop "game mode" status
//! indicator.
//!
//! The library keeps a registry of active game processes (keyed by process
//! identifier), turns register/unregister events into ordered snapshots of
//! display names, queues those snapshots for a polling consumer, and decides
//! the indicator state (icon variant and tooltip text) from each drained
//! snapshot.  Bus transport and the graphical indicator itself live outside
//! the library; they exchange plain values with it.

pub mod bridge;
pub mod channel;
pub mod controller;
pub mod events;
pub mod registry;
pub mod resolver;
