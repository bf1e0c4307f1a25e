//! Events in the state of a room.

pub mod beacon;
