//! A minimal fixed-cadence engine for a text screen: stateful game objects
//! grouped into named rooms beside a global always-active set, key dispatch
//! and per-tick updates against immutable snapshots, room transitions that
//! reset non-persistent objects, frame pacing against a target rate, and a
//! flat character frame buffer composited once per redraw.

pub mod buffer;
pub mod env;
pub mod laws;
pub mod obj;
pub mod room;
