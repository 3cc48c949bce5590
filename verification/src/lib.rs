//! Core runtime logic of a stage-lighting control server: DMX
//! universe state, shutdown phases, adapt notifications, endpoint
//! configuration, and the project services that drive them.
//!
//! The async shell around this crate owns sockets, files, channels
//! and timers; the state, the decisions and the data they act on are
//! specified and verified here.

pub mod adapt;
pub mod blueprint;
pub mod bounded;
pub mod dmx;
pub mod drivers;
pub mod endpoints;
pub mod global;
pub mod loader;
pub mod misc;
pub mod ofl;
pub mod project;
pub mod runtime;
pub mod service;
pub mod services;
pub mod shutdown;
pub mod subscriber;
pub mod text;
pub mod universe;
