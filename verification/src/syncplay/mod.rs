//! SyncPlay: groups of sessions that watch together.
pub mod group;
pub mod group_laws;
pub mod laws;
pub mod message_laws;
pub mod models;
pub mod service;
pub mod service_laws;
pub mod state;
