//! The rules of a proxy that combines several media servers into one.
//!
//! - [`quick_connect`]: signing a device in by a code that is approved on
//!   another device;
//! - [`syncplay`]: groups of sessions that watch together;
//! - [`libraries`]: which libraries the servers have, and which virtual
//!   libraries group them;
//! - [`ui_build`]: when the embedded web interface is built anew.
//!
//! The library keeps the state and takes the decisions. What it needs from
//! outside between two decisions comes in as an argument, and what it wants done
//! goes out as a result; the HTTP server, the stores and the websockets stand
//! around it.

pub mod authorization;
pub mod clock;
pub mod digest;
pub mod headers;
pub mod ids;
pub mod libraries;
pub mod quick_connect;
pub mod status;
pub mod syncplay;
pub mod table;
pub mod text;
pub mod text_laws;
pub mod ui_build;
pub mod ui_build_laws;
pub mod users;
