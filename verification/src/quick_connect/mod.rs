//! Quick Connect: a device asks for a code, a signed-in user confirms it, and
//! the device then signs in as that user.
pub mod device;
pub mod handlers;
pub mod laws;
pub mod login;
pub mod request;
pub mod request_laws;
pub mod session;
pub mod session_laws;
pub mod sign_in_laws;
pub mod storage;
