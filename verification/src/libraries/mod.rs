//! The administrators' pages on libraries: which libraries the media servers
//! have, and which virtual libraries group them.
pub mod board;
pub mod board_laws;
pub mod discovery;
pub mod discovery_laws;
pub mod page_laws;
pub mod pages;
pub mod responses;
