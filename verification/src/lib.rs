//! Verified wire codecs and peer logic for the Fomoxa interoperability peers.
pub mod wire;
pub mod message;
pub mod models;
pub mod proto;
pub mod text;
pub mod status;
pub mod methods;
pub mod interop;
pub mod handlers;
pub mod reflection;
pub mod schema;
pub mod drive;
pub mod frames;
pub mod cli;
pub mod laws;
pub mod registry;
pub mod peer;
