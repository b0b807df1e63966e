//! The models this project exchanges, each with its `rpc` codec.
pub mod echo;
pub mod frpc;
pub mod stream;
