//! The logic of a tunnel that carries UDP datagrams over one or several TCP
//! streams.

pub mod addr;
pub mod admission;
pub mod config;
pub mod connections;
pub mod dial;
pub mod laws;
pub mod multi_stream;
pub mod protocol;
pub mod relay;
pub mod stream_group;
pub mod stream_id;
