//! The private RPC interface of an engine, for frontends in other processes.

pub mod convert;
pub mod lora;
pub mod messages;
pub mod response;
pub mod service;
