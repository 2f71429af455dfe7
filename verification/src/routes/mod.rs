//! Handlers of HTTP requests.

pub mod lora;
