//! Values that the frontend and the engine core exchange.

pub mod handshake;
pub mod lora;
