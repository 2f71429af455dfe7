//! The OpenEngine frontend.

pub mod adapters;
pub mod convert;
pub mod endpoints;
pub mod info;
pub mod load;
pub mod lora;
pub mod messages;
pub mod output;
pub mod service;
