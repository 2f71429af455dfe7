//! The chat frontend: its errors, and media that an encoder has already seen.

pub mod encoder_cache;
pub mod error;
