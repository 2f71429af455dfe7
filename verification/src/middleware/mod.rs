//! What every HTTP request passes before it is handled.

pub mod load;
