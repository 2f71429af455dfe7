//! Verified request handling for the vLLM server frontends.

pub mod admission;
pub mod binary64;
pub mod chat;
pub mod control;
pub mod endpoints;
pub mod engine_rpc;
pub mod events;
pub mod foreign;
pub mod grpc;
pub mod json;
pub mod lora;
pub mod lora_path;
pub mod middleware;
pub mod names;
pub mod openengine;
pub mod paths;
pub mod probe;
pub mod protocol;
pub mod provenance;
pub mod request;
pub mod routes;
pub mod state;
pub mod status;
pub mod struct_json;
pub mod text;
