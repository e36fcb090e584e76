//! What the DSDL compiler decides: its configuration, and how DSDL types map to Rust types.

pub mod config;
pub mod rust;
pub mod codegen;
pub mod message;
pub mod items;
