//! Strongly typed 128-bit identifiers with a verified lowercase hex codec.
pub mod adapter;
pub mod hex_text;
pub mod id;
pub mod kind;
