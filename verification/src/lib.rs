//! A schema-driven binary record engine.
//!
//! A [`Config`] is an ordered list of typed fields. It fixes a byte layout
//! with no padding: every field starts where the previous one ends. A
//! [`SkipObject`] is a byte buffer of exactly that layout whose fields are
//! written and read by name, and which converts to and from raw bytes.

pub mod kind;
pub mod codec;
pub mod scalar;
pub mod error;
pub mod layout;
pub mod config;
pub mod object;
pub mod laws;

pub use kind::DataType;
pub use codec::ByteOrder;
pub use config::{Config, Field};
pub use object::SkipObject;
pub use error::SkipError;
pub use scalar::{Float32Bits, Float64Bits, SkipType};
