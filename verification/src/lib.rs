//! A verified builder for minimal polyglot image containers: a chunked
//! container assembler together with a randomized search for a compressed
//! data block that carries a payload verbatim.

pub mod bytes;
pub mod chunk;
pub mod embed;
pub mod png;
pub mod poc;
pub mod policy;
