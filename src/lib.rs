//! Name hashing and content-hash decoding for a blockchain name registry.
//!
//! `namehash` turns a dotted name into the 32-byte node that the registry
//! keys its records by; `decode_content_hash` turns a hex-encoded
//! multicodec content hash into a printable identifier and its scheme tag.

pub mod namehash;

pub use namehash::{compute_node, namehash};
pub mod content_hash;
pub mod error;

pub use content_hash::{decode_content_hash, split_content_hash, ContentScheme};
pub use error::WiseError;
pub mod args;

pub use args::{is_name, strip};
