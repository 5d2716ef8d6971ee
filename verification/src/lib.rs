//! Deep inspection of network frames.
//!
//! A dissector reads one protocol layer from a byte sequence and returns a
//! tree of named values, or the reason why the bytes could not be read. The
//! outcome of the next layer, success or failure, is embedded in the tree of
//! the layer above as one node, so a malformed inner layer never costs the
//! fields of the layers around it.
//!
//! The trees borrow from the dissected buffer: byte-valued nodes are slices of
//! it, and the buffer has to outlive the tree.

pub mod access;
pub mod decode;
pub mod equality;
pub mod error;
pub mod ethernet;
pub mod ip;
pub mod protocol;
pub mod render;
pub mod text;
pub mod value;

pub use crate::access::AccessError;
pub use crate::decode::{signed, unsigned, Endianness};
pub use crate::error::DissectError;
pub use crate::protocol::{raw, Protocol};
pub use crate::value::{DissectResult, NamedValues, Val};
