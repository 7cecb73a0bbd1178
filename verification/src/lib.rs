//! Attribute disclosure requests: attribute type identifiers and their
//! order, the nested requests built from them, and the layout in which a
//! request goes onto the wire.

pub mod bytes;
pub mod dotted;
pub mod order;
pub mod request;
pub mod wire;
