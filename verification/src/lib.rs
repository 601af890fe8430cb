//! PackStream serialization for the Bolt protocol.
//!
//! The library encodes and decodes the PackStream binary format: marker
//! headers ([`marker`]), a byte reader with a one-marker look-ahead
//! ([`read`]), a decoder and an encoder of whole values ([`de`], [`ser`]),
//! the typed Bolt structures ([`value::structure`]), and what decoding
//! gives back of an encoding ([`roundtrip`]), of any input ([`decoded`])
//! and of an input cut short ([`cut`]).

pub mod constants;
pub mod de;
pub mod cut;
pub mod decoded;
pub mod error;
pub mod marker;
pub mod read;
pub mod roundtrip;
pub mod ser;
pub mod value;

pub use de::from_bytes;
pub use ser::to_bytes;
pub use value::structure::Structure;
pub use value::{Value, ValueMap};
