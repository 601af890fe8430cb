//! Marker and signature bytes of the PackStream format, and the keys under
//! which a structure travels as a map.
use vstd::prelude::*;

pub mod marker;
pub mod signature;

verus! {

/// The name under which a structure travels as a tuple struct, its
/// signature packed in the top byte of its length.
pub const STRUCTURE_NAME: &'static str = "__BOLT_STRUCTURE_SERDE_NAME__";

/// The key of a structure's signature, where a structure is read as a map.
pub const STRUCTURE_SIG_KEY: &'static str = "__BOLT_STRUCTURE_SIGNATURE_KEY__";

/// The key of a structure's fields, where a structure is read as a map.
pub const STRUCTURE_FIELDS_KEY: &'static str = "__BOLT_STRUCTURE_FIELDS_KEY__";

} // verus!
