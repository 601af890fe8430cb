//! Signature bytes of the Bolt messages and graph structures.
use vstd::prelude::*;

verus! {

pub const MSG_INIT: u8 = 0x01;
pub const MSG_RUN: u8 = 0x10;
pub const MSG_DISCARD_ALL: u8 = 0x2F;
pub const MSG_PULL_ALL: u8 = 0x3F;
pub const MSG_ACK_FAILURE: u8 = 0x0E;
pub const MSG_RESET: u8 = 0x0F;
pub const MSG_RECORD: u8 = 0x71;
pub const MSG_SUCCESS: u8 = 0x70;
pub const MSG_FAILURE: u8 = 0x7F;
pub const MSG_IGNORED: u8 = 0x7E;
pub const TYPE_NODE: u8 = 0x4E;
pub const TYPE_RELATIONSHIP: u8 = 0x52;
pub const TYPE_PATH: u8 = 0x50;
/// The protocol table's unbound relationship signature. The library's
/// `UnboundRelationship` travels under `TYPE_RELATIONSHIP` instead.
pub const TYPE_UNBOUND_RELATIONSHIP: u8 = 0x72;
pub const TYPE_DATE_TIME: u8 = 0x46;
pub const TYPE_DATE_TIME_ZONE_ID: u8 = 0x66;
pub const TYPE_POINT_2D: u8 = 0x58;

} // verus!
