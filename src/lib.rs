//! Decoding and encoding of MMS PDUs in the WAP binary session-protocol encoding.

pub mod content_type;
pub mod encoder;
pub mod error;
pub mod media;
pub mod message_header;
pub mod mms_header;
pub mod multimap;
pub mod multipart;
pub mod pdu;
pub mod primitives;
pub mod round_trip;
pub mod text;
pub mod uintvar;
pub mod wap;

use vstd::prelude::*;

verus! {

/// The MMS protocol version this library writes (1.2, as a short integer).
pub const MMS_VERSION: u8 = 18;

} // verus!
