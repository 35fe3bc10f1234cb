//! Known frames as hexadecimal text.

use vstd::prelude::*;

verus! {

/// Heat change request: pool 43, spa 96, both heaters on.
pub const SET_TEMP: &'static str = "ff00ffa507102088042b60050001f8";

/// Acknowledgement of a heat change (command `0x01`, payload `0x88`).
pub const SET_TEMP_ACK: &'static str = "ff00ffa50c2010010188016b";

/// Acknowledgement of a circuit change (command `0x01`, payload `0x86`).
pub const CIRCUIT_ACK: &'static str = "ff00ffa50c20100101860169";

} // verus!
