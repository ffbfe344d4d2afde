//! The command/response exchange and the records that commands carry.

use vstd::prelude::*;
use crate::bytes::{as_signed_32, i32_from_le_bytes, le_u32, u32_from_le_bytes};

pub mod demux;
pub mod request;

verus! {

/// Status sentinel that reports a command as carried out.
pub const CMD_OK: u16 = 0xcafe;

/// Status sentinel that reports a command as refused.
pub const CMD_ERR: u16 = 0xdead;

/// Number of bytes in an encoded [`ValveVal`].
pub const VALVE_VAL_LEN: usize = 8;

/// Settings of a valve, as the device stores them.
#[derive(Debug, Clone)]
pub struct ValveConfig {
    pub model: String,
    pub tick: u32,
    pub dir: bool,
}

/// One reading of a valve: a fixed-layout record of two little-endian words.
#[derive(Debug, Clone, Copy, PartialEq, Eq, Structural)]
pub struct ValveVal {
    pub total_ticks: i32,
    pub current_status: u32,
}

/// Settings of a channel, as the device stores them.
#[derive(Debug, Clone)]
pub struct ChannelConfig {
    pub model: String,
}

/// A command on the wire: its word, then a blank and its argument if it has
/// one, then carriage return and line feed.
pub open spec fn spec_command_line(word: Seq<u8>, argument: Option<Seq<u8>>) -> Seq<u8> {
    match argument {
        Some(text) => word + seq![0x20u8] + text + seq![0x0du8, 0x0au8],
        None => word + seq![0x0du8, 0x0au8],
    }
}

/// Frames a command as a line for the wire.
pub fn command_line(word: &[u8], argument: Option<&[u8]>) -> (line: Vec<u8>)
    ensures
        line@ == spec_command_line(
            word@,
            match argument {
                Some(text) => Some(text@),
                None => None,
            },
        ),
{
    let mut line: Vec<u8> = Vec::new();
    line.extend_from_slice(word);
    match argument {
        Some(text) => {
            line.push(0x20u8);
            line.extend_from_slice(text);
        },
        None => {},
    }
    line.push(0x0du8);
    line.push(0x0au8);
    assert(line@ =~= spec_command_line(
        word@,
        match argument {
            Some(text) => Some(text@),
            None => None,
        },
    ));
    line
}

impl ValveVal {
    /// The reading that `data` encodes, where `data` has the record's length.
    pub open spec fn spec_decode(data: Seq<u8>) -> Option<ValveVal> {
        if data.len() == VALVE_VAL_LEN {
            Some(
                ValveVal {
                    total_ticks: as_signed_32(le_u32(data.subrange(0, 4))) as i32,
                    current_status: le_u32(data.subrange(4, 8)) as u32,
                },
            )
        } else {
            None
        }
    }

    /// Decodes a reading. A payload of any other length than
    /// [`VALVE_VAL_LEN`] is no reading.
    pub fn decode(data: &[u8]) -> (val: Option<ValveVal>)
        ensures
            val == Self::spec_decode(data@),
            val is Some <==> data@.len() == VALVE_VAL_LEN,
            val matches Some(v) ==> v.total_ticks as int == as_signed_32(
                le_u32(data@.subrange(0, 4)),
            ) && v.current_status as int == le_u32(data@.subrange(4, 8)),
    {
        if data.len() != VALVE_VAL_LEN {
            return None;
        }
        let total_ticks: i32 = i32_from_le_bytes(data, 0);
        let current_status: u32 = u32_from_le_bytes(data, 4);
        Some(ValveVal { total_ticks, current_status })
    }
}

} // verus!
