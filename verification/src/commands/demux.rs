//! Splitting a notification frame into a terminal status and streamed bytes.

use vstd::prelude::*;
use crate::bytes::{le_u16, u16_from_le_bytes};
use crate::commands::{CMD_ERR, CMD_OK};

verus! {

/// The terminal outcome that a device reports for a command.
#[derive(Debug, Clone, Copy, PartialEq, Eq, Structural)]
pub enum Status {
    /// The command was carried out.
    Accepted,
    /// The command was refused.
    Refused,
}

/// What one notification frame holds.
#[derive(Debug)]
pub struct Routed {
    /// The terminal status for the single waiter, if the frame carries one.
    pub status: Option<Status>,
    /// The bytes for the streaming observer, if the frame carries any.
    pub streamed: Option<Vec<u8>>,
}

/// The status that a two-byte code stands for, if it is a sentinel.
pub open spec fn status_of_code(code: int) -> Option<Status> {
    if code == CMD_OK {
        Some(Status::Accepted)
    } else if code == CMD_ERR {
        Some(Status::Refused)
    } else {
        None
    }
}

/// The status that a frame delivers: its first two bytes, read least
/// significant first, where they are a sentinel.
pub open spec fn frame_status(data: Seq<u8>) -> Option<Status> {
    if data.len() >= 2 {
        status_of_code(le_u16(data[0], data[1]))
    } else {
        None
    }
}

/// The bytes that a frame hands to the streaming observer: what follows a
/// sentinel, if anything does, and otherwise the whole frame.
pub open spec fn frame_streamed(data: Seq<u8>) -> Option<Seq<u8>> {
    if frame_status(data) is Some {
        if data.len() > 2 {
            Some(data.skip(2))
        } else {
            None
        }
    } else {
        Some(data)
    }
}

/// The status among `frames` that reaches the waiter: that of the first frame
/// that delivers one.
pub open spec fn first_status(frames: Seq<Seq<u8>>) -> Option<Status>
    decreases frames.len(),
{
    if frames.len() == 0 {
        None
    } else if frame_status(frames[0]) is Some {
        frame_status(frames[0])
    } else {
        first_status(frames.skip(1))
    }
}

/// Tells a sentinel from any other two-byte code.
pub fn status_from_code(code: u16) -> (status: Option<Status>)
    ensures
        status == status_of_code(code as int),
{
    if code == CMD_OK {
        Some(Status::Accepted)
    } else if code == CMD_ERR {
        Some(Status::Refused)
    } else {
        None
    }
}

/// Routes one notification frame.
///
/// A frame of fewer than two bytes, and one whose first two bytes are no
/// sentinel, goes to the streaming observer whole and delivers no status. A
/// frame that opens with a sentinel delivers that status, and what follows
/// the sentinel, if anything, goes to the streaming observer.
pub fn route_frame(data: &[u8]) -> (routed: Routed)
    ensures
        routed.status == frame_status(data@),
        routed.streamed is Some <==> frame_streamed(data@) is Some,
        routed.streamed matches Some(bytes) ==> Some(bytes@) == frame_streamed(data@),
        data@.len() < 2 ==> routed.status is None && routed.streamed is Some
            && routed.streamed->0@ == data@,
{
    let status: Option<Status> = if data.len() >= 2 {
        status_from_code(u16_from_le_bytes(data[0], data[1]))
    } else {
        None
    };
    let streamed: Option<Vec<u8>> = if status.is_some() {
        if data.len() > 2 {
            let rest: &[u8] = vstd::slice::slice_subrange(data, 2, data.len());
            assert(rest@ =~= data@.skip(2));
            Some(vstd::slice::slice_to_vec(rest))
        } else {
            None
        }
    } else {
        Some(vstd::slice::slice_to_vec(data))
    };
    Routed { status, streamed }
}

/// A frame that cannot hold a sentinel is never read as a status: one of
/// fewer than two bytes goes to the streaming observer as it is.
pub proof fn law_short_frame_is_streamed(data: Seq<u8>)
    requires
        data.len() < 2,
    ensures
        frame_status(data) is None,
        frame_streamed(data) == Some(data),
{
}

/// A frame whose first two bytes are neither sentinel goes to the streaming
/// observer as it is, and a frame that opens with a sentinel never hands the
/// sentinel itself on.
pub proof fn law_frame_is_status_or_streamed(data: Seq<u8>)
    ensures
        frame_status(data) is None ==> frame_streamed(data) == Some(data),
        frame_status(data) is Some ==> data.len() >= 2 && (le_u16(data[0], data[1]) == CMD_OK
            || le_u16(data[0], data[1]) == CMD_ERR) && (frame_streamed(data) matches Some(rest)
            ==> rest.len() == data.len() - 2 && rest.len() > 0),
{
}

/// Frames without a status do not hide the one that follows them: the first
/// status among the frames is that of the first frame that has one.
pub proof fn law_first_status_skips_streamed(frames: Seq<Seq<u8>>, at: int)
    requires
        0 <= at < frames.len(),
        forall|i: int| 0 <= i < at ==> frame_status(#[trigger] frames[i]) is None,
        frame_status(frames[at]) is Some,
    ensures
        first_status(frames) == frame_status(frames[at]),
    decreases at,
{
    if at > 0 {
        let rest = frames.skip(1);
        assert(rest[at - 1] == frames[at]);
        assert forall|i: int| 0 <= i < at - 1 implies frame_status(#[trigger] rest[i]) is None by {
            assert(rest[i] == frames[i + 1]);
        }
        law_first_status_skips_streamed(rest, at - 1);
    }
}

} // verus!
