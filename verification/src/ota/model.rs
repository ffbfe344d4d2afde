//! The mathematical model of a transfer session: what a step sends and what
//! it leaves behind.
//!
//! A step is taken on the phase that the device reported last, the target. A
//! step first settles what goes on the wire, the frames, in order. The link
//! then takes some of them: all, or the first few before a write fails. The
//! session that the step leaves behind depends on that number alone.

use vstd::prelude::*;
use vstd::arithmetic::div_mod::{lemma_div_is_ordered, lemma_fundamental_div_mod_converse};
use crate::bytes::le_bytes_u32;
use crate::ota::layout::{
    lemma_piece_count_bounds,
    lemma_piece_in_range,
    piece,
    piece_count,
    pieces_from,
};
use crate::ota::sample::{
    DFUState,
    McuDfuState,
    OtaError,
    DFU_ACK_PATTERN,
    DFU_PAGE_LEN,
    DFU_SIGNATURE_LEN,
};

verus! {

/// The command line that sends the device into its bootloader: `update`,
/// carriage return, line feed.
pub open spec fn trigger_frame() -> Seq<u8> {
    seq![0x75u8, 0x70u8, 0x64u8, 0x61u8, 0x74u8, 0x65u8, 0x0du8, 0x0au8]
}

/// The preamble on the wire.
pub open spec fn preamble_frame() -> Seq<u8> {
    seq![0xAAu8, 0x55u8, 0xAAu8, 0x55u8]
}

/// The acknowledgement on the wire: the pattern, least significant byte first.
pub open spec fn ack_frame() -> Seq<u8> {
    le_bytes_u32(DFU_ACK_PATTERN)
}

/// The count of blocks on the wire, least significant byte first.
pub open spec fn count_frame(total: nat) -> Seq<u8> {
    le_bytes_u32(total as u32)
}

/// The header of a block of `block_size` bytes on the wire: a signature of
/// zeros, then the size, least significant byte first.
pub open spec fn header_frame(block_size: nat) -> Seq<u8> {
    Seq::new(DFU_SIGNATURE_LEN as nat, |i: int| 0u8) + le_bytes_u32(block_size as u32)
}

/// The phase that lets a state do its work. `Start` waits for none, and
/// `Fault` has no work.
pub open spec fn awaited(state: DFUState) -> Option<McuDfuState> {
    match state {
        DFUState::Start => None,
        DFUState::SendPreamble => Some(McuDfuState::Idle),
        DFUState::SendTotalBlocks => Some(McuDfuState::Prepare),
        DFUState::SendBlockHeader => Some(McuDfuState::Header),
        DFUState::SendBlockData => Some(McuDfuState::Data),
        DFUState::WaitVerify => Some(McuDfuState::Verify),
        DFUState::WaitWrite => Some(McuDfuState::Write),
        DFUState::Complete => Some(McuDfuState::Final),
        DFUState::Fault => None,
    }
}

/// Whether the work of a state puts anything on the wire.
pub open spec fn writes(state: DFUState) -> bool {
    state == DFUState::Start || state == DFUState::SendPreamble || state
        == DFUState::SendTotalBlocks || state == DFUState::SendBlockHeader || state
        == DFUState::SendBlockData
}

/// A transfer session as a mathematical value.
pub struct SessionView {
    /// Where the engine stands in the handshake.
    pub state: DFUState,
    /// The last phase of the device that the engine has gone by.
    pub mcu_state: McuDfuState,
    /// Index of the block in transfer.
    pub block: nat,
    /// Index of the next chunk of that block to send.
    pub chunk: nat,
    /// The firmware image.
    pub image: Seq<u8>,
    /// The most bytes that one write takes.
    pub mtu: nat,
}

impl SessionView {
    /// Number of blocks of the image.
    pub open spec fn total_blocks(self) -> nat {
        piece_count(self.image.len(), DFU_PAGE_LEN as nat)
    }

    /// The bytes of the block in transfer.
    pub open spec fn block_bytes(self) -> Seq<u8> {
        piece(self.image, DFU_PAGE_LEN as nat, self.block)
    }

    /// Number of chunks of the block in transfer.
    pub open spec fn chunk_total(self) -> nat {
        piece_count(self.block_bytes().len(), self.mtu)
    }

    /// Share of the blocks that are through, in percent, rounded down.
    pub open spec fn progress(self) -> nat {
        (self.block * 100) / self.total_blocks()
    }

    /// What holds of every session: there is an image and a write takes at
    /// least a byte; the block index is zero until the count of blocks has
    /// gone out, below the count of blocks until all blocks are through, and
    /// equal to it from then on; the chunk index is zero but in the middle of
    /// a block's data.
    pub open spec fn wf(self) -> bool {
        &&& self.mtu > 0
        &&& self.image.len() > 0
        &&& self.total_blocks() <= u32::MAX
        &&& self.block <= self.total_blocks()
        &&& (self.state == DFUState::Start || self.state == DFUState::SendPreamble || self.state
            == DFUState::SendTotalBlocks ==> self.block == 0)
        &&& (self.state != DFUState::Complete && self.state != DFUState::Fault ==> self.block
            < self.total_blocks())
        &&& (self.state == DFUState::Complete ==> self.block == self.total_blocks())
        &&& (self.state != DFUState::SendBlockData && self.state != DFUState::Fault
            ==> self.chunk == 0)
        &&& (self.chunk == 0 || self.chunk < self.chunk_total())
    }

    /// A session at the start of the handshake.
    pub open spec fn initial(image: Seq<u8>, mtu: nat) -> SessionView {
        SessionView {
            state: DFUState::Start,
            mcu_state: McuDfuState::Idle,
            block: 0,
            chunk: 0,
            image,
            mtu,
        }
    }

    /// The device has reported a fault, now or before: the transfer is over.
    pub open spec fn faulted(self, target: McuDfuState) -> bool {
        target == McuDfuState::Fault || self.state == DFUState::Fault
    }

    /// The state's work for the phase gone by is not through: the state
    /// writes, and the phase is the one it waits for. This holds before the
    /// trigger and the preamble have gone out, and after a write failed in
    /// the middle of a step.
    pub open spec fn has_unsent_work(self) -> bool {
        writes(self.state) && (self.state == DFUState::Start || awaited(self.state) == Some(
            self.mcu_state,
        ))
    }

    /// The target repeats a phase whose work is through: the step does nothing.
    pub open spec fn is_duplicate(self, target: McuDfuState) -> bool {
        !self.faulted(target) && target == self.mcu_state && target != McuDfuState::Idle
            && !self.has_unsent_work()
    }

    /// The target is a phase that the device has newly entered: the step
    /// opens with an acknowledgement. `Idle` is never acknowledged.
    pub open spec fn acks(self, target: McuDfuState) -> bool {
        !self.faulted(target) && target != McuDfuState::Idle && target != self.mcu_state
    }

    /// The phase that the engine goes by once the acknowledgement is out.
    pub open spec fn seen(self, target: McuDfuState) -> McuDfuState {
        if self.acks(target) {
            target
        } else {
            self.mcu_state
        }
    }

    /// The step does the work of the state: the phase gone by is the one
    /// that the state waits for.
    pub open spec fn acts(self, target: McuDfuState) -> bool {
        !self.faulted(target) && !self.is_duplicate(target) && (self.state == DFUState::Start
            || awaited(self.state) == Some(self.seen(target)))
    }

    /// The frames of the state's work, in order.
    pub open spec fn work_frames(self, target: McuDfuState) -> Seq<Seq<u8>> {
        if !self.acts(target) {
            Seq::empty()
        } else {
            match self.state {
                DFUState::Start => seq![trigger_frame()],
                DFUState::SendPreamble => seq![preamble_frame()],
                DFUState::SendTotalBlocks => seq![count_frame(self.total_blocks())],
                DFUState::SendBlockHeader => seq![header_frame(self.block_bytes().len())],
                DFUState::SendBlockData => pieces_from(self.block_bytes(), self.mtu, self.chunk),
                _ => Seq::empty(),
            }
        }
    }

    /// The frames of the acknowledgement: one or none.
    pub open spec fn ack_frames(self, target: McuDfuState) -> Seq<Seq<u8>> {
        if self.acks(target) {
            seq![ack_frame()]
        } else {
            Seq::empty()
        }
    }

    /// The frames that the step puts on the wire, in order.
    pub open spec fn frames(self, target: McuDfuState) -> Seq<Seq<u8>> {
        self.ack_frames(target) + self.work_frames(target)
    }

    /// Milliseconds to rest once the frames are out: a short wait before the
    /// next look at a phase that only repeats, and a second for the device to
    /// come up in its bootloader.
    pub open spec fn pause_ms(self, target: McuDfuState) -> nat {
        if self.is_duplicate(target) {
            10
        } else if !self.faulted(target) && self.state == DFUState::Start {
            1000
        } else {
            0
        }
    }

    /// The session after a step whose frames all went out.
    pub open spec fn advanced(self, target: McuDfuState) -> SessionView {
        let seen = self.seen(target);
        if !self.acts(target) {
            SessionView { mcu_state: seen, ..self }
        } else {
            match self.state {
                DFUState::Start => SessionView {
                    state: DFUState::SendPreamble,
                    mcu_state: seen,
                    ..self
                },
                DFUState::SendPreamble => SessionView {
                    state: DFUState::SendTotalBlocks,
                    mcu_state: seen,
                    ..self
                },
                DFUState::SendTotalBlocks => SessionView {
                    state: DFUState::SendBlockHeader,
                    mcu_state: seen,
                    ..self
                },
                DFUState::SendBlockHeader => SessionView {
                    state: DFUState::SendBlockData,
                    mcu_state: seen,
                    ..self
                },
                DFUState::SendBlockData => SessionView {
                    state: DFUState::WaitVerify,
                    mcu_state: seen,
                    chunk: 0,
                    ..self
                },
                DFUState::WaitVerify => SessionView {
                    state: DFUState::WaitWrite,
                    mcu_state: seen,
                    ..self
                },
                DFUState::WaitWrite => SessionView {
                    state: if self.block + 1 >= self.total_blocks() {
                        DFUState::Complete
                    } else {
                        DFUState::SendBlockHeader
                    },
                    mcu_state: seen,
                    block: self.block + 1,
                    ..self
                },
                _ => SessionView { mcu_state: seen, ..self },
            }
        }
    }

    /// Number of frames of the state's work among the first `sent` frames of
    /// the step.
    pub open spec fn work_sent(self, target: McuDfuState, sent: nat) -> nat {
        if sent >= self.ack_frames(target).len() {
            (sent - self.ack_frames(target).len()) as nat
        } else {
            0
        }
    }

    /// The session after a step of which only the first `sent` frames went
    /// out. Without the acknowledgement nothing has changed. With it, the
    /// phase is gone by, and the chunks that went out are not sent again.
    pub open spec fn interrupted(self, target: McuDfuState, sent: nat) -> SessionView {
        if self.acks(target) && sent == 0 {
            self
        } else {
            SessionView {
                mcu_state: self.seen(target),
                chunk: if self.state == DFUState::SendBlockData && self.acts(target) {
                    self.chunk + self.work_sent(target, sent)
                } else {
                    self.chunk
                },
                ..self
            }
        }
    }

    /// The session after a step on `target` of which the link took the first
    /// `sent` frames.
    pub open spec fn after(self, target: McuDfuState, sent: nat) -> SessionView {
        if self.faulted(target) {
            SessionView {
                state: DFUState::Fault,
                mcu_state: if target == McuDfuState::Fault {
                    McuDfuState::Fault
                } else {
                    self.mcu_state
                },
                ..self
            }
        } else if self.is_duplicate(target) {
            self
        } else if sent >= self.frames(target).len() {
            self.advanced(target)
        } else {
            self.interrupted(target, sent)
        }
    }

    /// The error of a step of which only the first `sent` frames went out.
    pub open spec fn send_error(self, target: McuDfuState, sent: nat) -> OtaError {
        if self.acks(target) && sent == 0 {
            OtaError::AckRejected
        } else if self.state == DFUState::SendBlockData {
            OtaError::ChunkRejected((self.chunk + self.work_sent(target, sent)) as usize)
        } else {
            OtaError::SendRejected
        }
    }

    /// The state changes in a step whose frames all go out.
    pub open spec fn changes(self, target: McuDfuState) -> bool {
        self.acts(target) && self.state != DFUState::Complete
    }

    /// A step whose frames all go out gives a progress value: a block is
    /// through and another follows, or the device has reported the end.
    pub open spec fn reports_progress(self, target: McuDfuState) -> bool {
        self.acts(target) && (self.state == DFUState::Complete || (self.state
            == DFUState::WaitWrite && self.block + 1 < self.total_blocks()))
    }

    /// What a step on `target` returns when the link took the first `sent`
    /// of its frames: a device fault; nothing done on a duplicate; the write
    /// that failed; or whether the state changed and whether there is
    /// progress to report.
    pub open spec fn outcome(self, target: McuDfuState, sent: nat) -> Result<
        (bool, bool),
        OtaError,
    > {
        if self.faulted(target) {
            Err(OtaError::DeviceFault)
        } else if self.is_duplicate(target) {
            Ok((false, false))
        } else if sent < self.frames(target).len() {
            Err(self.send_error(target, sent))
        } else {
            Ok((self.changes(target), self.reports_progress(target)))
        }
    }
}

/// The indices of a session are bounded: a block is no longer than a page, so
/// it has no more chunks than a page has bytes, and the chunk index is at
/// most the count of chunks.
pub proof fn lemma_session_bounds(s: SessionView)
    requires
        s.wf(),
    ensures
        s.block_bytes().len() <= DFU_PAGE_LEN,
        s.block < s.total_blocks() ==> s.block_bytes().len() > 0 && s.chunk_total() > 0,
        s.chunk_total() <= DFU_PAGE_LEN,
        s.chunk <= s.chunk_total(),
{
    lemma_piece_in_range(s.image.len(), DFU_PAGE_LEN as nat, s.block);
    lemma_piece_count_bounds(s.block_bytes().len(), s.mtu);
}

/// The progress value grows with the block index, stays below 100 while a
/// block is left, and is 100 once all blocks are through.
pub proof fn lemma_progress_bounds(s: SessionView, later: SessionView)
    requires
        s.wf(),
        later.wf(),
        later.image == s.image,
        s.block <= later.block,
    ensures
        s.progress() <= later.progress() <= 100,
        s.progress() == 100 <==> s.block == s.total_blocks(),
{
    let total = s.total_blocks() as int;
    let here = s.block as int * 100;
    let there = later.block as int * 100;
    lemma_piece_count_bounds(s.image.len(), DFU_PAGE_LEN as nat);
    lemma_div_is_ordered(here, there, total);
    lemma_div_is_ordered(there, total * 100, total);
    lemma_div_is_ordered(here, total * 100, total);
    lemma_fundamental_div_mod_converse(total * 100, total, 100, 0);
    if s.block < s.total_blocks() {
        assert(here / total < 100) by (nonlinear_arith)
            requires
                0 <= here < total * 100,
                total > 0,
        ;
    }
}

} // verus!
