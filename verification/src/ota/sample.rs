//! The firmware transfer handshake as a state machine.

use vstd::prelude::*;
use crate::bytes::{le_bytes_u32, u32_to_le_bytes};
use crate::ota::layout::{
    count_pieces,
    lemma_piece_count_bounds,
    lemma_piece_in_range,
    measure_piece,
    piece_count,
    pieces_from,
    take_piece,
};
use crate::ota::model::{
    header_frame,
    lemma_progress_bounds,
    lemma_session_bounds,
    preamble_frame,
    trigger_frame,
    SessionView,
};

verus! {

/// Length of a page of the image, and so of every block but the last.
pub const DFU_PAGE_LEN: usize = 2048;

/// The bytes that open the handshake once the bootloader is idle.
pub const DFU_PREAMBLE: [u8; 4] = [0xAA, 0x55, 0xAA, 0x55];

/// The word that acknowledges a phase the device has entered.
pub const DFU_ACK_PATTERN: u32 = 0x12345678;

/// Length of the signature field of a block header.
pub const DFU_SIGNATURE_LEN: usize = 64;

/// Where the engine stands in the handshake.
#[derive(Debug, Clone, Copy, PartialEq, Eq, Structural)]
pub enum DFUState {
    Start,
    SendPreamble,
    SendTotalBlocks,
    SendBlockHeader,
    SendBlockData,
    WaitVerify,
    WaitWrite,
    Complete,
    Fault,
}

/// The phase that the device reports, one byte per notification.
#[derive(Debug, Clone, Copy, PartialEq, Eq, Structural)]
pub enum McuDfuState {
    Idle,
    Prepare,
    Header,
    Data,
    Verify,
    Write,
    Final,
    Fault,
}

impl McuDfuState {
    /// The phase that a byte stands for. A byte above 7 stands for `Idle`.
    pub open spec fn spec_from_byte(value: u8) -> McuDfuState {
        match value {
            1 => McuDfuState::Prepare,
            2 => McuDfuState::Header,
            3 => McuDfuState::Data,
            4 => McuDfuState::Verify,
            5 => McuDfuState::Write,
            6 => McuDfuState::Final,
            7 => McuDfuState::Fault,
            _ => McuDfuState::Idle,
        }
    }

    /// The byte that stands for a phase.
    pub open spec fn spec_to_byte(self) -> u8 {
        match self {
            McuDfuState::Idle => 0,
            McuDfuState::Prepare => 1,
            McuDfuState::Header => 2,
            McuDfuState::Data => 3,
            McuDfuState::Verify => 4,
            McuDfuState::Write => 5,
            McuDfuState::Final => 6,
            McuDfuState::Fault => 7,
        }
    }

    /// Reads a phase byte. Every byte is read as some phase.
    pub fn from_byte(value: u8) -> (phase: McuDfuState)
        ensures
            phase == Self::spec_from_byte(value),
    {
        match value {
            1 => McuDfuState::Prepare,
            2 => McuDfuState::Header,
            3 => McuDfuState::Data,
            4 => McuDfuState::Verify,
            5 => McuDfuState::Write,
            6 => McuDfuState::Final,
            7 => McuDfuState::Fault,
            _ => McuDfuState::Idle,
        }
    }

    /// Writes a phase as its byte.
    pub fn to_byte(self) -> (value: u8)
        ensures
            value == self.spec_to_byte(),
            Self::spec_from_byte(value) == self,
    {
        match self {
            McuDfuState::Idle => 0,
            McuDfuState::Prepare => 1,
            McuDfuState::Header => 2,
            McuDfuState::Data => 3,
            McuDfuState::Verify => 4,
            McuDfuState::Write => 5,
            McuDfuState::Final => 6,
            McuDfuState::Fault => 7,
        }
    }
}

impl TryFrom<u8> for McuDfuState {
    type Error = String;

    fn try_from(value: u8) -> (phase: Result<Self, Self::Error>) {
        Ok(McuDfuState::from_byte(value))
    }
}

impl vstd::std_specs::convert::TryFromSpecImpl<u8> for McuDfuState {
    open spec fn obeys_try_from_spec() -> bool {
        true
    }

    open spec fn try_from_spec(value: u8) -> Result<Self, Self::Error> {
        Ok(McuDfuState::spec_from_byte(value))
    }
}

/// The phase that a notification frame reports: that of its first byte. An
/// empty frame reports none.
pub open spec fn frame_phase(data: Seq<u8>) -> Option<McuDfuState> {
    if data.len() == 0 {
        None
    } else {
        Some(McuDfuState::spec_from_byte(data[0]))
    }
}

/// Reads the phase that a notification frame reports.
pub fn phase_of_frame(data: &[u8]) -> (phase: Option<McuDfuState>)
    ensures
        phase == frame_phase(data@),
{
    if data.len() == 0 {
        None
    } else {
        Some(McuDfuState::from_byte(data[0]))
    }
}

/// Why a transfer, or a step of it, failed.
#[derive(Debug, Clone, Copy, PartialEq, Eq, Structural)]
pub enum OtaError {
    /// The image holds no byte.
    EmptyImage,
    /// The image has more blocks than the four bytes of the count can hold.
    ImageTooLarge,
    /// The link takes no byte in a write.
    ZeroMtu,
    /// The link refused the acknowledgement of a phase.
    AckRejected,
    /// The link refused a frame of the handshake.
    SendRejected,
    /// The link refused the chunk of this index of the block in transfer.
    ChunkRejected(usize),
    /// The device reported a fault: its bootloader has started over.
    DeviceFault,
    /// The state did not change within the watchdog's ceiling.
    Stalled,
    /// A write failed and no retry was left.
    RetryExhausted,
    /// The link could not be brought up again for a retry.
    ReconnectFailed,
}

/// What precedes the data of a block: a signature and the block's length.
#[derive(Debug, Clone)]
pub struct FirmwareBlockHeader {
    pub signature: [u8; 64],
    pub block_size: u32,
}

impl FirmwareBlockHeader {
    /// The header on the wire: the signature, then the length as four bytes,
    /// least significant first.
    pub open spec fn spec_bytes(self) -> Seq<u8> {
        self.signature@ + le_bytes_u32(self.block_size)
    }

    /// Encodes the header for the wire.
    pub fn to_bytes(&self) -> (bytes: Vec<u8>)
        ensures
            bytes@ == self.spec_bytes(),
            bytes@.len() == DFU_SIGNATURE_LEN + 4,
    {
        let mut bytes: Vec<u8> = Vec::new();
        bytes.extend_from_slice(self.signature.as_slice());
        let size: [u8; 4] = u32_to_le_bytes(self.block_size);
        bytes.extend_from_slice(size.as_slice());
        bytes
    }
}

/// What one step puts on the wire.
#[derive(Debug)]
pub struct Plan {
    /// The frames to write, in order; the first refusal ends the writing.
    pub frames: Vec<Vec<u8>>,
    /// Milliseconds to rest once every frame is out.
    pub pause_ms: u64,
}

impl Plan {
    /// The frames as plain byte sequences.
    pub open spec fn wire(&self) -> Seq<Seq<u8>> {
        Seq::new(self.frames@.len(), |i: int| self.frames@[i]@)
    }
}

/// Where a session stands: what a step changes, and nothing else.
#[derive(Debug, Clone, Copy)]
struct Cursor {
    state: DFUState,
    mcu_state: McuDfuState,
    current_block_index: usize,
    current_chunk_index: usize,
}

/// A firmware transfer session: the image, where the handshake stands, and
/// how far the image has gone out.
#[derive(Debug)]
pub struct SampleOta {
    cursor: Cursor,
    image: Vec<u8>,
    mtu: usize,
}

impl View for SampleOta {
    type V = SessionView;

    closed spec fn view(&self) -> SessionView {
        SessionView {
            state: self.cursor.state,
            mcu_state: self.cursor.mcu_state,
            block: self.cursor.current_block_index as nat,
            chunk: self.cursor.current_chunk_index as nat,
            image: self.image@,
            mtu: self.mtu as nat,
        }
    }
}

/// Why no session can be made of an image of `len` bytes on a link that takes
/// `mtu` bytes in a write, if anything stands against it.
pub open spec fn session_refusal(len: nat, mtu: nat) -> Option<OtaError> {
    if len == 0 {
        Some(OtaError::EmptyImage)
    } else if mtu == 0 {
        Some(OtaError::ZeroMtu)
    } else if piece_count(len, DFU_PAGE_LEN as nat) > u32::MAX {
        Some(OtaError::ImageTooLarge)
    } else {
        None
    }
}

impl SampleOta {
    /// What holds of every session at all times: its model is sound.
    #[verifier::type_invariant]
    pub open spec fn sound(self) -> bool {
        self@.wf()
    }

    /// Opens a session at the start of the handshake.
    ///
    /// An empty image is refused, and so are a link that takes no byte in a
    /// write and an image of more blocks than the count on the wire can hold.
    pub fn new(image: Vec<u8>, mtu: usize) -> (made: Result<SampleOta, OtaError>)
        ensures
            made matches Ok(ota) ==> ota@ == SessionView::initial(image@, mtu as nat) && ota@.wf(),
            made matches Err(error) ==> session_refusal(image@.len(), mtu as nat) == Some(error),
            made is Ok <==> session_refusal(image@.len(), mtu as nat) is None,
    {
        if image.len() == 0 {
            return Err(OtaError::EmptyImage);
        }
        if mtu == 0 {
            return Err(OtaError::ZeroMtu);
        }
        let total: usize = count_pieces(image.len(), DFU_PAGE_LEN);
        if total > u32::MAX as usize {
            return Err(OtaError::ImageTooLarge);
        }
        proof {
            lemma_piece_count_bounds(image@.len(), DFU_PAGE_LEN as nat);
        }
        let cursor = Cursor {
            state: DFUState::Start,
            mcu_state: McuDfuState::Idle,
            current_block_index: 0,
            current_chunk_index: 0,
        };
        Ok(SampleOta { cursor, image, mtu })
    }

    /// Where the engine stands in the handshake.
    pub fn state(&self) -> (state: DFUState)
        ensures
            state == self@.state,
    {
        self.cursor.state
    }

    /// The last phase of the device that the engine has gone by.
    pub fn mcu_state(&self) -> (phase: McuDfuState)
        ensures
            phase == self@.mcu_state,
    {
        self.cursor.mcu_state
    }

    /// Index of the block in transfer.
    pub fn current_block_index(&self) -> (index: usize)
        ensures
            index == self@.block,
    {
        self.cursor.current_block_index
    }

    /// Index of the next chunk of the block in transfer.
    pub fn current_chunk_index(&self) -> (index: usize)
        ensures
            index == self@.chunk,
    {
        self.cursor.current_chunk_index
    }

    /// The firmware image.
    pub fn image(&self) -> (image: &Vec<u8>)
        ensures
            image@ == self@.image,
    {
        &self.image
    }

    /// The most bytes that one write takes.
    pub fn mtu(&self) -> (mtu: usize)
        ensures
            mtu == self@.mtu,
    {
        self.mtu
    }

    /// Number of blocks of the image.
    pub fn total_blocks(&self) -> (total: usize)
        ensures
            total == self@.total_blocks(),
            total <= u32::MAX,
    {
        proof {
            use_type_invariant(self);
        }
        count_pieces(self.image.len(), DFU_PAGE_LEN)
    }

    /// Length of the block in transfer; zero once all blocks are through.
    pub fn current_block_size(&self) -> (size: usize)
        ensures
            size == self@.block_bytes().len(),
            size <= DFU_PAGE_LEN,
    {
        proof {
            use_type_invariant(self);
        }
        proof {
            lemma_piece_in_range(
                self@.image.len(),
                DFU_PAGE_LEN as nat,
                self.cursor.current_block_index as nat,
            );
        }
        measure_piece(self.image.len(), DFU_PAGE_LEN, self.cursor.current_block_index)
    }

    /// Share of the blocks that are through, in percent, rounded down.
    pub fn progress_percentage(&self) -> (percent: u32)
        ensures
            percent == self@.progress(),
            percent <= 100,
    {
        proof {
            use_type_invariant(self);
        }
        proof {
            lemma_progress_bounds(self@, self@);
        }
        let total: u64 = self.total_blocks() as u64;
        let through: u64 = self.cursor.current_block_index as u64;
        (through * 100 / total) as u32
    }

    fn faulted(&self, target: McuDfuState) -> (yes: bool)
        ensures
            yes == self@.faulted(target),
    {
        target == McuDfuState::Fault || self.cursor.state == DFUState::Fault
    }

    fn has_unsent_work(&self) -> (yes: bool)
        ensures
            yes == self@.has_unsent_work(),
    {
        match self.cursor.state {
            DFUState::Start => true,
            DFUState::SendPreamble => self.cursor.mcu_state == McuDfuState::Idle,
            DFUState::SendTotalBlocks => self.cursor.mcu_state == McuDfuState::Prepare,
            DFUState::SendBlockHeader => self.cursor.mcu_state == McuDfuState::Header,
            DFUState::SendBlockData => self.cursor.mcu_state == McuDfuState::Data,
            _ => false,
        }
    }

    fn is_duplicate(&self, target: McuDfuState) -> (yes: bool)
        ensures
            yes == self@.is_duplicate(target),
    {
        !self.faulted(target) && target == self.cursor.mcu_state && target != McuDfuState::Idle
            && !self.has_unsent_work()
    }

    fn acks(&self, target: McuDfuState) -> (yes: bool)
        ensures
            yes == self@.acks(target),
    {
        !self.faulted(target) && target != McuDfuState::Idle && target != self.cursor.mcu_state
    }

    fn acts(&self, target: McuDfuState) -> (yes: bool)
        ensures
            yes == self@.acts(target),
    {
        if self.faulted(target) || self.is_duplicate(target) {
            return false;
        }
        let seen: McuDfuState = if self.acks(target) {
            target
        } else {
            self.cursor.mcu_state
        };
        match self.cursor.state {
            DFUState::Start => true,
            DFUState::SendPreamble => seen == McuDfuState::Idle,
            DFUState::SendTotalBlocks => seen == McuDfuState::Prepare,
            DFUState::SendBlockHeader => seen == McuDfuState::Header,
            DFUState::SendBlockData => seen == McuDfuState::Data,
            DFUState::WaitVerify => seen == McuDfuState::Verify,
            DFUState::WaitWrite => seen == McuDfuState::Write,
            DFUState::Complete => seen == McuDfuState::Final,
            DFUState::Fault => false,
        }
    }

    /// Number of chunks of the block in transfer.
    pub fn chunk_total(&self) -> (total: usize)
        ensures
            total == self@.chunk_total(),
            total <= DFU_PAGE_LEN,
    {
        proof {
            use_type_invariant(self);
        }
        let size: usize = self.current_block_size();
        proof {
            lemma_piece_count_bounds(size as nat, self.mtu as nat);
        }
        count_pieces(size, self.mtu)
    }

    fn work_count(&self, target: McuDfuState) -> (count: usize)
        ensures
            count == self@.work_frames(target).len(),
            count <= DFU_PAGE_LEN,
    {
        proof {
            use_type_invariant(self);
        }
        if !self.acts(target) {
            return 0;
        }
        match self.cursor.state {
            DFUState::Start => 1,
            DFUState::SendPreamble => 1,
            DFUState::SendTotalBlocks => 1,
            DFUState::SendBlockHeader => 1,
            DFUState::SendBlockData => self.chunk_total() - self.cursor.current_chunk_index,
            _ => 0,
        }
    }

    /// Number of frames that a step on `target` puts on the wire.
    pub fn planned_frames(&self, target: McuDfuState) -> (count: usize)
        ensures
            count == self@.frames(target).len(),
    {
        proof {
            use_type_invariant(self);
        }
        let ack: usize = if self.acks(target) {
            1
        } else {
            0
        };
        ack + self.work_count(target)
    }

    /// Settles what a step on `target` puts on the wire, and changes nothing.
    ///
    /// A phase that the device has newly entered is acknowledged first;
    /// `Idle` and `Fault` are not. Then follows the work of the state, where
    /// the phase gone by is the one that the state waits for: the trigger at
    /// `Start`, the preamble on `Idle`, the count of blocks on `Prepare`, the
    /// header of the block on `Header`, and on `Data` the chunks of the block
    /// from the first that has not gone out. A fault and a phase that only
    /// repeats put nothing on the wire.
    pub fn plan(&self, target: McuDfuState) -> (plan: Plan)
        ensures
            plan.wire() == self@.frames(target),
            plan.pause_ms == self@.pause_ms(target),
    {
        proof {
            use_type_invariant(self);
        }
        let ghost expected = self@.frames(target);
        let mut frames: Vec<Vec<u8>> = Vec::new();
        let pause_ms: u64 = if self.is_duplicate(target) {
            10
        } else if !self.faulted(target) && self.cursor.state == DFUState::Start {
            1000
        } else {
            0
        };
        if self.acks(target) {
            let ack: [u8; 4] = u32_to_le_bytes(DFU_ACK_PATTERN);
            frames.push(vstd::slice::slice_to_vec(ack.as_slice()));
        }
        if self.acts(target) {
            match self.cursor.state {
                DFUState::Start => {
                    let trigger: Vec<u8> = vec![
                        0x75u8,
                        0x70u8,
                        0x64u8,
                        0x61u8,
                        0x74u8,
                        0x65u8,
                        0x0du8,
                        0x0au8,
                    ];
                    assert(trigger@ =~= trigger_frame());
                    frames.push(trigger);
                },
                DFUState::SendPreamble => {
                    let preamble: Vec<u8> = vstd::slice::slice_to_vec(DFU_PREAMBLE.as_slice());
                    assert(preamble@ =~= preamble_frame());
                    frames.push(preamble);
                },
                DFUState::SendTotalBlocks => {
                    let total: usize = self.total_blocks();
                    let count: [u8; 4] = u32_to_le_bytes(total as u32);
                    frames.push(vstd::slice::slice_to_vec(count.as_slice()));
                },
                DFUState::SendBlockHeader => {
                    let size: usize = self.current_block_size();
                    let header = FirmwareBlockHeader {
                        signature: [0u8; 64],
                        block_size: size as u32,
                    };
                    let bytes: Vec<u8> = header.to_bytes();
                    assert(bytes@ =~= header_frame(size as nat));
                    frames.push(bytes);
                },
                DFUState::SendBlockData => {
                    let block: &[u8] = take_piece(
                        self.image.as_slice(),
                        DFU_PAGE_LEN,
                        self.cursor.current_block_index,
                    );
                    let total: usize = self.chunk_total();
                    let first: usize = self.cursor.current_chunk_index;
                    let ghost before = frames@.len();
                    let mut index: usize = first;
                    while index < total
                        invariant
                            self@.wf(),
                            self.mtu > 0,
                            block@ == self@.block_bytes(),
                            total == self@.chunk_total(),
                            first == self@.chunk,
                            first <= index <= total,
                            before == self@.ack_frames(target).len(),
                            self@.work_frames(target) == pieces_from(
                                block@,
                                self.mtu as nat,
                                first as nat,
                            ),
                            frames@.len() == before + (index - first),
                            forall|i: int|
                                0 <= i < frames@.len() ==> (#[trigger] frames@[i])@
                                    == self@.frames(target)[i],
                        decreases total - index,
                    {
                        let part: &[u8] = take_piece(block, self.mtu, index);
                        frames.push(vstd::slice::slice_to_vec(part));
                        index = index + 1;
                    }
                },
                _ => {},
            }
        }
        let plan = Plan { frames, pause_ms };
        assert(plan.wire() =~= expected);
        plan
    }

    /// Takes a step on `target`, the phase that the device reported last,
    /// given that the link took the first `sent` frames of the plan for
    /// `target`; a number above the plan's length counts as all of them.
    ///
    /// A fault, reported now or before, ends the transfer: the state is
    /// `Fault` and the step fails with `DeviceFault`. A phase that only
    /// repeats changes nothing. Where every frame went out, the phase is gone
    /// by and the state moves on; the result tells whether the state changed
    /// and whether there is progress to report. Where a write failed, the
    /// step fails with the write's error, and the session keeps what did go
    /// out: the phase once its acknowledgement went out, and the chunks that
    /// went out, so that the next plan takes the block up at the chunk that
    /// failed.
    pub fn ota_process(&mut self, target: McuDfuState, sent: usize) -> (result: Result<
        (bool, bool),
        OtaError,
    >)
        ensures
            final(self)@ == old(self)@.after(target, sent as nat),
            result == old(self)@.outcome(target, sent as nat),
            final(self)@.wf(),
    {
        proof {
            use_type_invariant(&*self);
            lemma_session_bounds(self@);
        }
        let mut next: Cursor = self.cursor;
        if self.faulted(target) {
            next.state = DFUState::Fault;
            if target == McuDfuState::Fault {
                next.mcu_state = McuDfuState::Fault;
            }
            self.cursor = next;
            return Err(OtaError::DeviceFault);
        }
        if self.is_duplicate(target) {
            return Ok((false, false));
        }
        let acks: bool = self.acks(target);
        let acts: bool = self.acts(target);
        let ack_len: usize = if acks {
            1
        } else {
            0
        };
        let work_len: usize = self.work_count(target);
        if acks {
            next.mcu_state = target;
        }
        if sent < ack_len + work_len {
            if acks && sent == 0 {
                return Err(OtaError::AckRejected);
            }
            let done: usize = sent - ack_len;
            if self.cursor.state == DFUState::SendBlockData {
                assert(self@.acts(target));
                assert(self@.work_frames(target).len() == self@.chunk_total() - self@.chunk);
                let at: usize = self.cursor.current_chunk_index + done;
                next.current_chunk_index = at;
                self.cursor = next;
                return Err(OtaError::ChunkRejected(at));
            }
            self.cursor = next;
            return Err(OtaError::SendRejected);
        }
        if !acts {
            self.cursor = next;
            return Ok((false, false));
        }
        let result: (bool, bool) = match self.cursor.state {
            DFUState::Start => {
                next.state = DFUState::SendPreamble;
                (true, false)
            },
            DFUState::SendPreamble => {
                next.state = DFUState::SendTotalBlocks;
                (true, false)
            },
            DFUState::SendTotalBlocks => {
                next.state = DFUState::SendBlockHeader;
                (true, false)
            },
            DFUState::SendBlockHeader => {
                next.state = DFUState::SendBlockData;
                (true, false)
            },
            DFUState::SendBlockData => {
                next.current_chunk_index = 0;
                next.state = DFUState::WaitVerify;
                (true, false)
            },
            DFUState::WaitVerify => {
                next.state = DFUState::WaitWrite;
                (true, false)
            },
            DFUState::WaitWrite => {
                let total: usize = self.total_blocks();
                next.current_block_index = self.cursor.current_block_index + 1;
                if next.current_block_index >= total {
                    next.state = DFUState::Complete;
                    (true, false)
                } else {
                    next.state = DFUState::SendBlockHeader;
                    (true, true)
                }
            },
            DFUState::Complete => (false, true),
            DFUState::Fault => (false, false),
        };
        self.cursor = next;
        Ok(result)
    }
}

} // verus!
