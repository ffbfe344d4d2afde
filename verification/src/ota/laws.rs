//! What holds of every step of a transfer session.

use vstd::prelude::*;
use crate::ota::layout::{
    law_last_piece_holds_the_rest,
    lemma_piece_in_range,
    lemma_pieces_from_skip,
    law_pieces_rebuild,
    piece_count,
    pieces_from,
};
use crate::ota::model::{
    ack_frame,
    count_frame,
    header_frame,
    preamble_frame,
    trigger_frame,
    lemma_progress_bounds,
    lemma_session_bounds,
    SessionView,
};
use crate::ota::run::{shown, Directive, RunEvent, RunView};
use crate::ota::sample::{DFUState, McuDfuState, OtaError, DFU_PAGE_LEN, DFU_SIGNATURE_LEN};

verus! {

/// How far the handshake has come: the states in the order in which a
/// transfer passes through them, the four states of a block once for each
/// block. `Fault` lies outside this order and counts as zero.
pub open spec fn position(s: SessionView) -> nat {
    match s.state {
        DFUState::Start => 0,
        DFUState::SendPreamble => 1,
        DFUState::SendTotalBlocks => 2,
        DFUState::SendBlockHeader => 3 + 4 * s.block,
        DFUState::SendBlockData => 4 + 4 * s.block,
        DFUState::WaitVerify => 5 + 4 * s.block,
        DFUState::WaitWrite => 6 + 4 * s.block,
        DFUState::Complete => 3 + 4 * s.block,
        DFUState::Fault => 0,
    }
}

/// A step leaves a session as sound as it found it, and never touches the
/// image or the size of a write.
pub proof fn law_step_keeps_session_sound(s: SessionView, target: McuDfuState, sent: nat)
    requires
        s.wf(),
    ensures
        s.after(target, sent).wf(),
        s.after(target, sent).image == s.image,
        s.after(target, sent).mtu == s.mtu,
{
    lemma_session_bounds(s);
    let next = s.after(target, sent);
    if !s.faulted(target) && !s.is_duplicate(target) {
        if sent >= s.frames(target).len() {
            if s.acts(target) && s.state == DFUState::WaitWrite {
                lemma_piece_in_range(s.image.len(), DFU_PAGE_LEN as nat, s.block + 1);
            }
        } else {
            if s.state == DFUState::SendBlockData && s.acts(target) {
                assert(s.work_frames(target).len() == s.chunk_total() - s.chunk);
            }
        }
    }
}

/// The state machine never goes back. A step either ends in `Fault`, or
/// leaves the handshake where it was or one state further on; and where it
/// leaves it in place, no chunk that went out is taken back. The block index
/// grows by one at most, and the chunk index starts at zero in a new block. A retry changes nothing of
/// the session, so it takes the transfer up exactly where the failed step
/// left it.
pub proof fn law_step_never_regresses(s: SessionView, target: McuDfuState, sent: nat)
    requires
        s.wf(),
    ensures
        s.after(target, sent).state == DFUState::Fault || {
            &&& position(s) <= position(s.after(target, sent)) <= position(s) + 1
            &&& s.after(target, sent).block >= s.block
            &&& (position(s.after(target, sent)) == position(s) ==> s.after(target, sent).chunk
                >= s.chunk)
        },
        s.block <= s.after(target, sent).block <= s.block + 1,
        s.after(target, sent).block > s.block ==> s.after(target, sent).chunk == 0,
{
}

/// Of two notifications of one phase in a row, only the first moves the
/// state machine: once a step on a phase other than `Idle` went through, a
/// step on the same phase puts nothing on the wire and changes nothing.
pub proof fn law_repeated_phase_advances_once(
    s: SessionView,
    target: McuDfuState,
    sent: nat,
    sent_again: nat,
)
    requires
        s.wf(),
        target != McuDfuState::Idle,
        s.outcome(target, sent) is Ok,
    ensures
        s.after(target, sent).frames(target) == Seq::<Seq<u8>>::empty(),
        s.after(target, sent).after(target, sent_again) == s.after(target, sent),
        s.after(target, sent).outcome(target, sent_again) == Ok::<(bool, bool), OtaError>(
            (false, false),
        ),
{
    let next = s.after(target, sent);
    assert(next.is_duplicate(target));
    assert(next.frames(target) =~= Seq::<Seq<u8>>::empty());
}

/// Two steps on one phase other than `Idle` move the handshake on by one
/// state at most, however their writes went: where the first was cut short,
/// the second takes it up, and where the first went through, the second does
/// nothing.
pub proof fn law_repeated_phase_advances_at_most_once(
    s: SessionView,
    target: McuDfuState,
    sent: nat,
    sent_again: nat,
)
    requires
        s.wf(),
        target != McuDfuState::Idle,
        s.after(target, sent).after(target, sent_again).state != DFUState::Fault,
    ensures
        position(s) <= position(s.after(target, sent).after(target, sent_again)) <= position(s)
            + 1,
{
    let next = s.after(target, sent);
    law_step_keeps_session_sound(s, target, sent);
    law_step_never_regresses(s, target, sent);
    law_step_never_regresses(next, target, sent_again);
    if s.outcome(target, sent) is Ok {
        law_repeated_phase_advances_once(s, target, sent, sent_again);
    } else {
        assert(next.state == s.state && next.block == s.block);
    }
}

/// A step that a failed write cut short is taken up where it stopped: the
/// plan of the next step on the same phase is what was left of the plan. In
/// the middle of a block that is the chunks from the one that failed on, and
/// neither an earlier chunk nor an earlier block.
pub proof fn law_interrupted_step_resumes(s: SessionView, target: McuDfuState, sent: nat)
    requires
        s.wf(),
        sent < s.frames(target).len(),
    ensures
        s.outcome(target, sent) is Err,
        s.after(target, sent).state == s.state,
        s.after(target, sent).block == s.block,
        s.after(target, sent).chunk == s.chunk + (if s.state == DFUState::SendBlockData {
            s.work_sent(target, sent)
        } else {
            0
        }),
        s.after(target, sent).frames(target) == s.frames(target).skip(sent as int),
{
    lemma_session_bounds(s);
    let next = s.after(target, sent);
    assert(!s.faulted(target));
    assert(!s.is_duplicate(target)) by {
        if s.is_duplicate(target) {
            assert(s.frames(target) =~= Seq::<Seq<u8>>::empty());
        }
    }
    if s.acks(target) && sent == 0 {
        assert(s.frames(target).skip(0) =~= s.frames(target));
    } else {
        let done = s.work_sent(target, sent);
        assert(s.acts(target));
        assert(!next.acks(target));
        assert(next.acts(target));
        assert(next.ack_frames(target) =~= Seq::<Seq<u8>>::empty());
        if s.state == DFUState::SendBlockData {
            assert(s.work_frames(target).len() == s.chunk_total() - s.chunk);
            lemma_pieces_from_skip(s.block_bytes(), s.mtu, s.chunk, done);
            assert(next.work_frames(target) == s.work_frames(target).skip(done as int));
        } else {
            assert(done == 0);
            assert(next.work_frames(target) =~= s.work_frames(target));
        }
        assert(next.frames(target) =~= s.frames(target).skip(sent as int));
    }
}

/// The chunks of a block are what cutting it at the size of a write gives:
/// `len / mtu` of them, rounded up, none empty and none longer than a write
/// takes; and put end to end they are the block. A step on `Data` at the
/// head of a block plans the acknowledgement, if one is due, and then
/// exactly these chunks.
pub proof fn law_chunks_rebuild_block(s: SessionView, target: McuDfuState)
    requires
        s.wf(),
        s.state == DFUState::SendBlockData,
        s.chunk == 0,
        s.acts(target),
    ensures
        s.work_frames(target).len() == piece_count(s.block_bytes().len(), s.mtu),
        s.work_frames(target).flatten() == s.block_bytes(),
        forall|i: int|
            0 <= i < s.work_frames(target).len() ==> 0 < (#[trigger] s.work_frames(target)[i]).len()
                <= s.mtu,
        s.frames(target) == s.ack_frames(target) + pieces_from(s.block_bytes(), s.mtu, 0),
{
    law_pieces_rebuild(s.block_bytes(), s.mtu);
}

/// No frame of a step is longer than a write takes, on a link that takes a
/// block header in one write: the engine never asks the link for a write
/// that the link would refuse for its length.
pub proof fn law_frames_fit_link(s: SessionView, target: McuDfuState)
    requires
        s.wf(),
        s.mtu >= DFU_SIGNATURE_LEN + 4,
    ensures
        forall|i: int|
            0 <= i < s.frames(target).len() ==> (#[trigger] s.frames(target)[i]).len() <= s.mtu,
{
    lemma_session_bounds(s);
    assert forall|i: int| 0 <= i < s.frames(target).len() implies (#[trigger] s.frames(
        target,
    )[i]).len() <= s.mtu by {
        let ack = s.ack_frames(target);
        let work = s.work_frames(target);
        if i < ack.len() {
            assert(s.frames(target)[i] == ack[i]);
        } else {
            assert(s.frames(target)[i] == work[i - ack.len()]);
            if s.state == DFUState::SendBlockData {
                lemma_piece_in_range(
                    s.block_bytes().len(),
                    s.mtu,
                    (s.chunk + (i - ack.len())) as nat,
                );
            }
        }
    }
}

/// A handshake that nothing disturbs opens in three steps: the trigger goes
/// out at once, the preamble on `Idle`, and on `Prepare` the acknowledgement
/// and the count of blocks; then the engine stands before the header of the
/// first block.
pub proof fn law_opening_of_handshake(image: Seq<u8>, mtu: nat)
    requires
        SessionView::initial(image, mtu).wf(),
    ensures
        ({
            let start = SessionView::initial(image, mtu);
            let triggered = start.after(McuDfuState::Idle, 1);
            let opened = triggered.after(McuDfuState::Idle, 1);
            let counted = opened.after(McuDfuState::Prepare, 2);
            &&& start.frames(McuDfuState::Idle) == seq![trigger_frame()]
            &&& triggered.frames(McuDfuState::Idle) == seq![preamble_frame()]
            &&& opened.frames(McuDfuState::Prepare) == seq![
                ack_frame(),
                count_frame(piece_count(image.len(), DFU_PAGE_LEN as nat)),
            ]
            &&& counted.state == DFUState::SendBlockHeader
            &&& counted.block == 0
            &&& counted.chunk == 0
        }),
{
    let start = SessionView::initial(image, mtu);
    let triggered = start.after(McuDfuState::Idle, 1);
    let opened = triggered.after(McuDfuState::Idle, 1);
    assert(start.frames(McuDfuState::Idle) =~= seq![trigger_frame()]);
    assert(triggered.frames(McuDfuState::Idle) =~= seq![preamble_frame()]);
    assert(opened.frames(McuDfuState::Prepare) =~= seq![
        ack_frame(),
        count_frame(piece_count(image.len(), DFU_PAGE_LEN as nat)),
    ]);
}

/// A block that nothing disturbs goes out in four steps, each opened by an
/// acknowledgement: on `Header` its header, on `Data` its chunks, all of
/// them and in order, on `Verify` and on `Write` nothing more. Then the
/// engine stands before the header of the next block, or in `Complete` after
/// the last, and what went out as data is the block.
pub proof fn law_block_goes_out_whole(s: SessionView)
    requires
        s.wf(),
        s.state == DFUState::SendBlockHeader,
        s.mcu_state != McuDfuState::Header && s.mcu_state != McuDfuState::Data,
    ensures
        ({
            let headed = s.after(McuDfuState::Header, 2);
            let chunks = pieces_from(s.block_bytes(), s.mtu, 0);
            let streamed = headed.after(McuDfuState::Data, 1 + chunks.len());
            let verified = streamed.after(McuDfuState::Verify, 1);
            let written = verified.after(McuDfuState::Write, 1);
            &&& s.frames(McuDfuState::Header) == seq![
                ack_frame(),
                header_frame(s.block_bytes().len()),
            ]
            &&& headed.frames(McuDfuState::Data) == seq![ack_frame()] + chunks
            &&& chunks.flatten() == s.block_bytes()
            &&& streamed.frames(McuDfuState::Verify) == seq![ack_frame()]
            &&& verified.frames(McuDfuState::Write) == seq![ack_frame()]
            &&& written.block == s.block + 1
            &&& written.chunk == 0
            &&& written.state == (if s.block + 1 == s.total_blocks() {
                DFUState::Complete
            } else {
                DFUState::SendBlockHeader
            })
            &&& written.mcu_state == McuDfuState::Write
        }),
{
    let headed = s.after(McuDfuState::Header, 2);
    let chunks = pieces_from(s.block_bytes(), s.mtu, 0);
    let streamed = headed.after(McuDfuState::Data, 1 + chunks.len());
    let verified = streamed.after(McuDfuState::Verify, 1);
    law_pieces_rebuild(s.block_bytes(), s.mtu);
    assert(s.frames(McuDfuState::Header) =~= seq![
        ack_frame(),
        header_frame(s.block_bytes().len()),
    ]);
    assert(headed.block_bytes() == s.block_bytes());
    assert(headed.frames(McuDfuState::Data) =~= seq![ack_frame()] + chunks);
    assert(streamed.state == DFUState::WaitVerify);
    assert(streamed.frames(McuDfuState::Verify) =~= seq![ack_frame()]);
    assert(verified.state == DFUState::WaitWrite);
    assert(verified.frames(McuDfuState::Write) =~= seq![ack_frame()]);
}

/// The session after one block has gone out undisturbed.
pub open spec fn after_block(s: SessionView) -> SessionView {
    let chunks = pieces_from(s.block_bytes(), s.mtu, 0);
    s.after(McuDfuState::Header, 2).after(McuDfuState::Data, 1 + chunks.len()).after(
        McuDfuState::Verify,
        1,
    ).after(McuDfuState::Write, 1)
}

/// The session after `count` blocks have gone out undisturbed.
pub open spec fn after_blocks(s: SessionView, count: nat) -> SessionView
    decreases count,
{
    if count == 0 {
        s
    } else {
        after_blocks(after_block(s), (count - 1) as nat)
    }
}

/// A transfer that nothing disturbs gets through: from the header of any
/// block, once the blocks that are left have gone out, the engine is in
/// `Complete` with every block through, and the phase `Final` then ends the
/// transfer with a progress value of 100.
pub proof fn law_transfer_gets_through(s: SessionView)
    requires
        s.wf(),
        s.state == DFUState::SendBlockHeader,
        s.mcu_state != McuDfuState::Header && s.mcu_state != McuDfuState::Data,
    ensures
        ({
            let done = after_blocks(s, (s.total_blocks() - s.block) as nat);
            &&& done.wf()
            &&& done.image == s.image
            &&& done.state == DFUState::Complete
            &&& done.block == s.total_blocks()
            &&& done.progress() == 100
            &&& done.frames(McuDfuState::Final) == seq![ack_frame()]
            &&& done.outcome(McuDfuState::Final, 1) == Ok::<(bool, bool), OtaError>((false, true))
            &&& done.after(McuDfuState::Final, 1).state == DFUState::Complete
            &&& done.after(McuDfuState::Final, 1).mcu_state == McuDfuState::Final
        }),
    decreases s.total_blocks() - s.block,
{
    let left = (s.total_blocks() - s.block) as nat;
    let next = after_block(s);
    let chunks = pieces_from(s.block_bytes(), s.mtu, 0);
    let headed = s.after(McuDfuState::Header, 2);
    let streamed = headed.after(McuDfuState::Data, 1 + chunks.len());
    let verified = streamed.after(McuDfuState::Verify, 1);
    law_block_goes_out_whole(s);
    law_step_keeps_session_sound(s, McuDfuState::Header, 2);
    law_step_keeps_session_sound(headed, McuDfuState::Data, 1 + chunks.len());
    law_step_keeps_session_sound(streamed, McuDfuState::Verify, 1);
    law_step_keeps_session_sound(verified, McuDfuState::Write, 1);
    assert(after_blocks(s, left) == after_blocks(next, (left - 1) as nat));
    if s.block + 1 == s.total_blocks() {
        assert(after_blocks(next, 0) == next);
        lemma_progress_bounds(next, next);
        assert(next.frames(McuDfuState::Final) =~= seq![ack_frame()]);
    } else {
        law_transfer_gets_through(next);
    }
}

/// The first frames of the handshake say what the image is cut into. The
/// count that goes out on `Prepare` is the length of the image over the
/// length of a page, rounded up. The header that goes out on `Header`
/// declares the length of a page for every block but the last, and for the
/// last what the earlier blocks leave of the image.
pub proof fn law_header_declares_block_size(s: SessionView, target: McuDfuState)
    requires
        s.wf(),
        s.acts(target),
    ensures
        s.state == DFUState::SendTotalBlocks ==> s.work_frames(target) == seq![
            count_frame(piece_count(s.image.len(), DFU_PAGE_LEN as nat)),
        ],
        s.state == DFUState::SendBlockHeader ==> s.work_frames(target) == seq![
            header_frame(s.block_bytes().len()),
        ],
        s.block + 1 < s.total_blocks() ==> s.block_bytes().len() == DFU_PAGE_LEN,
        s.block + 1 == s.total_blocks() ==> s.block_bytes().len() == s.image.len() - (
        s.total_blocks() - 1) * DFU_PAGE_LEN,
{
    law_last_piece_holds_the_rest(s.image.len(), DFU_PAGE_LEN as nat);
    lemma_piece_in_range(s.image.len(), DFU_PAGE_LEN as nat, s.block);
}

/// The blocks of an image are what cutting it at the length of a page gives:
/// put end to end they are the image.
pub proof fn law_blocks_rebuild_image(image: Seq<u8>)
    ensures
        pieces_from(image, DFU_PAGE_LEN as nat, 0).len() == piece_count(
            image.len(),
            DFU_PAGE_LEN as nat,
        ),
        pieces_from(image, DFU_PAGE_LEN as nat, 0).flatten() == image,
{
    law_pieces_rebuild(image, DFU_PAGE_LEN as nat);
}

/// A fault of the device ends the run at once, whatever retries are left:
/// the step puts nothing on the wire, the directive is the fatal error, no
/// retry is taken, and the run is over.
pub proof fn law_fault_is_final(r: RunView, sent: nat, idle_ms: nat)
    requires
        r.wf(),
        !r.over,
    ensures
        r.frames(McuDfuState::Fault) == Seq::<Seq<u8>>::empty(),
        r.directive(RunEvent::Stepped { target: McuDfuState::Fault, sent, idle_ms })
            == Directive::Fail(OtaError::DeviceFault),
        r.after(RunEvent::Stepped { target: McuDfuState::Fault, sent, idle_ms }).over,
        r.after(RunEvent::Stepped { target: McuDfuState::Fault, sent, idle_ms }).retries_left
            == r.retries_left,
        r.after(RunEvent::Stepped { target: McuDfuState::Fault, sent, idle_ms }).session.state
            == DFUState::Fault,
{
    assert(r.frames(McuDfuState::Fault) =~= Seq::<Seq<u8>>::empty());
}

/// A failed write is retried while a retry is left, and each retry takes
/// one; with none left the run ends. The session is the one that the failed
/// step left, so the retry takes the transfer up where it stopped.
pub proof fn law_failed_write_is_retried(
    r: RunView,
    target: McuDfuState,
    sent: nat,
    idle_ms: nat,
)
    requires
        r.wf(),
        sent < r.frames(target).len(),
    ensures
        r.retries_left > 0 ==> r.directive(RunEvent::Stepped { target, sent, idle_ms })
            == Directive::Reconnect && r.after(
            RunEvent::Stepped { target, sent, idle_ms },
        ).retries_left == r.retries_left - 1 && !r.after(
            RunEvent::Stepped { target, sent, idle_ms },
        ).over,
        r.retries_left == 0 ==> r.directive(RunEvent::Stepped { target, sent, idle_ms })
            == Directive::Fail(OtaError::RetryExhausted) && r.after(
            RunEvent::Stepped { target, sent, idle_ms },
        ).over,
        r.after(RunEvent::Stepped { target, sent, idle_ms }).session == r.session.after(
            target,
            sent,
        ),
{
    assert(!r.session.faulted(target)) by {
        if r.session.faulted(target) {
            assert(r.session.frames(target) =~= Seq::<Seq<u8>>::empty());
        }
    }
    assert(!r.session.is_duplicate(target)) by {
        if r.session.is_duplicate(target) {
            assert(r.session.frames(target) =~= Seq::<Seq<u8>>::empty());
        }
    }
}

/// What one event does to the progress shown. A run stays sound. A value
/// that is shown is the share of blocks that are through after the event; it
/// is not below the share before, and not above 100. It is 100 in the
/// directive of success and in no other, and success is given only in the
/// state `Complete` on the phase `Final`, and ends the run.
pub proof fn law_progress_of_event(r: RunView, event: RunEvent)
    requires
        r.wf(),
    ensures
        r.after(event).wf(),
        r.after(event).session.image == r.session.image,
        r.session.progress() <= r.after(event).session.progress() <= 100,
        shown(r.directive(event)) matches Some(percent) ==> percent == r.after(
            event,
        ).session.progress() && (percent == 100 <==> r.directive(event) is Succeed),
        r.directive(event) is Succeed ==> r.after(event).over && r.after(event).session.state
            == DFUState::Complete && r.after(event).session.mcu_state == McuDfuState::Final,
        r.over ==> r.directive(event) == Directive::Over && r.after(event) == r,
{
    let next = r.after(event);
    match event {
        RunEvent::Stepped { target, sent, idle_ms } => {
            law_step_keeps_session_sound(r.session, target, sent);
            law_step_never_regresses(r.session, target, sent);
            lemma_progress_bounds(r.session, r.session.after(target, sent));
            lemma_progress_bounds(r.session.after(target, sent), r.session.after(target, sent));
        },
        RunEvent::Reconnected { ok } => {
            lemma_progress_bounds(r.session, r.session);
        },
    }
}

/// Over a whole run the progress shown never falls and reaches 100 at most
/// once: of the values shown, in order, none is below an earlier one, only
/// the last can be 100, and a value is 100 exactly in the directive of
/// success.
pub proof fn law_progress_never_falls(r: RunView, events: Seq<RunEvent>)
    requires
        r.wf(),
    ensures
        r.directives(events).len() == events.len(),
        forall|i: int|
            0 <= i < events.len() ==> (shown(#[trigger] r.directives(events)[i]) matches Some(
                percent,
            ) ==> r.session.progress() <= percent <= 100 && (percent == 100 <==> r.directives(
                events,
            )[i] is Succeed)),
        forall|i: int, j: int|
            0 <= i < j < events.len() ==> (shown(#[trigger] r.directives(events)[i]) matches Some(
                earlier,
            ) ==> (shown(#[trigger] r.directives(events)[j]) matches Some(later) ==> earlier
                <= later && earlier < 100)),
        r.over ==> forall|i: int|
            0 <= i < events.len() ==> #[trigger] r.directives(events)[i] == Directive::Over,
    decreases events.len(),
{
    let trace = r.directives(events);
    if events.len() > 0 {
        let first = r.directive(events[0]);
        let next = r.after(events[0]);
        let rest = next.directives(events.skip(1));
        law_progress_of_event(r, events[0]);
        law_progress_never_falls(next, events.skip(1));
        assert(trace == seq![first] + rest);
        assert(trace[0] == first);
        assert forall|k: int| 1 <= k < events.len() implies #[trigger] trace[k] == rest[k - 1] by {}
        assert forall|i: int| 0 <= i < events.len() implies (shown(#[trigger] trace[i]) matches Some(
            percent,
        ) ==> r.session.progress() <= percent <= 100 && (percent == 100 <==> trace[i] is Succeed)) by {
            if i > 0 {
                assert(trace[i] == rest[i - 1]);
            }
        }
        assert forall|i: int, j: int| 0 <= i < j < events.len() implies (shown(
            #[trigger] trace[i],
        ) matches Some(earlier) ==> (shown(#[trigger] trace[j]) matches Some(later) ==> earlier
            <= later && earlier < 100)) by {
            assert(trace[j] == rest[j - 1]);
            if i > 0 {
                assert(trace[i] == rest[i - 1]);
            }
        }
        assert(r.over ==> forall|i: int|
            0 <= i < events.len() ==> #[trigger] trace[i] == Directive::Over) by {
            if r.over {
                assert forall|i: int| 0 <= i < events.len() implies #[trigger] trace[i]
                    == Directive::Over by {
                    if i > 0 {
                        assert(trace[i] == rest[i - 1]);
                    }
                }
            }
        }
    }
}

} // verus!
