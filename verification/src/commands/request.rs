//! One command and its answer: the exchange as a state machine.
//!
//! The exchange runs over a link that carries one request at a time and has
//! one listener. The caller performs each action on the link and reports how
//! it went; the machine answers with the next action, and in the end with
//! the one outcome of the call.

use vstd::prelude::*;
use crate::commands::demux::{first_status, Status};

verus! {

/// Why a command failed.
#[derive(Debug, Clone, Copy, PartialEq, Eq, Structural)]
pub enum CommandError {
    /// The link refused the listener.
    Subscribe,
    /// The link refused the command.
    Send,
    /// The device answered with the sentinel of refusal.
    Refused,
    /// The listener went away before any status came.
    Closed,
    /// No status came within the time allowed.
    Timeout,
    /// The command was carried out, but the link refused to end the
    /// subscription afterwards.
    Unsubscribe,
}

/// How the bounded wait for a status ended.
#[derive(Debug, Clone, Copy, PartialEq, Eq, Structural)]
pub enum Waited {
    /// A status came.
    Status(Status),
    /// The listener went away before any status came.
    Closed,
    /// The time allowed ran out before any status came.
    Deadline,
}

/// What the caller reports to the machine.
#[derive(Debug, Clone, Copy, PartialEq, Eq, Structural)]
pub enum Event {
    /// The action on the link went through, or was refused.
    Completed { ok: bool },
    /// The wait ended.
    Waited(Waited),
}

/// What the caller is to do next.
#[derive(Debug, Clone, Copy, PartialEq, Eq)]
pub enum Action {
    /// End the subscription, and report how that went.
    Unsubscribe,
    /// Subscribe the listener that routes the frames, and report how that went.
    Subscribe,
    /// Write the command, and report how that went.
    Send,
    /// Wait for a status, no longer than the time allowed, and report how
    /// the wait ended.
    Wait,
    /// Return this outcome: the call is over.
    Finish(Result<(), CommandError>),
}

/// Where an exchange stands: the action that is under way.
#[derive(Debug, Clone, Copy, PartialEq, Eq)]
pub enum Stage {
    /// The subscription of an earlier call, if any is left, is being ended.
    Clearing,
    /// The listener is being subscribed.
    Subscribing,
    /// The command is being written.
    Sending,
    /// The status is waited for.
    Waiting,
    /// The subscription is being ended; the outcome so far is kept.
    Releasing(Result<(), CommandError>),
    /// The call is over with this outcome.
    Done(Result<(), CommandError>),
}

/// What the wait yields when `frames` are the frames that arrive before the
/// time allowed runs out: the first status among them, and without one the
/// end of the listener or of the time.
pub open spec fn wait_result(frames: Seq<Seq<u8>>, closed: bool) -> Waited {
    match first_status(frames) {
        Some(status) => Waited::Status(status),
        None => if closed {
            Waited::Closed
        } else {
            Waited::Deadline
        },
    }
}

/// The outcome that the end of the wait stands for.
pub open spec fn verdict(waited: Waited) -> Result<(), CommandError> {
    match waited {
        Waited::Status(Status::Accepted) => Ok(()),
        Waited::Status(Status::Refused) => Err(CommandError::Refused),
        Waited::Closed => Err(CommandError::Closed),
        Waited::Deadline => Err(CommandError::Timeout),
    }
}

/// The outcome once the subscription has been ended: a refusal there is
/// reported only where nothing failed before.
pub open spec fn settled(so_far: Result<(), CommandError>, released: bool) -> Result<
    (),
    CommandError,
> {
    if so_far is Ok && !released {
        Err(CommandError::Unsubscribe)
    } else {
        so_far
    }
}

/// The action that is under way at a stage.
pub open spec fn pending(stage: Stage) -> Action {
    match stage {
        Stage::Clearing => Action::Unsubscribe,
        Stage::Subscribing => Action::Subscribe,
        Stage::Sending => Action::Send,
        Stage::Waiting => Action::Wait,
        Stage::Releasing(_) => Action::Unsubscribe,
        Stage::Done(outcome) => Action::Finish(outcome),
    }
}

/// The stage after an event. An event that does not report on the action
/// under way changes nothing.
pub open spec fn next_stage(stage: Stage, keep_subscribe: bool, event: Event) -> Stage {
    match (stage, event) {
        (Stage::Clearing, Event::Completed { .. }) => Stage::Subscribing,
        (Stage::Subscribing, Event::Completed { ok }) => if ok {
            Stage::Sending
        } else {
            Stage::Done(Err(CommandError::Subscribe))
        },
        (Stage::Sending, Event::Completed { ok }) => if ok {
            Stage::Waiting
        } else if keep_subscribe {
            Stage::Done(Err(CommandError::Send))
        } else {
            Stage::Releasing(Err(CommandError::Send))
        },
        (Stage::Waiting, Event::Waited(waited)) => if keep_subscribe {
            Stage::Done(verdict(waited))
        } else {
            Stage::Releasing(verdict(waited))
        },
        (Stage::Releasing(so_far), Event::Completed { ok }) => Stage::Done(settled(so_far, ok)),
        _ => stage,
    }
}

/// The stage after a row of events.
pub open spec fn stage_after(stage: Stage, keep_subscribe: bool, events: Seq<Event>) -> Stage
    decreases events.len(),
{
    if events.len() == 0 {
        stage
    } else {
        stage_after(next_stage(stage, keep_subscribe, events[0]), keep_subscribe, events.skip(1))
    }
}

/// The outcome of a call, given how each action on the link went: the
/// subscription, the write, the wait, and the end of the subscription.
pub open spec fn call_outcome(
    keep_subscribe: bool,
    subscribed: bool,
    sent: bool,
    waited: Waited,
    released: bool,
) -> Result<(), CommandError> {
    if !subscribed {
        Err(CommandError::Subscribe)
    } else if !sent {
        Err(CommandError::Send)
    } else if keep_subscribe {
        verdict(waited)
    } else {
        settled(verdict(waited), released)
    }
}

/// The events of a call, in order, given how each action on the link went.
/// The call ends with the first refusal of the listener; after the write it
/// ends the subscription unless it is to be kept.
pub open spec fn call_events(
    keep_subscribe: bool,
    cleared: bool,
    subscribed: bool,
    sent: bool,
    waited: Waited,
    released: bool,
) -> Seq<Event> {
    let opening = seq![Event::Completed { ok: cleared }, Event::Completed { ok: subscribed }];
    let closing = if keep_subscribe {
        Seq::<Event>::empty()
    } else {
        seq![Event::Completed { ok: released }]
    };
    if !subscribed {
        opening
    } else if !sent {
        opening + seq![Event::Completed { ok: false }] + closing
    } else {
        opening + seq![Event::Completed { ok: true }, Event::Waited(waited)] + closing
    }
}

/// A command that is out, or about to be: its bytes, the time allowed for
/// the answer, whether the listener stays, and where the exchange stands.
#[derive(Debug)]
pub struct Request {
    command: Vec<u8>,
    time_wait: u64,
    keep_subscribe: bool,
    stage: Stage,
}

/// An exchange as a mathematical value.
pub struct RequestView {
    /// The bytes of the command.
    pub command: Seq<u8>,
    /// Seconds allowed for the answer.
    pub time_wait: nat,
    /// The listener stays subscribed after the answer.
    pub keep_subscribe: bool,
    /// Where the exchange stands.
    pub stage: Stage,
}

impl View for Request {
    type V = RequestView;

    closed spec fn view(&self) -> RequestView {
        RequestView {
            command: self.command@,
            time_wait: self.time_wait as nat,
            keep_subscribe: self.keep_subscribe,
            stage: self.stage,
        }
    }
}

impl Request {
    /// Opens an exchange. Its first action is under way at once: to end
    /// whatever subscription an earlier call has left.
    pub fn new(command: Vec<u8>, time_wait: u64, keep_subscribe: bool) -> (request: Request)
        ensures
            request@ == (RequestView {
                command: command@,
                time_wait: time_wait as nat,
                keep_subscribe,
                stage: Stage::Clearing,
            }),
    {
        Request { command, time_wait, keep_subscribe, stage: Stage::Clearing }
    }

    /// The bytes of the command.
    pub fn command(&self) -> (command: &Vec<u8>)
        ensures
            command@ == self@.command,
    {
        &self.command
    }

    /// Seconds allowed for the answer.
    pub fn time_wait(&self) -> (seconds: u64)
        ensures
            seconds == self@.time_wait,
    {
        self.time_wait
    }

    /// Whether the listener stays subscribed after the answer.
    pub fn keep_subscribe(&self) -> (keep: bool)
        ensures
            keep == self@.keep_subscribe,
    {
        self.keep_subscribe
    }

    /// Where the exchange stands.
    pub fn stage(&self) -> (stage: Stage)
        ensures
            stage == self@.stage,
    {
        self.stage
    }

    /// The outcome of the call, once it is over.
    pub fn outcome(&self) -> (outcome: Option<Result<(), CommandError>>)
        ensures
            outcome == (match self@.stage {
                Stage::Done(result) => Some(result),
                _ => None,
            }),
    {
        match self.stage {
            Stage::Done(result) => Some(result),
            _ => None,
        }
    }

    /// The action that is under way.
    pub fn action(&self) -> (action: Action)
        ensures
            action == pending(self@.stage),
    {
        match self.stage {
            Stage::Clearing => Action::Unsubscribe,
            Stage::Subscribing => Action::Subscribe,
            Stage::Sending => Action::Send,
            Stage::Waiting => Action::Wait,
            Stage::Releasing(_) => Action::Unsubscribe,
            Stage::Done(outcome) => Action::Finish(outcome),
        }
    }

    /// Takes note of an event and says what to do next.
    ///
    /// How the first end of a subscription went does not matter. A refused
    /// listener ends the call. A refused write ends the call too, after the
    /// subscription has been ended unless it is to be kept. The wait decides
    /// the outcome: success on the sentinel of success, failure on the
    /// sentinel of refusal, on the end of the listener and on the end of the
    /// time allowed. Unless the subscription is to be kept it is then ended,
    /// and a refusal there is the outcome only where nothing failed before.
    /// A call that is over stays over, with the same outcome.
    pub fn on_event(&mut self, event: Event) -> (action: Action)
        ensures
            final(self)@ == (RequestView {
                stage: next_stage(old(self)@.stage, old(self)@.keep_subscribe, event),
                ..old(self)@
            }),
            action == pending(final(self)@.stage),
    {
        let next: Stage = match (self.stage, event) {
            (Stage::Clearing, Event::Completed { .. }) => Stage::Subscribing,
            (Stage::Subscribing, Event::Completed { ok }) => if ok {
                Stage::Sending
            } else {
                Stage::Done(Err(CommandError::Subscribe))
            },
            (Stage::Sending, Event::Completed { ok }) => if ok {
                Stage::Waiting
            } else if self.keep_subscribe {
                Stage::Done(Err(CommandError::Send))
            } else {
                Stage::Releasing(Err(CommandError::Send))
            },
            (Stage::Waiting, Event::Waited(waited)) => {
                let result: Result<(), CommandError> = match waited {
                    Waited::Status(Status::Accepted) => Ok(()),
                    Waited::Status(Status::Refused) => Err(CommandError::Refused),
                    Waited::Closed => Err(CommandError::Closed),
                    Waited::Deadline => Err(CommandError::Timeout),
                };
                if self.keep_subscribe {
                    Stage::Done(result)
                } else {
                    Stage::Releasing(result)
                }
            },
            (Stage::Releasing(so_far), Event::Completed { ok }) => {
                if so_far.is_ok() && !ok {
                    Stage::Done(Err(CommandError::Unsubscribe))
                } else {
                    Stage::Done(so_far)
                }
            },
            (stage, _) => stage,
        };
        self.stage = next;
        self.action()
    }
}

/// The outcome follows the first status, and nothing else, where the link
/// does its part: once the listener is subscribed and the command written,
/// and the subscription is kept or ended without a refusal, the call
/// succeeds exactly where the wait ended on the sentinel of success, and
/// fails exactly where it ended on the sentinel of refusal, on the end of
/// the listener or on the end of the time allowed. Among the frames that
/// arrive it is the first status that counts.
pub proof fn law_outcome_follows_first_status(
    keep_subscribe: bool,
    frames: Seq<Seq<u8>>,
    closed: bool,
    released: bool,
)
    requires
        keep_subscribe || released,
    ensures
        call_outcome(keep_subscribe, true, true, wait_result(frames, closed), released) is Ok
            <==> first_status(frames) == Some(Status::Accepted),
        call_outcome(keep_subscribe, true, true, wait_result(frames, closed), released) is Err
            <==> first_status(frames) == Some(Status::Refused) || first_status(frames) is None,
        first_status(frames) == Some(Status::Refused) ==> call_outcome(
            keep_subscribe,
            true,
            true,
            wait_result(frames, closed),
            released,
        ) == Err::<(), CommandError>(CommandError::Refused),
        first_status(frames) is None ==> call_outcome(
            keep_subscribe,
            true,
            true,
            wait_result(frames, closed),
            released,
        ) == Err::<(), CommandError>(
            if closed {
                CommandError::Closed
            } else {
                CommandError::Timeout
            },
        ),
{
}

/// A refusal to end the subscription never replaces an earlier failure, and
/// is the outcome where there was none.
pub proof fn law_release_never_overrides(
    subscribed: bool,
    sent: bool,
    waited: Waited,
    released: bool,
)
    ensures
        call_outcome(false, subscribed, sent, waited, true) is Err ==> call_outcome(
            false,
            subscribed,
            sent,
            waited,
            released,
        ) == call_outcome(false, subscribed, sent, waited, true),
        call_outcome(false, subscribed, sent, waited, true) is Ok && !released ==> call_outcome(
            false,
            subscribed,
            sent,
            waited,
            released,
        ) == Err::<(), CommandError>(CommandError::Unsubscribe),
{
}

/// The machine computes the outcome of the call: run over the events of a
/// call from its first stage, it ends in `Done` with that outcome.
pub proof fn law_machine_computes_outcome(
    keep_subscribe: bool,
    cleared: bool,
    subscribed: bool,
    sent: bool,
    waited: Waited,
    released: bool,
)
    ensures
        stage_after(
            Stage::Clearing,
            keep_subscribe,
            call_events(keep_subscribe, cleared, subscribed, sent, waited, released),
        ) == Stage::Done(call_outcome(keep_subscribe, subscribed, sent, waited, released)),
{
    reveal_with_fuel(stage_after, 6);
    let events = call_events(keep_subscribe, cleared, subscribed, sent, waited, released);
    let s1 = next_stage(Stage::Clearing, keep_subscribe, events[0]);
    assert(events.skip(1)[0] == events[1]);
    if events.len() > 2 {
        assert(events.skip(1).skip(1)[0] == events[2]);
    }
    if events.len() > 3 {
        assert(events.skip(1).skip(1).skip(1)[0] == events[3]);
    }
    if events.len() > 4 {
        assert(events.skip(1).skip(1).skip(1).skip(1)[0] == events[4]);
    }
}

/// A call has one outcome: once the machine is in `Done`, no event moves it,
/// and the outcome stays.
pub proof fn law_done_is_final(
    outcome: Result<(), CommandError>,
    keep_subscribe: bool,
    events: Seq<Event>,
)
    ensures
        stage_after(Stage::Done(outcome), keep_subscribe, events) == Stage::Done(outcome),
    decreases events.len(),
{
    if events.len() > 0 {
        law_done_is_final(outcome, keep_subscribe, events.skip(1));
    }
}

} // verus!
