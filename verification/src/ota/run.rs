//! The run of a whole transfer: what to do after each step, when to retry
//! and when to give up.
//!
//! The caller owns the link and the clock. It hands the run what the link did
//! and how long the state has stood still, and the run answers with a
//! directive.

use vstd::prelude::*;
use crate::ota::model::SessionView;
use crate::ota::sample::{DFUState, McuDfuState, OtaError, Plan, SampleOta};

verus! {

/// Number of retries that a run starts with, unless it is told otherwise.
pub const DFU_RETRY_BUDGET: u32 = 3;

/// Milliseconds that the state may stand still before the watchdog ends the
/// run, unless the run is told otherwise.
pub const DFU_STALL_CEILING_MS: u64 = 60000;

/// Milliseconds to rest between two steps.
pub const DFU_POLL_MS: u64 = 5;

/// What the caller is to do after a step.
#[derive(Debug, Clone, Copy, PartialEq, Eq)]
pub enum Directive {
    /// Go on with the next step. A progress value, if there is one, is to be
    /// shown; the watchdog starts anew where the state has changed.
    Continue { progress: Option<u32>, restart_watchdog: bool },
    /// A write failed and a retry was left: carry out the actions of a
    /// reconnect and tell the run how that went.
    Reconnect,
    /// The device has reported the end: show the progress value and stop.
    Succeed { percent: u32 },
    /// The transfer has failed for good: report the error and stop.
    Fail(OtaError),
    /// The run was over before this call: there is nothing to do.
    Over,
}

/// One action on the link in the course of a reconnect.
#[derive(Debug, Clone, Copy, PartialEq, Eq, Structural)]
pub enum LinkStep {
    /// End the subscription.
    Unsubscribe,
    /// Bring the link down.
    Deactivate,
    /// Bring the link up, which makes a fresh connection.
    Activate,
    /// Subscribe the listener of the phases again.
    Subscribe,
}

/// The actions of a reconnect, in order: the subscription is ended first
/// where the link is up, then the link is brought down and up again, then
/// the listener is subscribed again.
pub open spec fn reconnect_steps(active: bool) -> Seq<LinkStep> {
    if active {
        seq![LinkStep::Unsubscribe, LinkStep::Deactivate, LinkStep::Activate, LinkStep::Subscribe]
    } else {
        seq![LinkStep::Deactivate, LinkStep::Activate, LinkStep::Subscribe]
    }
}

/// Whether a reconnect has failed once the link refused `step`: it has on
/// every action but the end of the subscription, whose refusal is passed
/// over.
pub open spec fn step_is_needed(step: LinkStep) -> bool {
    step != LinkStep::Unsubscribe
}

impl LinkStep {
    /// Says whether a refusal of this action ends the reconnect.
    pub fn is_needed(self) -> (needed: bool)
        ensures
            needed == step_is_needed(self),
    {
        match self {
            LinkStep::Unsubscribe => false,
            _ => true,
        }
    }
}

/// Lists the actions of a reconnect, in order, given whether the link is up.
pub fn reconnect_plan(active: bool) -> (steps: Vec<LinkStep>)
    ensures
        steps@ == reconnect_steps(active),
{
    let mut steps: Vec<LinkStep> = Vec::new();
    if active {
        steps.push(LinkStep::Unsubscribe);
    }
    steps.push(LinkStep::Deactivate);
    steps.push(LinkStep::Activate);
    steps.push(LinkStep::Subscribe);
    assert(steps@ =~= reconnect_steps(active));
    steps
}

/// What happens to a run.
pub enum RunEvent {
    /// A step was taken on `target`, the link took the first `sent` frames of
    /// its plan, and the state had stood still for `idle_ms` milliseconds.
    Stepped { target: McuDfuState, sent: nat, idle_ms: nat },
    /// The link was brought up again, or could not be.
    Reconnected { ok: bool },
}

/// The progress value that a directive carries, if any.
pub open spec fn shown(directive: Directive) -> Option<nat> {
    match directive {
        Directive::Continue { progress: Some(percent), .. } => Some(percent as nat),
        Directive::Succeed { percent } => Some(percent as nat),
        _ => None,
    }
}

/// A run as a mathematical value.
pub struct RunView {
    /// The session that the run drives.
    pub session: SessionView,
    /// Number of retries that are left.
    pub retries_left: nat,
    /// Milliseconds that the state may stand still.
    pub stall_ceiling_ms: nat,
    /// The run has ended, well or badly.
    pub over: bool,
}

impl RunView {
    /// What holds of every run: its session is sound.
    pub open spec fn wf(self) -> bool {
        self.session.wf()
    }

    /// A run at the start of the handshake.
    pub open spec fn initial(image: Seq<u8>, mtu: nat, retries: nat, ceiling_ms: nat) -> RunView {
        RunView {
            session: SessionView::initial(image, mtu),
            retries_left: retries,
            stall_ceiling_ms: ceiling_ms,
            over: false,
        }
    }

    /// The frames that the next step on `target` puts on the wire: those of
    /// the session, and none once the run is over.
    pub open spec fn frames(self, target: McuDfuState) -> Seq<Seq<u8>> {
        if self.over {
            Seq::empty()
        } else {
            self.session.frames(target)
        }
    }

    /// Milliseconds to rest once the frames are out.
    pub open spec fn pause_ms(self, target: McuDfuState) -> nat {
        if self.over {
            0
        } else {
            self.session.pause_ms(target)
        }
    }

    /// The watchdog strikes: the step changed no state, and the state has
    /// stood still for longer than the ceiling.
    pub open spec fn stalled(self, changed: bool, idle_ms: nat) -> bool {
        !changed && idle_ms > self.stall_ceiling_ms
    }

    /// The directive after a step.
    ///
    /// A fault of the device ends the run whatever retries are left. Any
    /// other failed write asks for a reconnect while a retry is left, and
    /// ends the run with `RetryExhausted` when none is. After a step that
    /// went through, the watchdog is asked first; then the run succeeds
    /// where the device has reported the end, and goes on otherwise.
    pub open spec fn step_directive(
        self,
        target: McuDfuState,
        sent: nat,
        idle_ms: nat,
    ) -> Directive {
        let next = self.session.after(target, sent);
        match self.session.outcome(target, sent) {
            Err(OtaError::DeviceFault) => Directive::Fail(OtaError::DeviceFault),
            Err(_) => if self.retries_left > 0 {
                Directive::Reconnect
            } else {
                Directive::Fail(OtaError::RetryExhausted)
            },
            Ok((changed, progress)) => if self.stalled(changed, idle_ms) {
                Directive::Fail(OtaError::Stalled)
            } else if next.state == DFUState::Complete && next.mcu_state == McuDfuState::Final {
                Directive::Succeed { percent: next.progress() as u32 }
            } else {
                Directive::Continue {
                    progress: if progress {
                        Some(next.progress() as u32)
                    } else {
                        None
                    },
                    restart_watchdog: changed,
                }
            },
        }
    }

    /// The directive that an event is answered with.
    pub open spec fn directive(self, event: RunEvent) -> Directive {
        if self.over {
            Directive::Over
        } else {
            match event {
                RunEvent::Stepped { target, sent, idle_ms } => self.step_directive(
                    target,
                    sent,
                    idle_ms,
                ),
                RunEvent::Reconnected { ok } => if ok {
                    Directive::Continue { progress: None, restart_watchdog: false }
                } else {
                    Directive::Fail(OtaError::ReconnectFailed)
                },
            }
        }
    }

    /// The run after an event. A run that is over stays as it is. A step
    /// moves the session; a reconnect takes one retry; success and failure
    /// end the run.
    pub open spec fn after(self, event: RunEvent) -> RunView {
        if self.over {
            self
        } else {
            let directive = self.directive(event);
            RunView {
                session: match event {
                    RunEvent::Stepped { target, sent, .. } => self.session.after(target, sent),
                    RunEvent::Reconnected { .. } => self.session,
                },
                retries_left: if directive is Reconnect {
                    (self.retries_left - 1) as nat
                } else {
                    self.retries_left
                },
                stall_ceiling_ms: self.stall_ceiling_ms,
                over: directive is Fail || directive is Succeed,
            }
        }
    }

    /// The directives that a row of events is answered with, in order.
    pub open spec fn directives(self, events: Seq<RunEvent>) -> Seq<Directive>
        decreases events.len(),
    {
        if events.len() == 0 {
            Seq::empty()
        } else {
            seq![self.directive(events[0])] + self.after(events[0]).directives(events.skip(1))
        }
    }
}

/// The run of one transfer: its session, the retries that are left, and the
/// watchdog's ceiling.
#[derive(Debug)]
pub struct OtaRun {
    session: SampleOta,
    retries_left: u32,
    stall_ceiling_ms: u64,
    over: bool,
}

impl View for OtaRun {
    type V = RunView;

    closed spec fn view(&self) -> RunView {
        RunView {
            session: self.session@,
            retries_left: self.retries_left as nat,
            stall_ceiling_ms: self.stall_ceiling_ms as nat,
            over: self.over,
        }
    }
}

impl OtaRun {
    /// Opens a run at the start of the handshake, with `retries` retries and
    /// a watchdog that lets the state stand still for `stall_ceiling_ms`
    /// milliseconds. It is refused where the session is.
    pub fn new(image: Vec<u8>, mtu: usize, retries: u32, stall_ceiling_ms: u64) -> (made: Result<
        OtaRun,
        OtaError,
    >)
        ensures
            made matches Ok(run) ==> run@ == RunView::initial(
                image@,
                mtu as nat,
                retries as nat,
                stall_ceiling_ms as nat,
            ) && run@.wf(),
            made matches Err(error) ==> crate::ota::sample::session_refusal(
                image@.len(),
                mtu as nat,
            ) == Some(error),
            made is Ok <==> crate::ota::sample::session_refusal(image@.len(), mtu as nat) is None,
    {
        match SampleOta::new(image, mtu) {
            Ok(session) => Ok(OtaRun { session, retries_left: retries, stall_ceiling_ms, over: false }),
            Err(error) => Err(error),
        }
    }

    /// The session that the run drives.
    pub fn session(&self) -> (session: &SampleOta)
        ensures
            session@ == self@.session,
    {
        &self.session
    }

    /// Number of retries that are left.
    pub fn retries_left(&self) -> (left: u32)
        ensures
            left == self@.retries_left,
    {
        self.retries_left
    }

    /// Milliseconds that the state may stand still.
    pub fn stall_ceiling_ms(&self) -> (ceiling: u64)
        ensures
            ceiling == self@.stall_ceiling_ms,
    {
        self.stall_ceiling_ms
    }

    /// Whether the run has ended.
    pub fn is_over(&self) -> (over: bool)
        ensures
            over == self@.over,
    {
        self.over
    }

    /// Settles what the next step on `target` puts on the wire: what the
    /// session plans, and nothing once the run is over.
    pub fn plan(&self, target: McuDfuState) -> (plan: Plan)
        ensures
            plan.wire() == self@.frames(target),
            plan.pause_ms == self@.pause_ms(target),
    {
        if self.over {
            let plan = Plan { frames: Vec::new(), pause_ms: 0 };
            assert(plan.wire() =~= self@.frames(target));
            plan
        } else {
            self.session.plan(target)
        }
    }

    /// Takes a step on `target`, given that the link took the first `sent`
    /// frames of the plan and that the state has stood still for `idle_ms`
    /// milliseconds, and says what to do next.
    pub fn advance(&mut self, target: McuDfuState, sent: usize, idle_ms: u64) -> (directive:
        Directive)
        ensures
            directive == old(self)@.directive(
                RunEvent::Stepped { target, sent: sent as nat, idle_ms: idle_ms as nat },
            ),
            final(self)@ == old(self)@.after(
                RunEvent::Stepped { target, sent: sent as nat, idle_ms: idle_ms as nat },
            ),
            final(self)@.wf(),
    {
        proof {
            use_type_invariant(&self.session);
        }
        if self.over {
            return Directive::Over;
        }
        let result: Result<(bool, bool), OtaError> = self.session.ota_process(target, sent);
        match result {
            Err(OtaError::DeviceFault) => {
                self.over = true;
                Directive::Fail(OtaError::DeviceFault)
            },
            Err(_) => {
                if self.retries_left > 0 {
                    self.retries_left = self.retries_left - 1;
                    Directive::Reconnect
                } else {
                    self.over = true;
                    Directive::Fail(OtaError::RetryExhausted)
                }
            },
            Ok((changed, progress)) => {
                if !changed && idle_ms > self.stall_ceiling_ms {
                    self.over = true;
                    Directive::Fail(OtaError::Stalled)
                } else if self.session.state() == DFUState::Complete && self.session.mcu_state()
                    == McuDfuState::Final {
                    self.over = true;
                    Directive::Succeed { percent: self.session.progress_percentage() }
                } else {
                    let shown: Option<u32> = if progress {
                        Some(self.session.progress_percentage())
                    } else {
                        None
                    };
                    Directive::Continue { progress: shown, restart_watchdog: changed }
                }
            },
        }
    }

    /// Takes note of how a reconnect went: `ok` says that the link refused
    /// none of the actions that are needed. A link that came up lets the run
    /// go on where it stood; one that did not ends the run.
    pub fn reconnected(&mut self, ok: bool) -> (directive: Directive)
        ensures
            directive == old(self)@.directive(RunEvent::Reconnected { ok }),
            final(self)@ == old(self)@.after(RunEvent::Reconnected { ok }),
            final(self)@.wf(),
    {
        proof {
            use_type_invariant(&self.session);
        }
        if self.over {
            return Directive::Over;
        }
        if ok {
            Directive::Continue { progress: None, restart_watchdog: false }
        } else {
            self.over = true;
            Directive::Fail(OtaError::ReconnectFailed)
        }
    }
}

} // verus!
