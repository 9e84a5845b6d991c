//! The escalation that ends one process.
//!
//! Termination is destructive, so the rule is: try the gentlest step, verify the
//! outcome, escalate only when forced, and never claim success without proof. A
//! kill counts as a success only once the process has been seen to be gone from
//! the port; on a shared port, a sibling that still listens does not matter. A
//! process that holds several ports is sent each signal once: at its next port the
//! attempt goes on where it stood.
//!
//! An [`Escalation`] performs nothing itself. It says what is to be done next
//! (send a signal, look at the port, read the clock, wait) and is told how that
//! went.

use vstd::prelude::*;
use vstd::string::StringExecFns;

use crate::error::{AppError, AppErrorView};
use crate::process::ProcessInfo;
use crate::text::{dec, decimal};

pub mod laws;
pub mod signal;

use crate::kill::signal::{sent_view, Signal};

verus! {

/// The times of an escalation, in milliseconds.
#[derive(Debug, Clone, Copy, PartialEq, Eq, Structural)]
pub struct KillConfig {
    /// How long to wait between two looks at the port.
    pub poll_interval: u64,
    /// How long a process has to go after `SIGTERM`, before `SIGKILL` follows.
    pub grace_timeout: u64,
    /// How long a process has to go after `SIGKILL`.
    pub final_verify: u64,
}

impl Default for KillConfig {
    fn default() -> (r: KillConfig)
        ensures
            r == (KillConfig { poll_interval: 100, grace_timeout: 2000, final_verify: 1000 }),
    {
        KillConfig { poll_interval: 100, grace_timeout: 2000, final_verify: 1000 }
    }
}

/// How the attempt to end one process went.
#[derive(Debug, Clone, PartialEq, Eq)]
pub enum KillOutcome {
    /// The process went after `SIGTERM`.
    GracefulSuccess { port: u16, pid: u32 },
    /// The process went after `SIGKILL`.
    ForcefulSuccess { port: u16, pid: u32 },
    /// The process was signalled but did not leave the port.
    Failed { port: u16, pid: u32, reason: String },
}

/// What a [`KillOutcome`] says, as mathematical text.
#[verifier::ext_equal]
pub enum KillOutcomeView {
    GracefulSuccess { port: u16, pid: u32 },
    ForcefulSuccess { port: u16, pid: u32 },
    Failed { port: u16, pid: u32, reason: Seq<char> },
}

impl View for KillOutcome {
    type V = KillOutcomeView;

    open spec fn view(&self) -> KillOutcomeView {
        match self {
            KillOutcome::GracefulSuccess { port, pid } => KillOutcomeView::GracefulSuccess {
                port: *port,
                pid: *pid,
            },
            KillOutcome::ForcefulSuccess { port, pid } => KillOutcomeView::ForcefulSuccess {
                port: *port,
                pid: *pid,
            },
            KillOutcome::Failed { port, pid, reason } => KillOutcomeView::Failed {
                port: *port,
                pid: *pid,
                reason: reason@,
            },
        }
    }
}

impl KillOutcomeView {
    /// Whether the process was seen to be gone from the port.
    pub open spec fn success(self) -> bool {
        self is GracefulSuccess || self is ForcefulSuccess
    }
}

impl KillOutcome {
    /// Whether the process was seen to be gone from the port.
    pub fn is_success(&self) -> (r: bool)
        ensures
            r == self@.success(),
    {
        matches!(self, KillOutcome::GracefulSuccess { .. } | KillOutcome::ForcefulSuccess { .. })
    }
}

/// Where an escalation stands.
#[derive(Debug, PartialEq, Eq)]
pub enum Stage {
    /// The process has been sent the signal in an attempt at another port: the time
    /// that it has for this port begins.
    Starting(Signal),
    /// The signal is to be sent.
    Signalling(Signal),
    /// After the signal, the port is to be looked at.
    Probing(Signal),
    /// After the signal, the process was not seen to be gone: the time that has
    /// passed decides.
    Timing(Signal),
    /// After the signal, there is time left: wait before the next look.
    Pausing(Signal),
    /// It is over.
    Finished(Result<KillOutcome, AppError>),
}

/// Where an escalation stands, as mathematical text.
#[verifier::ext_equal]
pub enum StageView {
    Starting(Signal),
    Signalling(Signal),
    Probing(Signal),
    Timing(Signal),
    Pausing(Signal),
    Finished(Result<KillOutcomeView, AppErrorView>),
}

/// How an attempt ended, as mathematical text.
pub open spec fn result_view(result: Result<KillOutcome, AppError>) -> Result<
    KillOutcomeView,
    AppErrorView,
> {
    match result {
        Ok(outcome) => Ok(outcome@),
        Err(e) => Err(e@),
    }
}

impl View for Stage {
    type V = StageView;

    open spec fn view(&self) -> StageView {
        match self {
            Stage::Starting(signal) => StageView::Starting(*signal),
            Stage::Signalling(signal) => StageView::Signalling(*signal),
            Stage::Probing(signal) => StageView::Probing(*signal),
            Stage::Timing(signal) => StageView::Timing(*signal),
            Stage::Pausing(signal) => StageView::Pausing(*signal),
            Stage::Finished(result) => StageView::Finished(result_view(*result)),
        }
    }
}

/// What an escalation wants done next.
#[derive(Debug, Clone, Copy, PartialEq, Eq, Structural)]
pub enum KillRequest {
    /// Send the signal to the process.
    Send { pid: u32, signal: Signal },
    /// See whether the process is gone from the port.
    Probe { port: u16, pid: u32 },
    /// Begin to count time.
    StartClock,
    /// Read how many whole milliseconds have passed since the last signal was sent, or
    /// since time was last begun to be counted, whichever was later.
    Elapsed,
    /// Wait for so many milliseconds.
    Pause { millis: u64 },
}

/// How a request went.
#[derive(Debug, PartialEq, Eq)]
pub enum KillReply {
    /// How the signal was taken.
    Sent(Result<(), AppError>),
    /// Whether the process is gone from the port.
    Probed(Result<bool, AppError>),
    /// Time is being counted.
    ClockStarted,
    /// The milliseconds that have passed.
    Elapsed(u64),
    /// The wait is over.
    Paused,
}

/// How a request went, as mathematical text.
#[verifier::ext_equal]
pub enum KillReplyView {
    Sent(Result<(), AppErrorView>),
    Probed(Result<bool, AppErrorView>),
    ClockStarted,
    Elapsed(u64),
    Paused,
}

/// The answer of a look at the port, as mathematical text.
pub open spec fn probed_view(r: Result<bool, AppError>) -> Result<bool, AppErrorView> {
    match r {
        Ok(gone) => Ok(gone),
        Err(e) => Err(e@),
    }
}

impl View for KillReply {
    type V = KillReplyView;

    open spec fn view(&self) -> KillReplyView {
        match self {
            KillReply::Sent(r) => KillReplyView::Sent(sent_view(*r)),
            KillReply::Probed(r) => KillReplyView::Probed(probed_view(*r)),
            KillReply::ClockStarted => KillReplyView::ClockStarted,
            KillReply::Elapsed(millis) => KillReplyView::Elapsed(*millis),
            KillReply::Paused => KillReplyView::Paused,
        }
    }
}

/// One attempt to end one process that occupies a port.
#[derive(Debug, PartialEq, Eq)]
pub struct Escalation {
    pub port: u16,
    pub pid: u32,
    /// Whether to start with `SIGKILL`.
    pub force: bool,
    pub cfg: KillConfig,
    pub stage: Stage,
}

/// One attempt to end one process, as mathematical text.
#[verifier::ext_equal]
pub struct EscalationView {
    pub port: u16,
    pub pid: u32,
    pub force: bool,
    pub cfg: KillConfig,
    pub stage: StageView,
}

impl View for Escalation {
    type V = EscalationView;

    open spec fn view(&self) -> EscalationView {
        EscalationView {
            port: self.port,
            pid: self.pid,
            force: self.force,
            cfg: self.cfg,
            stage: self.stage@,
        }
    }
}

/// Why a process counts as not ended, although it was signalled.
pub open spec fn stuck(port: u16, pid: u32, force: bool) -> Seq<char> {
    "PID "@ + dec(pid as nat) + " still bound to port "@ + dec(port as nat) + if force {
        " after SIGKILL (zombie/stuck or restarted)"@
    } else {
        " after SIGTERM→SIGKILL (zombie/stuck or restarted)"@
    }
}

impl EscalationView {
    /// The attempt before anything was done.
    pub open spec fn start(port: u16, pid: u32, force: bool, cfg: KillConfig) -> EscalationView {
        EscalationView {
            port,
            pid,
            force,
            cfg,
            stage: StageView::Signalling(
                if force {
                    Signal::Kill
                } else {
                    Signal::Terminate
                },
            ),
        }
    }

    /// The attempt at one more port of a process that `signal` was the last to reach:
    /// what was sent is not sent again.
    pub open spec fn resume(
        port: u16,
        pid: u32,
        force: bool,
        cfg: KillConfig,
        signal: Signal,
    ) -> EscalationView {
        EscalationView { port, pid, force, cfg, stage: StageView::Starting(signal) }
    }

    /// The last signal that reached the process, until the attempt is over.
    pub open spec fn delivered(self) -> Option<Signal> {
        match self.stage {
            StageView::Starting(signal) => Some(signal),
            StageView::Signalling(Signal::Kill) => if self.force {
                None
            } else {
                Some(Signal::Terminate)
            },
            StageView::Signalling(Signal::Terminate) => None,
            StageView::Probing(signal) => Some(signal),
            StageView::Timing(signal) => Some(signal),
            StageView::Pausing(signal) => Some(signal),
            StageView::Finished(_) => None,
        }
    }

    /// The time that a process has after `signal`.
    pub open spec fn timeout(self, signal: Signal) -> u64 {
        match signal {
            Signal::Terminate => self.cfg.grace_timeout,
            Signal::Kill => self.cfg.final_verify,
        }
    }

    /// What is to be done next; nothing once it is over.
    pub open spec fn request(self) -> Option<KillRequest> {
        match self.stage {
            StageView::Starting(_) => Some(KillRequest::StartClock),
            StageView::Signalling(signal) => Some(KillRequest::Send { pid: self.pid, signal }),
            StageView::Probing(_) => Some(KillRequest::Probe { port: self.port, pid: self.pid }),
            StageView::Timing(_) => Some(KillRequest::Elapsed),
            StageView::Pausing(_) => Some(KillRequest::Pause { millis: self.cfg.poll_interval }),
            StageView::Finished(_) => None,
        }
    }

    /// What the attempt comes to when the process has been seen to be gone after
    /// `signal`.
    pub open spec fn success(self, signal: Signal) -> KillOutcomeView {
        match signal {
            Signal::Terminate => KillOutcomeView::GracefulSuccess {
                port: self.port,
                pid: self.pid,
            },
            Signal::Kill => KillOutcomeView::ForcefulSuccess { port: self.port, pid: self.pid },
        }
    }

    /// Where the attempt stands when the time after `signal` has run out.
    pub open spec fn expired(self, signal: Signal) -> StageView {
        match signal {
            Signal::Terminate => StageView::Signalling(Signal::Kill),
            Signal::Kill => StageView::Finished(
                Ok(
                    KillOutcomeView::Failed {
                        port: self.port,
                        pid: self.pid,
                        reason: stuck(self.port, self.pid, self.force),
                    },
                ),
            ),
        }
    }

    /// Where the attempt stands after `reply`. A reply to something that was not
    /// asked changes nothing.
    pub open spec fn next_stage(self, reply: KillReplyView) -> StageView {
        match (self.stage, reply) {
            (StageView::Starting(signal), KillReplyView::ClockStarted) => StageView::Probing(
                signal,
            ),
            (StageView::Signalling(signal), KillReplyView::Sent(Ok(()))) => StageView::Probing(
                signal,
            ),
            (StageView::Signalling(_), KillReplyView::Sent(Err(e))) => StageView::Finished(Err(e)),
            // Only a process that was seen to be gone is gone: a look that fails
            // counts as "still there".
            (StageView::Probing(signal), KillReplyView::Probed(gone)) => if gone
                == Ok::<bool, AppErrorView>(true) {
                StageView::Finished(Ok(self.success(signal)))
            } else {
                StageView::Timing(signal)
            },
            (StageView::Timing(signal), KillReplyView::Elapsed(millis)) => if millis
                >= self.timeout(signal) {
                self.expired(signal)
            } else {
                StageView::Pausing(signal)
            },
            (StageView::Pausing(signal), KillReplyView::Paused) => StageView::Probing(signal),
            _ => self.stage,
        }
    }

    /// The attempt after `reply`.
    pub open spec fn step(self, reply: KillReplyView) -> EscalationView {
        EscalationView { stage: self.next_stage(reply), ..self }
    }

    /// The attempt after a series of replies.
    pub open spec fn after(self, replies: Seq<KillReplyView>) -> EscalationView
        decreases replies.len(),
    {
        if replies.len() == 0 {
            self
        } else {
            self.after(replies.drop_last()).step(replies.last())
        }
    }

    /// The attempt as it stood when the reply at `i` came.
    pub open spec fn at(self, replies: Seq<KillReplyView>, i: int) -> EscalationView {
        self.after(replies.take(i))
    }

    /// Whether the reply at `i` says that `signal` was delivered.
    pub open spec fn delivered_at(
        self,
        replies: Seq<KillReplyView>,
        i: int,
        signal: Signal,
    ) -> bool {
        &&& 0 <= i < replies.len()
        &&& self.at(replies, i).stage == StageView::Signalling(signal)
        &&& replies[i] matches KillReplyView::Sent(Ok(_))
    }

    /// Whether the reply at `i` says that a signal could not be delivered, and why.
    pub open spec fn refused_at(
        self,
        replies: Seq<KillReplyView>,
        i: int,
        error: AppErrorView,
    ) -> bool {
        &&& 0 <= i < replies.len()
        &&& self.at(replies, i).stage is Signalling
        &&& replies[i] == KillReplyView::Sent(Err(error))
    }

    /// Whether the reply at `i` is one to a look at the port, and says that the
    /// process is gone.
    pub open spec fn seen_gone_at(self, replies: Seq<KillReplyView>, i: int) -> bool {
        &&& 0 <= i < replies.len()
        &&& self.at(replies, i).request() == Some(
            KillRequest::Probe { port: self.port, pid: self.pid },
        )
        &&& replies[i] == KillReplyView::Probed(Ok(true))
    }

    /// Whether the reply at `i` says that the time after `signal` has run out.
    pub open spec fn expired_at(
        self,
        replies: Seq<KillReplyView>,
        i: int,
        signal: Signal,
    ) -> bool {
        &&& 0 <= i < replies.len()
        &&& self.at(replies, i).stage == StageView::Timing(signal)
        &&& replies[i] matches KillReplyView::Elapsed(millis) && millis >= self.timeout(signal)
    }

    /// The signals that were sent in the course of a series of replies, each with
    /// the process that it was sent to.
    pub open spec fn signals(self, replies: Seq<KillReplyView>) -> Seq<(u32, Signal)>
        decreases replies.len(),
    {
        if replies.len() == 0 {
            Seq::empty()
        } else {
            let before = self.signals(replies.drop_last());
            match (self.after(replies.drop_last()).request(), replies.last()) {
                (
                    Some(KillRequest::Send { pid, signal }),
                    KillReplyView::Sent(_),
                ) => before.push((pid, signal)),
                _ => before,
            }
        }
    }
}

/// Start to end the process that occupies `port`: with `SIGKILL` if `force`, else
/// with `SIGTERM`.
pub fn terminate_one(port: u16, process: &ProcessInfo, force: bool, cfg: &KillConfig) -> (r:
    Escalation)
    ensures
        r@ == EscalationView::start(port, process.pid, force, *cfg),
{
    let signal = if force {
        Signal::Kill
    } else {
        Signal::Terminate
    };
    Escalation {
        port,
        pid: process.pid,
        force,
        cfg: *cfg,
        stage: Stage::Signalling(signal),
    }
}

/// Start to end a process at one more port that it occupies, when `signal` was the last
/// to reach it: what was sent is not sent again.
pub fn resume_one(
    port: u16,
    process: &ProcessInfo,
    force: bool,
    cfg: &KillConfig,
    signal: Signal,
) -> (r: Escalation)
    ensures
        r@ == EscalationView::resume(port, process.pid, force, *cfg, signal),
{
    Escalation { port, pid: process.pid, force, cfg: *cfg, stage: Stage::Starting(signal) }
}

impl Escalation {
    /// What is to be done next; nothing once it is over.
    pub fn request(&self) -> (r: Option<KillRequest>)
        ensures
            r == self@.request(),
    {
        match &self.stage {
            Stage::Starting(_) => Some(KillRequest::StartClock),
            Stage::Signalling(signal) => Some(
                KillRequest::Send { pid: self.pid, signal: *signal },
            ),
            Stage::Probing(_) => Some(KillRequest::Probe { port: self.port, pid: self.pid }),
            Stage::Timing(_) => Some(KillRequest::Elapsed),
            Stage::Pausing(_) => Some(KillRequest::Pause { millis: self.cfg.poll_interval }),
            Stage::Finished(_) => None,
        }
    }

    /// The last signal that reached the process, until the attempt is over.
    pub fn delivered(&self) -> (r: Option<Signal>)
        ensures
            r == self@.delivered(),
    {
        match &self.stage {
            Stage::Starting(signal) => Some(*signal),
            Stage::Signalling(Signal::Kill) => if self.force {
                None
            } else {
                Some(Signal::Terminate)
            },
            Stage::Signalling(Signal::Terminate) => None,
            Stage::Probing(signal) => Some(*signal),
            Stage::Timing(signal) => Some(*signal),
            Stage::Pausing(signal) => Some(*signal),
            Stage::Finished(_) => None,
        }
    }

    /// Why the process counts as not ended.
    fn stuck(&self) -> (out: String)
        ensures
            out@ == stuck(self.port, self.pid, self.force),
    {
        let mut out = String::new();
        out.append("PID ");
        out.append(decimal(self.pid as u64).as_str());
        out.append(" still bound to port ");
        out.append(decimal(self.port as u64).as_str());
        if self.force {
            out.append(" after SIGKILL (zombie/stuck or restarted)");
        } else {
            out.append(" after SIGTERM→SIGKILL (zombie/stuck or restarted)");
        }
        out
    }

    /// Where the attempt stands when the time after `signal` has run out.
    fn expired(&self, signal: Signal) -> (r: Stage)
        ensures
            r@ == self@.expired(signal),
    {
        match signal {
            Signal::Terminate => Stage::Signalling(Signal::Kill),
            Signal::Kill => Stage::Finished(
                Ok(KillOutcome::Failed { port: self.port, pid: self.pid, reason: self.stuck() }),
            ),
        }
    }

    /// The attempt after `reply`.
    pub fn advance(self, reply: KillReply) -> (r: Escalation)
        ensures
            r@ == self@.step(reply@),
    {
        let mut this = self;
        let stage = match (&this.stage, reply) {
            (Stage::Starting(signal), KillReply::ClockStarted) => Stage::Probing(*signal),
            (Stage::Signalling(signal), KillReply::Sent(Ok(()))) => Stage::Probing(*signal),
            (Stage::Signalling(_), KillReply::Sent(Err(e))) => Stage::Finished(Err(e)),
            (Stage::Probing(signal), KillReply::Probed(gone)) => match (gone, *signal) {
                (Ok(true), Signal::Terminate) => Stage::Finished(
                    Ok(KillOutcome::GracefulSuccess { port: this.port, pid: this.pid }),
                ),
                (Ok(true), Signal::Kill) => Stage::Finished(
                    Ok(KillOutcome::ForcefulSuccess { port: this.port, pid: this.pid }),
                ),
                (_, signal) => Stage::Timing(signal),
            },
            (Stage::Timing(signal), KillReply::Elapsed(millis)) => {
                let timeout: u64 = match *signal {
                    Signal::Terminate => this.cfg.grace_timeout,
                    Signal::Kill => this.cfg.final_verify,
                };
                if millis >= timeout {
                    this.expired(*signal)
                } else {
                    Stage::Pausing(*signal)
                }
            },
            (Stage::Pausing(signal), KillReply::Paused) => Stage::Probing(*signal),
            _ => {
                return this;
            },
        };
        this.stage = stage;
        this
    }
}

// ---------------------------------------------------------------------------
// Laws
// ---------------------------------------------------------------------------

/// The signals that an attempt has sent once `last` is the last of them.
pub open spec fn ladder(pid: u32, force: bool, last: Signal) -> Seq<(u32, Signal)> {
    if force || last == Signal::Terminate {
        seq![(pid, last)]
    } else {
        seq![(pid, Signal::Terminate), (pid, Signal::Kill)]
    }
}

/// What holds of the stage of an attempt and the signals that it has sent.
spec fn in_step(e: EscalationView, signals: Seq<(u32, Signal)>) -> bool {
    match e.stage {
        StageView::Starting(_) => false,
        StageView::Signalling(Signal::Terminate) => !e.force && signals == Seq::<
            (u32, Signal),
        >::empty(),
        StageView::Signalling(Signal::Kill) => signals == if e.force {
            Seq::<(u32, Signal)>::empty()
        } else {
            ladder(e.pid, false, Signal::Terminate)
        },
        StageView::Probing(signal) => {
            &&& e.force ==> signal == Signal::Kill
            &&& signals == ladder(e.pid, e.force, signal)
        },
        StageView::Timing(signal) => {
            &&& e.force ==> signal == Signal::Kill
            &&& signals == ladder(e.pid, e.force, signal)
        },
        StageView::Pausing(signal) => {
            &&& e.force ==> signal == Signal::Kill
            &&& signals == ladder(e.pid, e.force, signal)
        },
        StageView::Finished(Ok(outcome)) => match outcome {
            KillOutcomeView::GracefulSuccess { port, pid } => {
                &&& !e.force && port == e.port && pid == e.pid
                &&& signals == ladder(e.pid, false, Signal::Terminate)
            },
            KillOutcomeView::ForcefulSuccess { port, pid } => {
                &&& port == e.port && pid == e.pid
                &&& signals == ladder(e.pid, e.force, Signal::Kill)
            },
            KillOutcomeView::Failed { port, pid, reason } => {
                &&& port == e.port && pid == e.pid
                &&& reason == stuck(port, pid, e.force)
                &&& signals == ladder(e.pid, e.force, Signal::Kill)
            },
        },
        StageView::Finished(Err(_)) => {
            ||| !e.force && signals == ladder(e.pid, false, Signal::Terminate)
            ||| signals == ladder(e.pid, e.force, Signal::Kill)
        },
    }
}

proof fn lemma_in_step(e: EscalationView, replies: Seq<KillReplyView>)
    requires
        in_step(e, Seq::empty()),
    ensures
        in_step(e.after(replies), e.signals(replies)),
        e.after(replies) == (EscalationView { stage: e.after(replies).stage, ..e }),
    decreases replies.len(),
{
    if replies.len() > 0 {
        lemma_in_step(e, replies.drop_last());
        let before = e.signals(replies.drop_last());
        assert(Seq::<(u32, Signal)>::empty().push((e.pid, Signal::Kill)) =~= ladder(
            e.pid,
            true,
            Signal::Kill,
        ));
        assert(Seq::<(u32, Signal)>::empty().push((e.pid, Signal::Terminate)) =~= ladder(
            e.pid,
            false,
            Signal::Terminate,
        ));
        assert(ladder(e.pid, false, Signal::Terminate).push((e.pid, Signal::Kill)) =~= ladder(
            e.pid,
            false,
            Signal::Kill,
        ));
    }
}

proof fn lemma_at(e: EscalationView, replies: Seq<KillReplyView>)
    requires
        replies.len() > 0,
    ensures
        forall|i: int| 0 <= i < replies.len() ==> #[trigger] e.at(replies.drop_last(), i) == e.at(
            replies,
            i,
        ),
        e.at(replies, replies.len() - 1) == e.after(replies.drop_last()),
        e.after(replies) == e.at(replies, replies.len() - 1).step(replies.last()),
{
    assert forall|i: int| 0 <= i < replies.len() implies #[trigger] e.at(replies.drop_last(), i)
        == e.at(replies, i) by {
        assert(replies.drop_last().take(i) =~= replies.take(i));
    }
    assert(replies.take(replies.len() - 1) =~= replies.drop_last());
}

/// Whether `reply` is an answer to `request`.
pub open spec fn answers(request: KillRequest, reply: KillReplyView) -> bool {
    match request {
        KillRequest::Send { .. } => reply is Sent,
        KillRequest::Probe { .. } => reply is Probed,
        KillRequest::StartClock => reply is ClockStarted,
        KillRequest::Elapsed => reply is Elapsed,
        KillRequest::Pause { .. } => reply is Paused,
    }
}

/// An attempt moves on with every answer to what it asked, and with nothing else.
/// Once it is over it stays as it is.
pub proof fn law_progress(e: EscalationView, reply: KillReplyView)
    ensures
        e.step(reply) != e <==> (e.request() matches Some(request) && answers(request, reply)),
        e.request() is None <==> e.stage is Finished,
{
}

/// A forced attempt sends `SIGKILL`, at most once, and nothing else. Any other
/// attempt sends `SIGTERM`, at most once, and after it `SIGKILL`, at most once.
/// All of it goes to the one process.
pub proof fn law_signals(
    port: u16,
    pid: u32,
    force: bool,
    cfg: KillConfig,
    replies: Seq<KillReplyView>,
)
    ensures
        ({
            let signals = EscalationView::start(port, pid, force, cfg).signals(replies);
            ||| signals == Seq::<(u32, Signal)>::empty()
            ||| force && signals == seq![(pid, Signal::Kill)]
            ||| !force && signals == seq![(pid, Signal::Terminate)]
            ||| !force && signals == seq![(pid, Signal::Terminate), (pid, Signal::Kill)]
        }),
{
    lemma_in_step(EscalationView::start(port, pid, force, cfg), replies);
}

/// Without force, `SIGKILL` is asked for only when `SIGTERM` was delivered, the
/// grace period has run out since, and the process was never seen to be gone.
pub proof fn law_escalates_only_when_needed(
    port: u16,
    pid: u32,
    cfg: KillConfig,
    replies: Seq<KillReplyView>,
)
    requires
        EscalationView::start(port, pid, false, cfg).after(replies).request() == Some(
            KillRequest::Send { pid, signal: Signal::Kill },
        ),
    ensures
        ({
            let e = EscalationView::start(port, pid, false, cfg);
            &&& exists|i: int, j: int|
                i < j && #[trigger] e.delivered_at(replies, i, Signal::Terminate)
                    && #[trigger] e.expired_at(replies, j, Signal::Terminate)
            &&& forall|k: int| !e.seen_gone_at(replies, k)
        }),
{
    let e = EscalationView::start(port, pid, false, cfg);
    lemma_course(e, replies);
}

/// A success is claimed only after a look at the port in which this very process
/// was seen to be gone, and names the last signal that was sent before.
pub proof fn law_success_is_seen(
    port: u16,
    pid: u32,
    force: bool,
    cfg: KillConfig,
    replies: Seq<KillReplyView>,
    outcome: KillOutcomeView,
)
    requires
        EscalationView::start(port, pid, force, cfg).after(replies).stage == StageView::Finished(
            Ok(outcome),
        ),
        outcome.success(),
    ensures
        ({
            let e = EscalationView::start(port, pid, force, cfg);
            &&& exists|i: int| e.seen_gone_at(replies, i)
            &&& outcome == e.success(e.signals(replies).last().1)
            &&& e.signals(replies).len() > 0
        }),
{
    let e = EscalationView::start(port, pid, force, cfg);
    lemma_course(e, replies);
    lemma_in_step(e, replies);
}

/// A failure is reported only when `SIGKILL` was delivered, the time after it has
/// run out, and the process was never seen to be gone.
pub proof fn law_failure_is_exhausted(
    port: u16,
    pid: u32,
    force: bool,
    cfg: KillConfig,
    replies: Seq<KillReplyView>,
    outcome: KillOutcomeView,
)
    requires
        EscalationView::start(port, pid, force, cfg).after(replies).stage == StageView::Finished(
            Ok(outcome),
        ),
        outcome is Failed,
    ensures
        ({
            let e = EscalationView::start(port, pid, force, cfg);
            &&& exists|i: int, j: int|
                i < j && #[trigger] e.delivered_at(replies, i, Signal::Kill)
                    && #[trigger] e.expired_at(replies, j, Signal::Kill)
            &&& forall|k: int| !e.seen_gone_at(replies, k)
            &&& outcome == (KillOutcomeView::Failed {
                port,
                pid,
                reason: stuck(port, pid, force),
            })
        }),
{
    let e = EscalationView::start(port, pid, force, cfg);
    lemma_course(e, replies);
    lemma_in_step(e, replies);
}

/// An attempt ends in an error only when a signal could not be delivered, and
/// then in that very error.
pub proof fn law_error_is_delivery(
    port: u16,
    pid: u32,
    force: bool,
    cfg: KillConfig,
    replies: Seq<KillReplyView>,
    error: AppErrorView,
)
    requires
        EscalationView::start(port, pid, force, cfg).after(replies).stage == StageView::Finished(
            Err(error),
        ),
    ensures
        exists|i: int|
            EscalationView::start(port, pid, force, cfg).refused_at(replies, i, error),
{
    lemma_course(EscalationView::start(port, pid, force, cfg), replies);
}

/// Whether the time after `SIGTERM` has run out, and the process has not been seen to be
/// gone.
spec fn overdue(e: EscalationView, replies: Seq<KillReplyView>) -> bool {
    &&& exists|i: int| e.expired_at(replies, i, Signal::Terminate)
    &&& forall|k: int| !e.seen_gone_at(replies, k)
}

/// The attempt at one more port sends at most `SIGKILL`, at most once, and only if
/// `SIGTERM` was the last signal to reach the process, the time for it has run out,
/// counted from the beginning of this attempt, and the process has not been seen to be
/// gone from the port. It comes to a success only when this very process was seen to be
/// gone, to a failure only when the time after `SIGKILL` has run out and it never was,
/// and to an error only when `SIGKILL` could not be delivered.
pub proof fn law_resumes_where_it_stood(
    port: u16,
    pid: u32,
    force: bool,
    cfg: KillConfig,
    signal: Signal,
    replies: Seq<KillReplyView>,
)
    ensures
        ({
            let e = EscalationView::resume(port, pid, force, cfg, signal);
            let now = e.after(replies);
            &&& e.signals(replies) == Seq::<(u32, Signal)>::empty() || (signal == Signal::Terminate
                && e.signals(replies) == seq![(pid, Signal::Kill)] && exists|i: int|
                e.expired_at(replies, i, Signal::Terminate))
            &&& now.request() matches Some(KillRequest::Send { pid: to, signal: next }) ==> {
                &&& to == pid && next == Signal::Kill && signal == Signal::Terminate
                &&& e.signals(replies) == Seq::<(u32, Signal)>::empty()
                &&& exists|i: int| e.expired_at(replies, i, Signal::Terminate)
                &&& forall|k: int| !e.seen_gone_at(replies, k)
            }
            &&& now.stage matches StageView::Finished(Ok(outcome)) ==> if outcome.success() {
                exists|i: int| e.seen_gone_at(replies, i)
            } else {
                &&& outcome == (KillOutcomeView::Failed {
                    port,
                    pid,
                    reason: stuck(port, pid, force),
                })
                &&& exists|i: int| e.expired_at(replies, i, Signal::Kill)
                &&& forall|k: int| !e.seen_gone_at(replies, k)
            }
            &&& now.stage matches StageView::Finished(Err(error)) ==> exists|i: int|
                e.refused_at(replies, i, error)
        }),
{
    let e = EscalationView::resume(port, pid, force, cfg, signal);
    lemma_resumed(e, signal, replies);
    lemma_fixed(e, replies);
}

/// What brought an attempt at one more port to the stage at which it stands.
spec fn resumed(e: EscalationView, signal: Signal, replies: Seq<KillReplyView>) -> bool {
    let sent = e.signals(replies);
    let none = Seq::<(u32, Signal)>::empty();
    let one = seq![(e.pid, Signal::Kill)];
    match e.after(replies).stage {
        StageView::Starting(now) => {
            &&& now == signal && sent == none
            &&& forall|k: int| !e.seen_gone_at(replies, k)
        },
        StageView::Signalling(now) => {
            &&& now == Signal::Kill && signal == Signal::Terminate && sent == none
            &&& overdue(e, replies)
        },
        StageView::Probing(now) => still_there(e, signal, now, replies),
        StageView::Timing(now) => still_there(e, signal, now, replies),
        StageView::Pausing(now) => still_there(e, signal, now, replies),
        StageView::Finished(Ok(outcome)) => {
            &&& sent == none || signal == Signal::Terminate && sent == one && exists|i: int|
                e.expired_at(replies, i, Signal::Terminate)
            &&& if outcome.success() {
                exists|i: int| e.seen_gone_at(replies, i)
            } else {
                &&& outcome == (KillOutcomeView::Failed {
                    port: e.port,
                    pid: e.pid,
                    reason: stuck(e.port, e.pid, e.force),
                })
                &&& exists|i: int| e.expired_at(replies, i, Signal::Kill)
                &&& forall|k: int| !e.seen_gone_at(replies, k)
            }
        },
        StageView::Finished(Err(error)) => {
            &&& signal == Signal::Terminate && sent == one
            &&& exists|i: int| e.expired_at(replies, i, Signal::Terminate)
            &&& exists|i: int| e.refused_at(replies, i, error)
        },
    }
}

/// Whether the process was not seen to be gone after `now`, the last signal.
spec fn still_there(
    e: EscalationView,
    signal: Signal,
    now: Signal,
    replies: Seq<KillReplyView>,
) -> bool {
    let sent = e.signals(replies);
    &&& forall|k: int| !e.seen_gone_at(replies, k)
    &&& {
        ||| now == signal && sent == Seq::<(u32, Signal)>::empty()
        ||| now == Signal::Kill && signal == Signal::Terminate && sent == seq![
            (e.pid, Signal::Kill),
        ] && exists|i: int| e.expired_at(replies, i, Signal::Terminate)
    }
}

proof fn lemma_resumed(e: EscalationView, signal: Signal, replies: Seq<KillReplyView>)
    requires
        e.stage == StageView::Starting(signal),
    ensures
        resumed(e, signal, replies),
    decreases replies.len(),
{
    if replies.len() > 0 {
        let n = replies.len() - 1;
        let before = replies.drop_last();
        lemma_resumed(e, signal, before);
        lemma_at(e, replies);
        lemma_fixed(e, before);
        assert(Seq::<(u32, Signal)>::empty().push((e.pid, Signal::Kill)) =~= seq![
            (e.pid, Signal::Kill),
        ]);
        assert forall|i: int| 0 <= i < n implies #[trigger] e.seen_gone_at(replies, i)
            == e.seen_gone_at(before, i) by {
            assert(e.at(before, i) == e.at(replies, i));
        }
        assert forall|i: int| #[trigger] e.seen_gone_at(before, i) implies e.seen_gone_at(
            replies,
            i,
        ) by {}
        assert forall|i: int, signal: Signal| #[trigger]
            e.expired_at(before, i, signal) implies e.expired_at(replies, i, signal) by {
            assert(e.at(before, i) == e.at(replies, i));
        }
        assert forall|i: int, error: AppErrorView| #[trigger]
            e.refused_at(before, i, error) implies e.refused_at(replies, i, error) by {
            assert(e.at(before, i) == e.at(replies, i));
        }
        match (e.after(before).stage, replies.last()) {
            (StageView::Signalling(_), KillReplyView::Sent(Err(error))) => {
                assert(e.refused_at(replies, n, error));
            },
            (StageView::Probing(_), KillReplyView::Probed(Ok(true))) => {
                assert(e.seen_gone_at(replies, n));
            },
            (StageView::Timing(now), KillReplyView::Elapsed(millis)) => {
                if millis >= e.timeout(now) {
                    assert(e.expired_at(replies, n, now));
                }
            },
            _ => {},
        }
    }
}

/// What brought an attempt to the stage at which it stands.
spec fn course(e: EscalationView, replies: Seq<KillReplyView>) -> bool {
    let now = e.after(replies);
    match now.stage {
        StageView::Starting(_) => false,
        StageView::Signalling(Signal::Terminate) => forall|k: int| !e.seen_gone_at(replies, k),
        StageView::Signalling(Signal::Kill) => {
            &&& !e.force ==> exists|i: int, j: int|
                i < j && #[trigger] e.delivered_at(replies, i, Signal::Terminate)
                    && #[trigger] e.expired_at(replies, j, Signal::Terminate)
            &&& forall|k: int| !e.seen_gone_at(replies, k)
        },
        StageView::Probing(signal) => {
            &&& exists|i: int| e.delivered_at(replies, i, signal)
            &&& forall|k: int| !e.seen_gone_at(replies, k)
        },
        StageView::Timing(signal) => {
            &&& exists|i: int| e.delivered_at(replies, i, signal)
            &&& forall|k: int| !e.seen_gone_at(replies, k)
        },
        StageView::Pausing(signal) => {
            &&& exists|i: int| e.delivered_at(replies, i, signal)
            &&& forall|k: int| !e.seen_gone_at(replies, k)
        },
        StageView::Finished(Ok(KillOutcomeView::Failed { .. })) => {
            &&& exists|i: int, j: int|
                i < j && #[trigger] e.delivered_at(replies, i, Signal::Kill)
                    && #[trigger] e.expired_at(replies, j, Signal::Kill)
            &&& forall|k: int| !e.seen_gone_at(replies, k)
        },
        StageView::Finished(Ok(_)) => exists|i: int| e.seen_gone_at(replies, i),
        StageView::Finished(Err(error)) => exists|i: int|
            e.refused_at(replies, i, error),
    }
}

proof fn lemma_course(e: EscalationView, replies: Seq<KillReplyView>)
    requires
        e.stage is Signalling,
        e.force || e.stage == StageView::Signalling(Signal::Terminate),
    ensures
        course(e, replies),
    decreases replies.len(),
{
    if replies.len() > 0 {
        let n = replies.len() - 1;
        let before = replies.drop_last();
        lemma_course(e, before);
        lemma_at(e, replies);
        lemma_fixed(e, before);
        assert forall|i: int, signal: Signal| #[trigger]
            e.delivered_at(before, i, signal) implies e.delivered_at(replies, i, signal) by {
            assert(e.at(before, i) == e.at(replies, i));
        }
        assert forall|i: int, error: AppErrorView| #[trigger]
            e.refused_at(before, i, error) implies e.refused_at(replies, i, error) by {
            assert(e.at(before, i) == e.at(replies, i));
        }
        assert forall|i: int, signal: Signal| #[trigger]
            e.expired_at(before, i, signal) implies e.expired_at(replies, i, signal) by {
            assert(e.at(before, i) == e.at(replies, i));
        }
        assert forall|i: int| #[trigger] e.seen_gone_at(before, i) implies e.seen_gone_at(
            replies,
            i,
        ) by {
            assert(e.at(before, i) == e.at(replies, i));
        }
        assert forall|i: int| 0 <= i < n implies #[trigger] e.seen_gone_at(replies, i)
            == e.seen_gone_at(before, i) by {
            assert(e.at(before, i) == e.at(replies, i));
        }
        match (e.after(before).stage, replies.last()) {
            (StageView::Signalling(signal), KillReplyView::Sent(Ok(_))) => {
                assert(e.delivered_at(replies, n, signal));
            },
            (StageView::Signalling(_), KillReplyView::Sent(Err(error))) => {
                assert(e.refused_at(replies, n, error));
            },
            (StageView::Probing(_), KillReplyView::Probed(Ok(true))) => {
                assert(e.seen_gone_at(replies, n));
            },
            (StageView::Timing(signal), KillReplyView::Elapsed(millis)) => {
                if millis >= e.timeout(signal) {
                    assert(e.expired_at(replies, n, signal));
                }
            },
            _ => {},
        }
    }
}

proof fn lemma_fixed(e: EscalationView, replies: Seq<KillReplyView>)
    ensures
        e.after(replies) == (EscalationView { stage: e.after(replies).stage, ..e }),
    decreases replies.len(),
{
    if replies.len() > 0 {
        lemma_fixed(e, replies.drop_last());
    }
}

} // verus!
