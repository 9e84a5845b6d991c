//! The course of one run.

use vstd::pervasive::unreached;
use vstd::prelude::*;
use vstd::string::StringExecFns;

use crate::app::exit;
use crate::app::{
    all_errors, all_free, answer_view, answer_views, any_failed, any_names_processes,
    are_all_errors, are_all_free, find_row, find_signal, has_failed, inspect_ports, last_signal,
    next_row, port_results, settle, settled, snapshot_needed, stamp_dry_run, stamped, Answer,
    AnswerView,
};
use crate::cli::args::Cli;
use crate::cli::port::{ascending, covered, first_error, resolve_ports};
use crate::error::{AppError, AppErrorView};
use crate::kill::signal::Signal;
use crate::kill::{
    resume_one, result_view, terminate_one, Escalation, EscalationView, KillConfig, KillOutcome,
    KillOutcomeView, KillReply, KillReplyView, KillRequest, Stage, StageView,
};
use crate::process::enrich::{ProcessEnricher, ProcessFactsView};
use crate::render::types::{ports, PortResult, PortResultView, RunMode};
use crate::text::texts;

verus! {

/// What follows when something has been shown.
#[derive(Debug, Clone, Copy, PartialEq, Eq, Structural)]
pub enum Then {
    /// The run is over.
    Exit { code: i32 },
    /// The user is asked whether to go on.
    Ask,
}

/// Where a run stands.
#[derive(Debug, PartialEq, Eq)]
pub enum Phase {
    /// The request is refused, for the reason given.
    Refused { message: String },
    /// The ports are inspected, one by one.
    Inspecting,
    /// A snapshot of the system is taken.
    Snapshotting,
    /// The results are shown.
    Showing { mode: RunMode, then: Then },
    /// The user is asked.
    Asking,
    /// The process of row `row` of port number `at` is ended.
    Killing { at: usize, row: usize, escalation: Escalation },
    /// The run is over.
    Over { code: i32 },
}

/// Where a run stands, as mathematical text.
#[verifier::ext_equal]
pub enum PhaseView {
    Refused { message: Seq<char> },
    Inspecting,
    Snapshotting,
    Showing { mode: RunMode, then: Then },
    Asking,
    Killing { at: int, row: int, escalation: EscalationView },
    Over { code: i32 },
}

impl View for Phase {
    type V = PhaseView;

    open spec fn view(&self) -> PhaseView {
        match self {
            Phase::Refused { message } => PhaseView::Refused { message: message@ },
            Phase::Inspecting => PhaseView::Inspecting,
            Phase::Snapshotting => PhaseView::Snapshotting,
            Phase::Showing { mode, then } => PhaseView::Showing { mode: *mode, then: *then },
            Phase::Asking => PhaseView::Asking,
            Phase::Killing { at, row, escalation } => PhaseView::Killing {
                at: *at as int,
                row: *row as int,
                escalation: escalation@,
            },
            Phase::Over { code } => PhaseView::Over { code: *code },
        }
    }
}

/// What a run wants done next.
#[derive(Debug, PartialEq, Eq)]
pub enum Request {
    /// Tell the user why the request is refused.
    Complain { message: String },
    /// Find the processes on the port.
    Inspect { port: u16 },
    /// Take a snapshot of the system.
    Snapshot,
    /// Show the results.
    Show { mode: RunMode },
    /// Ask the user whether to go on.
    Confirm,
    /// Do this to end a process.
    Kill(KillRequest),
    /// Leave with this exit code.
    Exit { code: i32 },
}

/// What a run wants done next, as mathematical text.
#[verifier::ext_equal]
pub enum RequestView {
    Complain { message: Seq<char> },
    Inspect { port: u16 },
    Snapshot,
    Show { mode: RunMode },
    Confirm,
    Kill(KillRequest),
    Exit { code: i32 },
}

impl View for Request {
    type V = RequestView;

    open spec fn view(&self) -> RequestView {
        match self {
            Request::Complain { message } => RequestView::Complain { message: message@ },
            Request::Inspect { port } => RequestView::Inspect { port: *port },
            Request::Snapshot => RequestView::Snapshot,
            Request::Show { mode } => RequestView::Show { mode: *mode },
            Request::Confirm => RequestView::Confirm,
            Request::Kill(request) => RequestView::Kill(*request),
            Request::Exit { code } => RequestView::Exit { code: *code },
        }
    }
}

/// How a request went.
#[derive(Debug, PartialEq, Eq)]
pub enum Reply {
    /// The user was shown, or told, what was to be shown or told.
    Shown,
    /// What the platform answered about the port.
    Inspected(Answer),
    /// The snapshot of the system.
    Snapshot(ProcessEnricher),
    /// Whether the user wants to go on.
    Confirmed(bool),
    /// How the step to end a process went.
    Kill(KillReply),
}

/// How a request went, as mathematical text.
#[verifier::ext_equal]
pub enum ReplyView {
    Shown,
    Inspected(AnswerView),
    Snapshot(Seq<ProcessFactsView>),
    Confirmed(bool),
    Kill(KillReplyView),
}

impl View for Reply {
    type V = ReplyView;

    open spec fn view(&self) -> ReplyView {
        match self {
            Reply::Shown => ReplyView::Shown,
            Reply::Inspected(answer) => ReplyView::Inspected(answer_view(*answer)),
            Reply::Snapshot(enricher) => ReplyView::Snapshot(enricher@),
            Reply::Confirmed(go_on) => ReplyView::Confirmed(*go_on),
            Reply::Kill(reply) => ReplyView::Kill(reply@),
        }
    }
}

/// One run.
#[derive(Debug, PartialEq, Eq)]
pub struct Session {
    pub kill: bool,
    pub force: bool,
    pub dry_run: bool,
    pub json: bool,
    pub cfg: KillConfig,
    /// The ports that were asked for.
    pub ports: Vec<u16>,
    /// What the platform has answered so far, about the first of the ports.
    pub answers: Vec<Answer>,
    /// What is shown, once all ports are inspected.
    pub results: Vec<PortResult>,
    /// Which signal was the last to reach which process, for each attempt that is over.
    pub reached: Vec<(u32, Signal)>,
    pub phase: Phase,
}

/// One run, as mathematical text.
#[verifier::ext_equal]
pub struct SessionView {
    pub kill: bool,
    pub force: bool,
    pub dry_run: bool,
    pub json: bool,
    pub cfg: KillConfig,
    pub ports: Seq<u16>,
    pub answers: Seq<AnswerView>,
    pub results: Seq<PortResultView>,
    pub reached: Seq<(u32, Signal)>,
    pub phase: PhaseView,
}

impl View for Session {
    type V = SessionView;

    open spec fn view(&self) -> SessionView {
        SessionView {
            kill: self.kill,
            force: self.force,
            dry_run: self.dry_run,
            json: self.json,
            cfg: self.cfg,
            ports: self.ports@,
            answers: answer_views(self.answers@),
            results: ports(self.results@),
            reached: self.reached@,
            phase: self.phase@,
        }
    }
}

/// Why a run that would have to ask the user is refused when its answer is JSON.
pub open spec fn refusal() -> Seq<char> {
    "error: Cannot use --kill interactively with --json. Use --force to confirm termination."@
}

impl SessionView {
    /// A run for which nothing has been done.
    pub open spec fn begun(
        cli: Cli,
        cfg: KillConfig,
        ports: Seq<u16>,
        phase: PhaseView,
    ) -> SessionView {
        SessionView {
            kill: cli.kill,
            force: cli.force,
            dry_run: cli.dry_run,
            json: cli.json,
            cfg,
            ports,
            answers: Seq::empty(),
            results: Seq::empty(),
            reached: Seq::empty(),
            phase,
        }
    }

    /// The run with the given ports.
    pub open spec fn with_ports(cli: Cli, cfg: KillConfig, ports: Seq<u16>) -> SessionView {
        let session = SessionView::begun(cli, cfg, ports, PhaseView::Inspecting);
        if ports.len() == 0 {
            session.decided(Seq::empty())
        } else {
            session
        }
    }

    /// The run in another phase.
    pub open spec fn at(self, phase: PhaseView) -> SessionView {
        SessionView { phase, ..self }
    }

    /// What the inspection came to decides, together with what was asked for, how
    /// the run goes on.
    pub open spec fn decided(self, results: Seq<PortResultView>) -> SessionView {
        let session = SessionView { results, ..self };
        if all_free(results) {
            session.at(
                PhaseView::Showing {
                    mode: RunMode::Inspect,
                    then: Then::Exit { code: exit::NOTHING_FOUND },
                },
            )
        } else if all_errors(results) {
            session.at(
                PhaseView::Showing {
                    mode: RunMode::Inspect,
                    then: Then::Exit { code: exit::USAGE_OR_INTERNAL },
                },
            )
        } else if self.json && self.kill && !self.force {
            session.at(PhaseView::Refused { message: refusal() })
        } else if self.dry_run {
            SessionView {
                results: results.map_values(|result: PortResultView| stamped(result, self.force)),
                ..session.at(
                    PhaseView::Showing { mode: RunMode::DryRun, then: Then::Exit { code: exit::OK } },
                )
            }
        } else if !self.kill && !self.force {
            session.at(
                PhaseView::Showing { mode: RunMode::Inspect, then: Then::Exit { code: exit::OK } },
            )
        } else if !self.force {
            session.at(PhaseView::Showing { mode: RunMode::Confirming, then: Then::Ask })
        } else {
            session.killing_from(0, 0)
        }
    }

    /// The attempt to end the process of row `row` of port number `at`, before
    /// anything was done. If a signal has reached the process at another port, the
    /// attempt goes on from there.
    pub open spec fn first_step(self, at: int, row: int) -> EscalationView {
        let port = self.results[at].port;
        let pid = self.results[at].processes[row].pid;
        match last_signal(self.reached, pid) {
            Some(signal) => EscalationView::resume(port, pid, self.force, self.cfg, signal),
            None => EscalationView::start(port, pid, self.force, self.cfg),
        }
    }

    /// The run at the first process that is still to be ended, counted from row
    /// `row` of port number `at`; at its end, if there is none.
    pub open spec fn killing_from(self, at: int, row: int) -> SessionView {
        match next_row(self.results, at, row) {
            Some((i, j)) => self.at(
                PhaseView::Killing { at: i, row: j, escalation: self.first_step(i, j) },
            ),
            None => self.at(
                PhaseView::Showing {
                    mode: RunMode::Kill,
                    then: Then::Exit {
                        code: if any_failed(self.results) {
                            exit::KILL_FAILED
                        } else {
                            exit::OK
                        },
                    },
                },
            ),
        }
    }

    /// The results with what came of the attempt to end one process.
    pub open spec fn with_settled(
        self,
        at: int,
        row: int,
        result: Result<KillOutcomeView, AppErrorView>,
    ) -> SessionView {
        let port = self.results[at];
        SessionView {
            results: self.results.update(
                at,
                PortResultView {
                    processes: port.processes.update(
                        row,
                        settled(port.processes[row], port.port, result),
                    ),
                    ..port
                },
            ),
            ..self
        }
    }

    /// The run when the attempt to end one process has come to an end; `delivered` is
    /// the last signal that had reached the process.
    pub open spec fn closed(
        self,
        at: int,
        row: int,
        delivered: Option<Signal>,
        result: Result<KillOutcomeView, AppErrorView>,
    ) -> SessionView {
        let pid = self.results[at].processes[row].pid;
        SessionView {
            reached: match delivered {
                Some(signal) => self.reached.push((pid, signal)),
                None => self.reached,
            },
            ..self.with_settled(at, row, result)
        }
    }

    /// What is to be done next.
    pub open spec fn request(self) -> RequestView {
        match self.phase {
            PhaseView::Refused { message } => RequestView::Complain { message },
            PhaseView::Inspecting => RequestView::Inspect {
                port: self.ports[self.answers.len() as int],
            },
            PhaseView::Snapshotting => RequestView::Snapshot,
            PhaseView::Showing { mode, .. } => RequestView::Show { mode },
            PhaseView::Asking => RequestView::Confirm,
            PhaseView::Killing { escalation, .. } => RequestView::Kill(escalation.request()->0),
            PhaseView::Over { code } => RequestView::Exit { code },
        }
    }

    /// The run after `reply`. A reply to something that was not asked changes
    /// nothing.
    pub open spec fn step(self, reply: ReplyView) -> SessionView {
        match (self.phase, reply) {
            (PhaseView::Refused { .. }, ReplyView::Shown) => self.at(
                PhaseView::Over { code: exit::USAGE_OR_INTERNAL },
            ),
            (PhaseView::Inspecting, ReplyView::Inspected(answer)) => {
                let session = SessionView { answers: self.answers.push(answer), ..self };
                if session.answers.len() < self.ports.len() {
                    session
                } else if any_names_processes(session.answers) {
                    session.at(PhaseView::Snapshotting)
                } else {
                    session.decided(port_results(self.ports, session.answers, Seq::empty()))
                }
            },
            (PhaseView::Snapshotting, ReplyView::Snapshot(facts)) => self.decided(
                port_results(self.ports, self.answers, facts),
            ),
            (PhaseView::Showing { then, .. }, ReplyView::Shown) => match then {
                Then::Exit { code } => self.at(PhaseView::Over { code }),
                Then::Ask => self.at(PhaseView::Asking),
            },
            (PhaseView::Asking, ReplyView::Confirmed(go_on)) => if go_on {
                self.killing_from(0, 0)
            } else {
                self.at(
                    PhaseView::Showing {
                        mode: RunMode::Aborted,
                        then: Then::Exit { code: exit::OK },
                    },
                )
            },
            (PhaseView::Killing { at, row, escalation }, ReplyView::Kill(reply)) => {
                let next = escalation.step(reply);
                match next.stage {
                    StageView::Finished(result) => self.closed(
                        at,
                        row,
                        escalation.delivered(),
                        result,
                    ).killing_from(at, row + 1),
                    _ => self.at(PhaseView::Killing { at, row, escalation: next }),
                }
            },
            _ => self,
        }
    }

    /// The run after a series of replies.
    pub open spec fn after(self, replies: Seq<ReplyView>) -> SessionView
        decreases replies.len(),
    {
        if replies.len() == 0 {
            self
        } else {
            self.after(replies.drop_last()).step(replies.last())
        }
    }

    /// What holds of every run, wherever it stands.
    pub open spec fn wf(self) -> bool {
        match self.phase {
            PhaseView::Inspecting => self.answers.len() < self.ports.len(),
            PhaseView::Snapshotting => self.answers.len() == self.ports.len(),
            PhaseView::Killing { at, row, escalation } => {
                &&& 0 <= at < self.results.len()
                &&& 0 <= row < self.results[at].processes.len()
                &&& escalation.stage !is Finished
            },
            _ => true,
        }
    }
}

/// Begin a run.
pub fn run(cli: &Cli, cfg: &KillConfig) -> (r: Session)
    ensures
        r@.wf(),
        match first_error(texts(cli.ports@)) {
            Some(e) => r@ == SessionView::begun(
                *cli,
                *cfg,
                Seq::empty(),
                PhaseView::Refused { message: "error: "@ + e.text() },
            ),
            None => exists|ports: Seq<u16>|
                ascending(ports) && (forall|port: u16|
                    #![trigger ports.contains(port)]
                    ports.contains(port) <==> covered(texts(cli.ports@), port)) && r@
                    == #[trigger] SessionView::with_ports(*cli, *cfg, ports),
        },
{
    match resolve_ports(cli.ports.as_slice()) {
        Err(e) => {
            let mut message = String::new();
            message.append("error: ");
            message.append(e.to_string().as_str());
            Session::begin(cli, cfg, Vec::new(), Phase::Refused { message })
        },
        Ok(ports) => {
            let none = ports.len() == 0;
            let ghost asked = ports@;
            let session = Session::begin(cli, cfg, ports, Phase::Inspecting);
            let session = if none {
                session.decide(Vec::new())
            } else {
                session
            };
            assert(session@ == SessionView::with_ports(*cli, *cfg, asked));
            session
        },
    }
}

impl Session {
    /// A run for which nothing has been done.
    fn begin(cli: &Cli, cfg: &KillConfig, ports: Vec<u16>, phase: Phase) -> (r: Session)
        ensures
            r@ == SessionView::begun(*cli, *cfg, ports@, phase@),
    {
        Session {
            kill: cli.kill,
            force: cli.force,
            dry_run: cli.dry_run,
            json: cli.json,
            cfg: *cfg,
            ports,
            answers: Vec::new(),
            results: Vec::new(),
            reached: Vec::new(),
            phase,
        }
    }

    /// How the run goes on, given what the inspection came to.
    fn decide(self, results: Vec<PortResult>) -> (r: Session)
        ensures
            r@ == self@.decided(ports(results@)),
            r@.wf(),
    {
        let mut this = self;
        this.results = results;
        if are_all_free(&this.results) {
            this.phase = Phase::Showing {
                mode: RunMode::Inspect,
                then: Then::Exit { code: exit::NOTHING_FOUND },
            };
            this
        } else if are_all_errors(&this.results) {
            this.phase = Phase::Showing {
                mode: RunMode::Inspect,
                then: Then::Exit { code: exit::USAGE_OR_INTERNAL },
            };
            this
        } else if this.json && this.kill && !this.force {
            this.phase = Phase::Refused {
                message: "error: Cannot use --kill interactively with --json. Use --force to confirm termination.".to_string(),
            };
            this
        } else if this.dry_run {
            stamp_dry_run(&mut this.results, this.force);
            this.phase = Phase::Showing {
                mode: RunMode::DryRun,
                then: Then::Exit { code: exit::OK },
            };
            this
        } else if !this.kill && !this.force {
            this.phase = Phase::Showing {
                mode: RunMode::Inspect,
                then: Then::Exit { code: exit::OK },
            };
            this
        } else if !this.force {
            this.phase = Phase::Showing { mode: RunMode::Confirming, then: Then::Ask };
            this
        } else {
            this.kill_from(0, 0)
        }
    }

    /// Go to the first process that is still to be ended, counted from row `row` of
    /// port number `at`.
    fn kill_from(self, at: usize, row: usize) -> (r: Session)
        ensures
            r@ == self@.killing_from(at as int, row as int),
            r@.wf(),
    {
        let mut this = self;
        proof {
            lemma_next_row(this@.results, at as int, row as int);
        }
        match find_row(&this.results, at, row) {
            Some((i, j)) => {
                let process = this.results[i].processes[j].to_process_info();
                let port = this.results[i].port;
                let escalation = match find_signal(&this.reached, process.pid) {
                    Some(signal) => resume_one(port, &process, this.force, &this.cfg, signal),
                    None => terminate_one(port, &process, this.force, &this.cfg),
                };
                this.phase = Phase::Killing { at: i, row: j, escalation };
            },
            None => {
                let code: i32 = if has_failed(&this.results) {
                    exit::KILL_FAILED
                } else {
                    exit::OK
                };
                this.phase = Phase::Showing { mode: RunMode::Kill, then: Then::Exit { code } };
            },
        }
        this
    }

    /// Record what came of the attempt to end one process.
    fn record(&mut self, at: usize, row: usize, result: Result<KillOutcome, AppError>)
        requires
            at < old(self).results@.len(),
            row < old(self).results@[at as int].processes@.len(),
        ensures
            final(self)@ == old(self)@.with_settled(
                at as int,
                row as int,
                result_view(result),
            ),
            row < usize::MAX,
    {
        let ghost before = self@;
        let ghost came = result_view(result);
        assert(row < self.results[at as int].processes.len());
        let port = self.results[at].port;
        settle(&mut self.results[at].processes[row], port, result);
        proof {
            let after = before.with_settled(at as int, row as int, came);
            assert(self@.results[at as int].processes =~= after.results[at as int].processes);
            assert(self@.results =~= after.results);
        }
    }

    /// Record that the attempt to end one process has come to an end.
    fn close(
        &mut self,
        at: usize,
        row: usize,
        delivered: Option<Signal>,
        result: Result<KillOutcome, AppError>,
    )
        requires
            at < old(self).results@.len(),
            row < old(self).results@[at as int].processes@.len(),
        ensures
            final(self)@ == old(self)@.closed(
                at as int,
                row as int,
                delivered,
                result_view(result),
            ),
            row < usize::MAX,
    {
        assert(row < self.results[at as int].processes.len());
        let pid = self.results[at].processes[row].pid;
        self.record(at, row, result);
        if let Some(signal) = delivered {
            self.reached.push((pid, signal));
        }
    }

    /// What is to be done next.
    pub fn request(&self) -> (r: Request)
        requires
            self@.wf(),
        ensures
            r@ == self@.request(),
    {
        match &self.phase {
            Phase::Refused { message } => Request::Complain { message: message.clone() },
            Phase::Inspecting => Request::Inspect { port: self.ports[self.answers.len()] },
            Phase::Snapshotting => Request::Snapshot,
            Phase::Showing { mode, .. } => Request::Show { mode: *mode },
            Phase::Asking => Request::Confirm,
            Phase::Killing { escalation, .. } => match escalation.request() {
                Some(request) => Request::Kill(request),
                None => unreached(),
            },
            Phase::Over { code } => Request::Exit { code: *code },
        }
    }

    /// The run after `reply`.
    pub fn advance(self, reply: Reply) -> (r: Session)
        requires
            self@.wf(),
        ensures
            r@ == self@.step(reply@),
            r@.wf(),
    {
        let mut this = self;
        let ghost before = this@;
        let mut phase = Phase::Snapshotting;
        std::mem::swap(&mut this.phase, &mut phase);
        match (phase, reply) {
            (Phase::Refused { .. }, Reply::Shown) => {
                this.phase = Phase::Over { code: exit::USAGE_OR_INTERNAL };
            },
            (Phase::Inspecting, Reply::Inspected(answer)) => {
                this.answers.push(answer);
                assert(answer_views(this.answers@) =~= before.answers.push(reply@->Inspected_0));
                if this.answers.len() < this.ports.len() {
                    this.phase = Phase::Inspecting;
                } else if !snapshot_needed(&this.answers) {
                    let enricher = ProcessEnricher::new(Vec::new());
                    assert(enricher@ =~= Seq::<ProcessFactsView>::empty());
                    let results = inspect_ports(&this.ports, &this.answers, &enricher);
                    return this.decide(results);
                }
            },
            (Phase::Snapshotting, Reply::Snapshot(enricher)) => {
                let results = inspect_ports(&this.ports, &this.answers, &enricher);
                return this.decide(results);
            },
            (Phase::Showing { then, .. }, Reply::Shown) => {
                this.phase = match then {
                    Then::Exit { code } => Phase::Over { code },
                    Then::Ask => Phase::Asking,
                };
            },
            (Phase::Asking, Reply::Confirmed(go_on)) => {
                if go_on {
                    return this.kill_from(0, 0);
                }
                this.phase = Phase::Showing {
                    mode: RunMode::Aborted,
                    then: Then::Exit { code: exit::OK },
                };
            },
            (Phase::Killing { at, row, escalation }, Reply::Kill(reply)) => {
                let delivered = escalation.delivered();
                let next = escalation.advance(reply);
                match next.stage {
                    Stage::Finished(result) => {
                        this.close(at, row, delivered, result);
                        return this.kill_from(at, row + 1);
                    },
                    stage => {
                        this.phase = Phase::Killing {
                            at,
                            row,
                            escalation: Escalation { stage, ..next },
                        };
                    },
                }
            },
            (phase, _) => {
                this.phase = phase;
            },
        }
        this
    }
}

/// Whether port number `at` is occupied and has a row `row`.
pub open spec fn is_row(results: Seq<PortResultView>, at: int, row: int) -> bool {
    &&& 0 <= at < results.len()
    &&& results[at].is_occupied()
    &&& 0 <= row < results[at].processes.len()
}

/// The row that `next_row` finds is one of an occupied port, at or after the row
/// where the search begins, and no such row comes before it.
pub proof fn lemma_next_row(results: Seq<PortResultView>, i: int, j: int)
    requires
        0 <= i,
        0 <= j,
    ensures
        next_row(results, i, j) matches Some((a, b)) ==> {
            &&& is_row(results, a, b)
            &&& a > i || a == i && b >= j
        },
        forall|a: int, b: int| #[trigger]
            is_row(results, a, b) && (a > i || a == i && b >= j) ==> match next_row(results, i, j) {
                Some((c, d)) => c < a || c == a && d <= b,
                None => false,
            },
    decreases results.len() - i,
{
    let here = i < results.len() && results[i].is_occupied() && j < results[i].processes.len();
    if i < results.len() && !here {
        lemma_next_row(results, i + 1, 0);
    }
    assert forall|a: int, b: int| #[trigger]
        is_row(results, a, b) && (a > i || a == i && b >= j) implies match next_row(
        results,
        i,
        j,
    ) {
        Some((c, d)) => c < a || c == a && d <= b,
        None => false,
    } by {
        if !here {
            assert(next_row(results, i, j) == next_row(results, i + 1, 0));
        }
    }
}

} // verus!
