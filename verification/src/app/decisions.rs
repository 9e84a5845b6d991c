//! What a run decides, situation by situation.

use vstd::prelude::*;

use crate::app::laws::{lemma_begun_flags, lemma_flags};
use crate::app::session::{is_row, lemma_next_row, PhaseView, ReplyView, RequestView, SessionView};
use crate::app::{
    all_errors, all_free, answer_view, any_failed, any_names_processes, kill_error, last_signal,
    names_processes, next_row, port_result, port_results, says_yes, settled, shows, stamped,
    AnswerView,
};
use crate::cli::args::Cli;
use crate::error::{AppError, AppErrorView};
use crate::kill::signal::Signal;
use crate::kill::{
    EscalationView, KillConfig, KillOutcomeView, KillReplyView, KillRequest, StageView,
};
use crate::process::enrich::{enriched, ProcessFactsView};
use crate::process::{ProcessInfo, ProcessInfoView};
use crate::render::json::{json_text, report};
use crate::render::paint::reset;
use crate::render::table::laws::{
    law_dry_run_says_what_would_be_done, law_every_failure_is_shown,
    law_inspection_says_how_to_go_on, law_no_is_confirmed, law_success_is_shown,
};
use crate::render::types::{
    PortResultView, ProcessResultView, ProcessStatus, RunMode, SignalKind,
};
use crate::text::laws::{is_blank, law_part_occurs, law_trim};
use crate::text::{dec, lower, lowered, occurs, white};

verus! {

// ---------------------------------------------------------------------------
// Inspection
// ---------------------------------------------------------------------------

/// The replies that tell what the platform answered about one port after the other.
pub open spec fn inspected(answers: Seq<AnswerView>) -> Seq<ReplyView> {
    answers.map_values(|a: AnswerView| ReplyView::Inspected(a))
}

/// The ports are inspected one after the other, in their order, each once.
pub proof fn law_inspects_each_port(
    cli: Cli,
    cfg: KillConfig,
    ports: Seq<u16>,
    answers: Seq<AnswerView>,
)
    requires
        answers.len() < ports.len(),
    ensures
        ({
            let s = SessionView::with_ports(cli, cfg, ports).after(inspected(answers));
            &&& s.request() == (RequestView::Inspect { port: ports[answers.len() as int] })
            &&& s.answers == answers
            &&& s.phase == PhaseView::Inspecting
        }),
    decreases answers.len(),
{
    let all = inspected(answers);
    if answers.len() > 0 {
        law_inspects_each_port(cli, cfg, ports, answers.drop_last());
        assert(all.drop_last() =~= inspected(answers.drop_last()));
        assert(all.last() == ReplyView::Inspected(answers.last()));
        assert(answers.drop_last().push(answers.last()) =~= answers);
    } else {
        assert(SessionView::with_ports(cli, cfg, ports).answers =~= answers);
    }
    lemma_flags(SessionView::with_ports(cli, cfg, ports), all);
    lemma_begun_flags(cli, cfg, ports);
}

/// When all the ports have been inspected, a snapshot is taken if a process was found on
/// one of them.
pub proof fn law_snapshot_when_occupied(
    cli: Cli,
    cfg: KillConfig,
    ports: Seq<u16>,
    answers: Seq<AnswerView>,
    i: int,
)
    requires
        answers.len() == ports.len(),
        0 <= i < answers.len(),
        answers[i] matches Ok(processes) && processes.len() > 0,
    ensures
        ({
            let s = SessionView::with_ports(cli, cfg, ports).after(inspected(answers));
            &&& s.request() == RequestView::Snapshot
            &&& s.answers == answers
            &&& s.phase == PhaseView::Snapshotting
        }),
{
    lemma_last_answer(cli, cfg, ports, answers);
    assert(names_processes(answers[i]));
}

proof fn lemma_last_answer(
    cli: Cli,
    cfg: KillConfig,
    ports: Seq<u16>,
    answers: Seq<AnswerView>,
)
    requires
        answers.len() == ports.len(),
        answers.len() > 0,
    ensures
        ({
            let before = SessionView::with_ports(cli, cfg, ports).after(
                inspected(answers.drop_last()),
            );
            let s = SessionView::with_ports(cli, cfg, ports).after(inspected(answers));
            &&& before.phase == PhaseView::Inspecting
            &&& before.answers == answers.drop_last()
            &&& before.ports == ports
            &&& before.kill == cli.kill && before.force == cli.force
            &&& before.dry_run == cli.dry_run && before.json == cli.json
            &&& s == before.step(ReplyView::Inspected(answers.last()))
            &&& before.answers.push(answers.last()) == answers
        }),
{
    let front = answers.drop_last();
    law_inspects_each_port(cli, cfg, ports, front);
    assert(inspected(answers).drop_last() =~= inspected(front));
    assert(inspected(answers).last() == ReplyView::Inspected(answers.last()));
    assert(front.push(answers.last()) =~= answers);
    lemma_flags(SessionView::with_ports(cli, cfg, ports), inspected(front));
    lemma_begun_flags(cli, cfg, ports);
}

/// Whether the results say of each port what the platform answered about it: an error in
/// its words; that nothing is bound; or the processes, in their order, completed from the
/// snapshot.
pub open spec fn says_what_was_answered(
    results: Seq<PortResultView>,
    ports: Seq<u16>,
    answers: Seq<AnswerView>,
    facts: Seq<ProcessFactsView>,
) -> bool {
    &&& results.len() == ports.len()
    &&& forall|i: int|
        0 <= i < ports.len() ==> {
            let result = #[trigger] results[i];
            &&& result.port == ports[i]
            &&& answers[i] matches Err(e) ==> result.free is None && result.error == Some(e.text())
                && result.processes.len() == 0
            &&& answers[i] matches Ok(processes) ==> {
                &&& result.error is None
                &&& result.free == Some(processes.len() == 0)
                &&& result.processes.len() == processes.len()
                &&& forall|j: int|
                    0 <= j < processes.len() ==> (#[trigger] result.processes[j]).info()
                        == enriched(facts, processes[j])
            }
        }
}

/// The results say of each port what the platform answered about it, completed from the
/// snapshot that was taken.
pub proof fn law_snapshot_is_used(
    cli: Cli,
    cfg: KillConfig,
    ports: Seq<u16>,
    answers: Seq<AnswerView>,
    facts: Seq<ProcessFactsView>,
    i: int,
)
    requires
        answers.len() == ports.len(),
        0 <= i < answers.len(),
        answers[i] matches Ok(processes) && processes.len() > 0,
    ensures
        says_what_was_answered(
            SessionView::with_ports(cli, cfg, ports).after(
                inspected(answers).push(ReplyView::Snapshot(facts)),
            ).results,
            ports,
            answers,
            facts,
        ),
{
    let s = SessionView::with_ports(cli, cfg, ports).after(inspected(answers));
    law_snapshot_when_occupied(cli, cfg, ports, answers, i);
    lemma_flags(SessionView::with_ports(cli, cfg, ports), inspected(answers));
    lemma_begun_flags(cli, cfg, ports);
    let all = inspected(answers).push(ReplyView::Snapshot(facts));
    assert(all.drop_last() =~= inspected(answers));
    lemma_results(ports, answers, facts);
    let found = port_results(ports, answers, facts);
    let after = s.decided(found).results;
    if after != found {
        assert(after =~= found.map_values(|r: PortResultView| stamped(r, s.force)));
        assert forall|k: int| 0 <= k < ports.len() implies ({
            let result = #[trigger] after[k];
            &&& result.port == ports[k]
            &&& answers[k] matches Err(e) ==> result.free is None && result.error == Some(e.text())
                && result.processes.len() == 0
            &&& answers[k] matches Ok(processes) ==> {
                &&& result.error is None
                &&& result.free == Some(processes.len() == 0)
                &&& result.processes.len() == processes.len()
                &&& forall|j: int|
                    0 <= j < processes.len() ==> (#[trigger] result.processes[j]).info()
                        == enriched(facts, processes[j])
            }
        }) by {
            assert(after[k] == stamped(found[k], s.force));
            let before = found[k];
            if let Ok(processes) = answers[k] {
                assert forall|j: int| 0 <= j < processes.len() implies (
                #[trigger] after[k].processes[j]).info() == enriched(facts, processes[j]) by {
                    assert(before.processes[j].info() == enriched(facts, processes[j]));
                }
            }
        }
    }
}

proof fn lemma_results(
    ports: Seq<u16>,
    answers: Seq<AnswerView>,
    facts: Seq<ProcessFactsView>,
)
    requires
        answers.len() == ports.len(),
    ensures
        says_what_was_answered(port_results(ports, answers, facts), ports, answers, facts),
{
    let found = port_results(ports, answers, facts);
    assert forall|i: int| 0 <= i < ports.len() implies ({
        let result = #[trigger] found[i];
        &&& result.port == ports[i]
        &&& answers[i] matches Err(e) ==> result.free is None && result.error == Some(e.text())
            && result.processes.len() == 0
        &&& answers[i] matches Ok(processes) ==> {
            &&& result.error is None
            &&& result.free == Some(processes.len() == 0)
            &&& result.processes.len() == processes.len()
            &&& forall|j: int|
                0 <= j < processes.len() ==> (#[trigger] result.processes[j]).info() == enriched(
                    facts,
                    processes[j],
                )
        }
    }) by {
        assert(found[i] == port_result(ports[i], answers[i], facts));
    }
}

/// Where no process was found on any port, no snapshot is taken: the results are shown,
/// and say what the platform answered. The exit code is 1 if every port is free, and 3 if
/// none could be inspected.
pub proof fn law_nothing_occupied(
    cli: Cli,
    cfg: KillConfig,
    ports: Seq<u16>,
    answers: Seq<AnswerView>,
)
    requires
        answers.len() == ports.len(),
        answers.len() > 0,
        forall|i: int|
            0 <= i < answers.len() ==> (#[trigger] answers[i] matches Ok(processes)
                ==> processes.len() == 0),
    ensures
        ({
            let s = SessionView::with_ports(cli, cfg, ports).after(inspected(answers));
            &&& s.results.len() == ports.len()
            &&& says_what_was_answered(s.results, ports, answers, Seq::empty())
            &&& (forall|i: int| 0 <= i < answers.len() ==> #[trigger] answers[i] is Ok) ==> {
                &&& s.request() == (RequestView::Show { mode: RunMode::Inspect })
                &&& s.step(ReplyView::Shown).request() == (RequestView::Exit { code: 1 })
            }
            &&& (forall|i: int| 0 <= i < answers.len() ==> #[trigger] answers[i] is Err) ==> {
                &&& s.request() == (RequestView::Show { mode: RunMode::Inspect })
                &&& s.step(ReplyView::Shown).request() == (RequestView::Exit { code: 3 })
            }
        }),
{
    lemma_last_answer(cli, cfg, ports, answers);
    assert(!any_names_processes(answers)) by {
        assert forall|i: int| 0 <= i < answers.len() implies !names_processes(
            #[trigger] answers[i],
        ) by {}
    }
    let facts = Seq::<ProcessFactsView>::empty();
    let found = port_results(ports, answers, facts);
    lemma_results(ports, answers, facts);
    let before = SessionView::with_ports(cli, cfg, ports).after(inspected(answers.drop_last()));
    let whole = SessionView { answers: before.answers.push(answers.last()), ..before };
    let s = whole.decided(found);
    assert forall|i: int| 0 <= i < found.len() implies !(#[trigger] found[i]).is_occupied() by {
        assert(found[i] == port_result(ports[i], answers[i], facts));
    }
    let stamped_all = found.map_values(|r: PortResultView| stamped(r, before.force));
    assert(stamped_all =~= found);
    if forall|i: int| 0 <= i < answers.len() ==> #[trigger] answers[i] is Ok {
        assert forall|i: int| 0 <= i < found.len() implies (#[trigger] found[i]).is_free() by {
            assert(answers[i] is Ok);
        }
        assert(all_free(found));
    }
    if forall|i: int| 0 <= i < answers.len() ==> #[trigger] answers[i] is Err {
        assert forall|i: int| 0 <= i < found.len() implies (#[trigger] found[i]).is_error() by {
            assert(answers[i] is Err);
        }
        assert(answers[0] is Err);
        assert(found[0].is_error() && !found[0].is_free());
        assert(!all_free(found));
        assert(all_errors(found));
    }
    assert(s.results =~= found);
}

/// A run without ports has nothing to inspect: it shows that, and leaves with exit code 1.
pub proof fn law_no_ports(cli: Cli, cfg: KillConfig)
    ensures
        ({
            let s = SessionView::with_ports(cli, cfg, Seq::empty());
            &&& s.request() == (RequestView::Show { mode: RunMode::Inspect })
            &&& s.step(ReplyView::Shown).request() == (RequestView::Exit { code: 1 })
        }),
{
}

// ---------------------------------------------------------------------------
// What follows
// ---------------------------------------------------------------------------

/// What a run that found something to act on does is a matter of what was asked for. Some
/// port is not free, and some could be inspected.
///
/// Asked in JSON to end processes without force, it refuses, and leaves with exit code 3.
/// Else a dry run is shown as such, and leaves with 0. A run that was not asked to end
/// anything shows what it found, and leaves with 0. A run that was asked to, without
/// force, shows what it found and asks the user; on a no it says so, and leaves with 0.
pub proof fn law_what_follows(s: SessionView, results: Seq<PortResultView>, a: int, b: int)
    requires
        0 <= a < results.len(),
        results[a].free != Some(true),
        0 <= b < results.len(),
        results[b].error is None,
    ensures
        ({
            let next = s.decided(results);
            &&& s.json && s.kill && !s.force ==> {
                &&& next.request() == (RequestView::Complain {
                    message:
                        "error: Cannot use --kill interactively with --json. Use --force to confirm termination."@,
                })
                &&& next.step(ReplyView::Shown).request() == (RequestView::Exit { code: 3 })
                &&& next.results == results
            }
            &&& !(s.json && s.kill && !s.force) && s.dry_run ==> {
                &&& next.request() == (RequestView::Show { mode: RunMode::DryRun })
                &&& next.step(ReplyView::Shown).request() == (RequestView::Exit { code: 0 })
                &&& next.results.len() == results.len()
            }
            &&& !s.dry_run && !s.kill && !s.force ==> {
                &&& next.request() == (RequestView::Show { mode: RunMode::Inspect })
                &&& next.step(ReplyView::Shown).request() == (RequestView::Exit { code: 0 })
                &&& next.results == results
            }
            &&& !s.dry_run && !s.json && s.kill && !s.force ==> {
                let asked = next.step(ReplyView::Shown);
                let refused = asked.step(ReplyView::Confirmed(false));
                &&& next.request() == (RequestView::Show { mode: RunMode::Confirming })
                &&& next.results == results
                &&& asked.request() == RequestView::Confirm
                &&& refused.request() == (RequestView::Show { mode: RunMode::Aborted })
                &&& refused.results == results
                &&& refused.step(ReplyView::Shown).request() == (RequestView::Exit { code: 0 })
            }
        }),
{
    assert(!results[a].is_free());
    assert(!all_free(results));
    assert(!results[b].is_error());
    assert(!all_errors(results));
}

/// A dry run marks each row of an occupied port with what would be sent, `SIGKILL` with
/// force and `SIGTERM` without, and changes nothing else.
pub proof fn law_dry_run_marks(s: SessionView, results: Seq<PortResultView>, i: int, j: int)
    requires
        s.dry_run,
        !(s.json && s.kill && !s.force),
        exists|k: int| 0 <= k < results.len() && (#[trigger] results[k]).free != Some(true),
        exists|k: int| 0 <= k < results.len() && (#[trigger] results[k]).error is None,
        0 <= i < results.len(),
        0 <= j < results[i].processes.len(),
    ensures
        ({
            let before = results[i];
            let after = s.decided(results).results[i];
            &&& after.port == before.port && after.protocol == before.protocol
            &&& after.free == before.free && after.error == before.error
            &&& after.processes.len() == before.processes.len()
            &&& after.processes[j].info() == before.processes[j].info()
            &&& after.processes[j].error == before.processes[j].error
            &&& before.free == Some(false) ==> {
                &&& after.processes[j].status == ProcessStatus::DryRun
                &&& s.force ==> after.processes[j].signal == Some(SignalKind::Sigkill)
                &&& !s.force ==> after.processes[j].signal == Some(SignalKind::Sigterm)
            }
            &&& before.free != Some(false) ==> after == before
        }),
{
    let a = choose|k: int| 0 <= k < results.len() && (#[trigger] results[k]).free != Some(true);
    let b = choose|k: int| 0 <= k < results.len() && (#[trigger] results[k]).error is None;
    assert(!results[a].is_free() && !all_free(results));
    assert(!results[b].is_error() && !all_errors(results));
    assert(s.decided(results).results[i] == stamped(results[i], s.force));
}

/// With force, and after a yes, the first thing done is to send a signal to the first
/// process of the first port that is occupied: `SIGKILL` with force, `SIGTERM` without.
/// Where no port is occupied, what was done is shown at once.
pub proof fn law_first_signal(s: SessionView, results: Seq<PortResultView>, i: int)
    requires
        !s.dry_run,
        s.force || s.kill && !s.json,
        s.reached.len() == 0,
        exists|k: int| 0 <= k < results.len() && (#[trigger] results[k]).free != Some(true),
        exists|k: int| 0 <= k < results.len() && (#[trigger] results[k]).error is None,
        0 <= i < results.len(),
        results[i].free == Some(false),
        results[i].processes.len() > 0,
        forall|k: int|
            0 <= k < i ==> (#[trigger] results[k]).free != Some(false) || results[k].processes.len()
                == 0,
    ensures
        ({
            let pid = results[i].processes[0].pid;
            let next = s.decided(results);
            let go = next.step(ReplyView::Shown).step(ReplyView::Confirmed(true));
            &&& s.force ==> next.request() == RequestView::Kill(
                KillRequest::Send { pid, signal: Signal::Kill },
            )
            &&& !s.force ==> go.request() == RequestView::Kill(
                KillRequest::Send { pid, signal: Signal::Terminate },
            )
        }),
{
    let a = choose|k: int| 0 <= k < results.len() && (#[trigger] results[k]).free != Some(true);
    let b = choose|k: int| 0 <= k < results.len() && (#[trigger] results[k]).error is None;
    assert(!results[a].is_free() && !all_free(results));
    assert(!results[b].is_error() && !all_errors(results));
    lemma_next_row(results, 0, 0);
    assert(is_row(results, i, 0));
    let (c, d) = next_row(results, 0, 0)->0;
    assert(is_row(results, c, d));
    if c < i {
        assert(results[c].free != Some(false) || results[c].processes.len() == 0);
    }
    assert(c == i && d == 0);
}

/// Each attempt is made as the run was asked to, and at the process and the port of its row.
/// A process that no signal has reached is sent the first; one that a signal has reached is
/// given its time at this port, and is sent nothing.
pub proof fn law_attempt_is_as_asked(s: SessionView, at: int, row: int, signal: Signal)
    requires
        0 <= at < s.results.len(),
        0 <= row < s.results[at].processes.len(),
    ensures
        ({
            let e = s.first_step(at, row);
            let pid = s.results[at].processes[row].pid;
            &&& e.port == s.results[at].port
            &&& e.pid == pid
            &&& e.force == s.force
            &&& e.cfg == s.cfg
            &&& (forall|k: int| 0 <= k < s.reached.len() ==> (#[trigger] s.reached[k]).0 != pid)
                ==> e.request() == Some(
                KillRequest::Send {
                    pid,
                    signal: if s.force {
                        Signal::Kill
                    } else {
                        Signal::Terminate
                    },
                },
            )
            &&& s.reached.len() > 0 && s.reached.last() == (pid, signal) ==> {
                &&& e.request() == Some(KillRequest::StartClock)
                &&& e.delivered() == Some(signal)
            }
        }),
{
    let pid = s.results[at].processes[row].pid;
    if forall|k: int| 0 <= k < s.reached.len() ==> (#[trigger] s.reached[k]).0 != pid {
        lemma_never_reached(s.reached, pid);
    }
}

proof fn lemma_never_reached(reached: Seq<(u32, Signal)>, pid: u32)
    requires
        forall|k: int| 0 <= k < reached.len() ==> (#[trigger] reached[k]).0 != pid,
    ensures
        last_signal(reached, pid) is None,
    decreases reached.len(),
{
    if reached.len() > 0 {
        let front = reached.drop_last();
        assert(reached[reached.len() - 1].0 != pid);
        assert forall|k: int| 0 <= k < front.len() implies (#[trigger] front[k]).0 != pid by {
            assert(front[k] == reached[k]);
        }
        lemma_never_reached(front, pid);
    }
}

/// When an attempt has come to an end, its row says what came of it, every other row and
/// port stays as it was, and the run goes on with the next row of an occupied port; or, if
/// there is none, shows what was done, and leaves with 2 if some process could not be
/// ended, with 0 otherwise.
pub proof fn law_next_attempt(
    s: SessionView,
    at: int,
    row: int,
    escalation: EscalationView,
    reply: KillReplyView,
    result: Result<KillOutcomeView, AppErrorView>,
    i: int,
    j: int,
)
    requires
        s.phase == (PhaseView::Killing { at, row, escalation }),
        0 <= at < s.results.len(),
        0 <= row < s.results[at].processes.len(),
        escalation.step(reply).stage == StageView::Finished(result),
        0 <= i < s.results.len(),
        0 <= j < s.results[i].processes.len(),
    ensures
        ({
            let next = s.step(ReplyView::Kill(reply));
            &&& next.results.len() == s.results.len()
            &&& next.results[i].processes.len() == s.results[i].processes.len()
            &&& next.results[i].port == s.results[i].port
            &&& next.results[i].free == s.results[i].free
            &&& next.results[i].error == s.results[i].error
            &&& i != at || j != row ==> next.results[i].processes[j] == s.results[i].processes[j]
            &&& next.results[at].processes[row] == settled(
                s.results[at].processes[row],
                s.results[at].port,
                result,
            )
            &&& next.phase matches PhaseView::Killing { at: a, row: b, escalation: e } ==> {
                &&& 0 <= a < s.results.len() && s.results[a].free == Some(false)
                &&& 0 <= b < s.results[a].processes.len()
                &&& a > at || a == at && b > row
                &&& e.pid == s.results[a].processes[b].pid
                &&& e.port == s.results[a].port
                &&& s.results[i].free == Some(false) && (i > at || i == at && j > row) ==> a < i
                    || a == i && b <= j
            }
            &&& !(next.phase is Killing) ==> {
                &&& next.request() == (RequestView::Show { mode: RunMode::Kill })
                &&& s.results[i].free == Some(false) ==> i < at || i == at && j <= row
                &&& next.results[i].processes[j].status == ProcessStatus::Failed ==> next.step(
                    ReplyView::Shown,
                ).request() == (RequestView::Exit { code: 2 })
                &&& (forall|m: int, n: int|
                    0 <= m < next.results.len() && 0 <= n < next.results[m].processes.len() ==> (
                    #[trigger] next.results[m].processes[n]).status != ProcessStatus::Failed)
                    ==> next.step(ReplyView::Shown).request() == (RequestView::Exit { code: 0 })
            }
        }),
{
    let done = s.closed(at, row, escalation.delivered(), result);
    let next = s.step(ReplyView::Kill(reply));
    lemma_next_row(done.results, at, row + 1);
    assert(next == done.killing_from(at, row + 1));
    if s.results[i].free == Some(false) && (i > at || i == at && j > row) {
        assert(is_row(done.results, i, j));
    }
    if !(next.phase is Killing) {
        assert(next_row(done.results, at, row + 1) is None);
        if next.results[i].processes[j].status == ProcessStatus::Failed {
            assert(any_failed(done.results));
        }
    }
}

/// What a row says of its process when the attempt has come to an end. What is known of the
/// process stays.
pub proof fn law_settled(
    row: ProcessResultView,
    port: u16,
    result: Result<KillOutcomeView, AppErrorView>,
)
    ensures
        ({
            let after = settled(row, port, result);
            &&& after.info() == row.info()
            &&& result matches Ok(KillOutcomeView::GracefulSuccess { .. }) ==> after.status
                == ProcessStatus::Terminated && after.signal == Some(SignalKind::Sigterm)
                && after.error == row.error
            &&& result matches Ok(KillOutcomeView::ForcefulSuccess { .. }) ==> after.status
                == ProcessStatus::Killed && after.signal == Some(SignalKind::Sigkill) && after.error
                == row.error
            &&& result matches Ok(KillOutcomeView::Failed { reason, .. }) ==> after.status
                == ProcessStatus::Failed && after.signal == row.signal && after.error == Some(reason)
            &&& result is Err ==> after.status == ProcessStatus::Failed && after.signal
                == row.signal && after.error is Some
            &&& result matches Err(AppErrorView::AccessDenied { port: _ }) ==> {
                let message = after.error->0;
                &&& occurs(message, "permission denied"@)
                &&& occurs(message, dec(row.pid as nat))
                &&& occurs(message, dec(port as nat))
                &&& occurs(message, "sudo"@)
            }
            &&& result matches Err(e) ==> e is AccessDenied || after.error == Some(e.text())
        }),
{
    if result is Err && result->Err_0 is AccessDenied {
        lemma_denied(port, row.pid);
    }
}

proof fn lemma_denied(port: u16, pid: u32)
    ensures
        ({
            let message = kill_error(AppErrorView::AccessDenied { port }, port, pid);
            &&& occurs(message, "permission denied"@)
            &&& occurs(message, dec(pid as nat))
            &&& occurs(message, dec(port as nat))
            &&& occurs(message, "sudo"@)
            &&& forall|other: u16|
                #[trigger] kill_error(AppErrorView::AccessDenied { port: other }, port, pid)
                    == message
        }),
{
    let head = "permission denied signalling PID "@;
    let on = " on port "@;
    let end = "; try running `pk` with sudo"@;
    let p = dec(pid as nat);
    let q = dec(port as nat);
    let message = head + p + on + q + end;
    law_part_occurs(head, p, on + q + end);
    assert(message =~= head + p + (on + q + end));
    law_part_occurs(head + p + on, q, end);
    assert(message =~= head + p + on + q + end);
    lemma_denied_ends(head, end);
    let rest = p + on + q + end;
    assert(message =~= Seq::<char>::empty() + "permission denied"@ + (head.skip(17) + rest)) by {
        reveal_strlit("permission denied");
        reveal_strlit("permission denied signalling PID ");
    }
    law_part_occurs(Seq::empty(), "permission denied"@, head.skip(17) + rest);
    let front = head + p + on + q;
    assert(message =~= front + end.take(24) + "sudo"@ + Seq::<char>::empty()) by {
        reveal_strlit("sudo");
        reveal_strlit("; try running `pk` with sudo");
    }
    law_part_occurs(front + end.take(24), "sudo"@, Seq::empty());
}

proof fn lemma_denied_ends(head: Seq<char>, end: Seq<char>)
    requires
        head == "permission denied signalling PID "@,
        end == "; try running `pk` with sudo"@,
    ensures
        head == "permission denied"@ + head.skip(17),
        end == end.take(24) + "sudo"@,
{
    reveal_strlit("permission denied");
    reveal_strlit("permission denied signalling PID ");
    reveal_strlit("sudo");
    reveal_strlit("; try running `pk` with sudo");
    assert(head =~= "permission denied"@ + head.skip(17));
    assert(end =~= end.take(24) + "sudo"@);
}

/// The last signal that has reached a process is the last one that was recorded for it;
/// what is recorded for others does not count.
pub proof fn law_last_signal(reached: Seq<(u32, Signal)>, pid: u32, other: u32, signal: Signal)
    ensures
        last_signal(Seq::empty(), pid) is None,
        last_signal(reached.push((pid, signal)), pid) == Some(signal),
        other != pid ==> last_signal(reached.push((other, signal)), pid) == last_signal(
            reached,
            pid,
        ),
{
    assert(reached.push((pid, signal)).drop_last() =~= reached);
    assert(reached.push((other, signal)).drop_last() =~= reached);
}

// ---------------------------------------------------------------------------
// The exit code
// ---------------------------------------------------------------------------

/// The exit code of a run, by what its results say: 1 if all of its ports are free; else 3 if
/// none could be inspected, or it had to be refused; else 2 if some process could not be
/// ended; else 0.
pub proof fn law_exit_code_says(
    cli: Cli,
    cfg: KillConfig,
    ports: Seq<u16>,
    replies: Seq<ReplyView>,
    code: i32,
)
    requires
        SessionView::with_ports(cli, cfg, ports).after(replies).request() == (RequestView::Exit {
            code,
        }),
    ensures
        ({
            let results = SessionView::with_ports(cli, cfg, ports).after(replies).results;
            let free = forall|i: int|
                0 <= i < results.len() ==> (#[trigger] results[i]).free == Some(true);
            let wrong = forall|i: int|
                0 <= i < results.len() ==> (#[trigger] results[i]).error is Some;
            let refused = cli.json && cli.kill && !cli.force;
            let failed = exists|i: int, j: int|
                0 <= i < results.len() && 0 <= j < results[i].processes.len() && (
                #[trigger] results[i].processes[j]).status == ProcessStatus::Failed;
            &&& free ==> code == 1
            &&& !free && (wrong || refused) ==> code == 3
            &&& !free && !wrong && !refused && failed ==> code == 2
            &&& !free && !wrong && !refused && !failed ==> code == 0
        }),
{
    crate::app::laws::law_exit_code(cli, cfg, ports, replies, code);
    let s = SessionView::with_ports(cli, cfg, ports).after(replies);
    lemma_flags(SessionView::with_ports(cli, cfg, ports), replies);
    lemma_begun_flags(cli, cfg, ports);
    let results = s.results;
    if all_free(results) {
        assert forall|i: int| 0 <= i < results.len() implies (#[trigger] results[i]).free == Some(
            true,
        ) by {
            assert(results[i].is_free());
        }
    } else {
        let i = choose|i: int| 0 <= i < results.len() && !(#[trigger] results[i]).is_free();
        assert(results[i].free != Some(true));
    }
    if all_errors(results) {
        assert forall|i: int| 0 <= i < results.len() implies (
        #[trigger] results[i]).error is Some by {
            assert(results[i].is_error());
        }
    } else {
        let i = choose|i: int| 0 <= i < results.len() && !(#[trigger] results[i]).is_error();
        assert(!(results[i].error is Some));
    }
}

// ---------------------------------------------------------------------------
// The user's answer
// ---------------------------------------------------------------------------

/// Whether the text is `y` or `yes`, each letter in either case.
pub open spec fn is_yes(word: Seq<char>) -> bool {
    ||| word.len() == 1 && (word[0] == 'y' || word[0] == 'Y')
    ||| {
        &&& word.len() == 3
        &&& word[0] == 'y' || word[0] == 'Y'
        &&& word[1] == 'e' || word[1] == 'E'
        &&& word[2] == 's' || word[2] == 'S'
    }
}

/// An answer is a yes exactly if, without the white space around it, it is `y` or `yes`, each
/// letter in either case. An empty answer is none.
pub proof fn law_says_yes(before: Seq<char>, word: Seq<char>, after: Seq<char>)
    requires
        is_blank(before),
        is_blank(after),
        word.len() > 0 ==> !white(word[0]) && !white(word.last()),
    ensures
        says_yes(before + word + after) <==> is_yes(word),
{
    law_trim(before, word, after);
    reveal_strlit("y");
    reveal_strlit("yes");
    let low = lowered(word);
    assert(low.len() == word.len());
    assert forall|i: int| 0 <= i < word.len() implies #[trigger] low[i] == lower(word[i]) by {}
    if is_yes(word) {
        if word.len() == 1 {
            assert(low =~= "y"@);
        } else {
            assert(low =~= "yes"@);
        }
    }
    if low == "y"@ {
        assert(low[0] == 'y');
    }
    if low == "yes"@ {
        assert(low[0] == 'y' && low[1] == 'e' && low[2] == 's');
    }
}

// ---------------------------------------------------------------------------
// What is written
// ---------------------------------------------------------------------------

/// In JSON, what is written is the report and a line feed, in whatever mode.
pub proof fn law_json_is_written(
    results: Seq<PortResultView>,
    mode: RunMode,
    other: RunMode,
    out: Seq<char>,
)
    requires
        shows(results, true, mode, out),
    ensures
        shows(results, true, other, out),
        out.len() > 0,
        out.last() == '\n',
        out.drop_last() == json_text(report(results)),
{
    reveal_strlit("\n");
    assert(out.drop_last() =~= json_text(report(results)));
}

/// Without JSON, what is written says what was done: that a dry run sent nothing, that after a
/// no nothing was ended, why a process could not be ended.
pub proof fn law_mode_is_shown(
    results: Seq<PortResultView>,
    mode: RunMode,
    out: Seq<char>,
    i: int,
    j: int,
    reason: Seq<char>,
)
    requires
        shows(results, false, mode, out),
        0 <= i < results.len(),
        results[i].free == Some(false),
        results[i].error is None,
    ensures
        mode == RunMode::DryRun ==> occurs(out, "Dry run — no signals were sent.\n"@),
        mode == RunMode::Aborted ==> occurs(out, "Aborted — no processes were terminated.\n"@),
        mode == RunMode::Inspect ==> occurs(out, "pk --kill "@ + dec(results[i].port as nat)),
        mode == RunMode::Kill && (forall|k: int|
            0 <= k < results[i].processes.len() ==> (#[trigger] results[i].processes[k]).status
                != ProcessStatus::Failed) ==> occurs(out, " is now free.\n"@),
        mode == RunMode::Kill && 0 <= j < results[i].processes.len()
            && results[i].processes[j].status == ProcessStatus::Failed
            && results[i].processes[j].error == Some(reason) && !occurs(reason, reset())
            ==> occurs(out, reason),
{
    if mode == RunMode::DryRun {
        law_dry_run_says_what_would_be_done(results, out, i);
    } else if mode == RunMode::Aborted {
        law_no_is_confirmed(results, out, i);
    } else if mode == RunMode::Inspect {
        law_inspection_says_how_to_go_on(results, out, i);
    } else if mode == RunMode::Kill {
        if forall|k: int|
            0 <= k < results[i].processes.len() ==> (#[trigger] results[i].processes[k]).status
                != ProcessStatus::Failed {
            law_success_is_shown(results, out, i);
        }
        if 0 <= j < results[i].processes.len() && results[i].processes[j].status
            == ProcessStatus::Failed && results[i].processes[j].error == Some(reason) && !occurs(
            reason,
            reset(),
        ) {
            law_every_failure_is_shown(results, out, i, j, reason);
        }
    }
}

/// The view of an answer tells each process, or the error.
pub proof fn law_answer_view(processes: Vec<ProcessInfo>, e: AppError, i: int)
    ensures
        answer_view(Ok(processes)) matches Ok(shown) && shown.len() == processes@.len() && (0 <= i
            < shown.len() ==> shown[i] == processes@[i]@),
        answer_view(Err(e)) == Err::<Seq<ProcessInfoView>, AppErrorView>(e@),
{
}

} // verus!
