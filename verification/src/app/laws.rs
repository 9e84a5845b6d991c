//! What holds of every run, whatever the system and the user answer.

use vstd::prelude::*;

use crate::app::exit;
use crate::app::session::{
    is_row, lemma_next_row, refusal, PhaseView, ReplyView, RequestView, SessionView, Then,
};
use crate::app::{
    all_errors, all_free, any_failed, any_names_processes, kill_error, last_signal, names_processes,
    next_row, port_result, port_results, settled, stamped, AnswerView,
};
use crate::cli::args::Cli;
use crate::error::AppErrorView;
use crate::kill::signal::Signal;
use crate::kill::{
    law_progress, stuck, EscalationView, KillConfig, KillOutcomeView, KillReplyView, KillRequest,
    StageView,
};
use crate::process::enrich::{enriched, ProcessFactsView};
use crate::render::types::{
    PortResultView, ProcessResultView, ProcessStatus, RunMode, SignalKind,
};

verus! {

// ---------------------------------------------------------------------------
// The invariant
// ---------------------------------------------------------------------------

/// A port as it was when it had been inspected.
pub open spec fn as_found(result: PortResultView) -> PortResultView {
    PortResultView {
        processes: result.processes.map_values(
            |row: ProcessResultView| ProcessResultView::of(row.info()),
        ),
        ..result
    }
}

/// The ports as they were when they had been inspected.
pub open spec fn all_as_found(results: Seq<PortResultView>) -> Seq<PortResultView> {
    results.map_values(|result: PortResultView| as_found(result))
}

/// Whether the results are what the platform answered and the snapshot knows, but
/// for what happened to the processes since.
pub open spec fn faithful_to(s: SessionView, facts: Seq<ProcessFactsView>) -> bool {
    all_as_found(s.results) == port_results(s.ports, s.answers, facts)
}

/// Whether the results are what the platform answered, completed from some
/// snapshot, but for what happened to the processes since.
pub open spec fn faithful(s: SessionView) -> bool {
    s.answers.len() == s.ports.len() && exists|facts: Seq<ProcessFactsView>| faithful_to(s, facts)
}

/// Whether nothing has happened to any process.
pub open spec fn untouched(results: Seq<PortResultView>) -> bool {
    forall|i: int, j: int|
        0 <= i < results.len() && 0 <= j < results[i].processes.len() ==> (
        #[trigger] results[i].processes[j]).status == ProcessStatus::Info
}

/// Whether something has come of a row: its process was ended, or could not be.
pub open spec fn attempted(status: ProcessStatus) -> bool {
    status == ProcessStatus::Terminated || status == ProcessStatus::Killed || status
        == ProcessStatus::Failed
}

/// Whether something has come of each row before row `row` of port number `at`, and of
/// no other.
pub open spec fn attempted_up_to(results: Seq<PortResultView>, at: int, row: int) -> bool {
    forall|i: int, j: int|
        0 <= i < results.len() && 0 <= j < results[i].processes.len() ==> if i < at || i == at && j
            < row {
            attempted((#[trigger] results[i].processes[j]).status)
        } else {
            results[i].processes[j].status == ProcessStatus::Info
        }
}

/// Whether something has come of each row.
pub open spec fn all_attempted(results: Seq<PortResultView>) -> bool {
    forall|i: int, j: int|
        0 <= i < results.len() && 0 <= j < results[i].processes.len() ==> attempted(
            (#[trigger] results[i].processes[j]).status,
        )
}

/// Whether the request has to be refused because it would have to ask the user.
pub open spec fn unaskable(s: SessionView) -> bool {
    s.json && s.kill && !s.force
}

/// Whether processes are to be ended, given what was found and asked for.
pub open spec fn kills(s: SessionView) -> bool {
    &&& !all_free(s.results)
    &&& !all_errors(s.results)
    &&& !unaskable(s)
    &&& !s.dry_run
    &&& s.kill || s.force
}

/// The exit code that the results, and what was asked for, come to.
pub open spec fn exit_code(s: SessionView) -> i32 {
    if all_free(s.results) {
        exit::NOTHING_FOUND
    } else if all_errors(s.results) || unaskable(s) {
        exit::USAGE_OR_INTERNAL
    } else if any_failed(s.results) {
        exit::KILL_FAILED
    } else {
        exit::OK
    }
}

/// What holds of a run with valid ports, wherever it stands.
pub open spec fn sound(s: SessionView) -> bool {
    match s.phase {
        PhaseView::Inspecting => s.answers.len() < s.ports.len(),
        PhaseView::Snapshotting => s.answers.len() == s.ports.len() && any_names_processes(
            s.answers,
        ),
        PhaseView::Refused { message } => {
            &&& faithful(s)
            &&& untouched(s.results)
            &&& unaskable(s) && !all_free(s.results) && !all_errors(s.results)
            &&& message == refusal()
        },
        PhaseView::Showing { mode, then: Then::Ask } => {
            &&& faithful(s)
            &&& untouched(s.results)
            &&& kills(s) && !s.force
            &&& mode == RunMode::Confirming
        },
        PhaseView::Showing { mode, then: Then::Exit { code } } => {
            &&& faithful(s)
            &&& code == exit_code(s)
            &&& match mode {
                RunMode::Inspect => untouched(s.results),
                RunMode::DryRun => s.dry_run,
                RunMode::Kill => kills(s) && all_attempted(s.results),
                RunMode::Aborted => kills(s) && !s.force && untouched(s.results),
                RunMode::Confirming => false,
            }
        },
        PhaseView::Asking => {
            &&& faithful(s)
            &&& untouched(s.results)
            &&& kills(s) && !s.force
        },
        PhaseView::Killing { at, row, escalation } => {
            &&& faithful(s)
            &&& kills(s)
            &&& is_row(s.results, at, row)
            &&& attempted_up_to(s.results, at, row)
            &&& escalation.stage !is Finished
            &&& exists|replies: Seq<KillReplyView>|
                escalation == #[trigger] s.first_step(at, row).after(replies)
        },
        PhaseView::Over { code } => faithful(s) && code == exit_code(s),
    }
}

proof fn lemma_results_untouched(
    ports: Seq<u16>,
    answers: Seq<AnswerView>,
    facts: Seq<ProcessFactsView>,
)
    requires
        ports.len() == answers.len(),
    ensures
        untouched(port_results(ports, answers, facts)),
        all_as_found(port_results(ports, answers, facts)) == port_results(ports, answers, facts),
{
    let results = port_results(ports, answers, facts);
    assert forall|i: int| 0 <= i < results.len() implies as_found(#[trigger] results[i])
        == results[i] by {
        assert(as_found(results[i]).processes =~= results[i].processes);
    }
    assert(all_as_found(results) =~= results);
}

proof fn lemma_no_rows(s: SessionView)
    requires
        faithful(s),
    ensures
        forall|i: int|
            0 <= i < s.results.len() && !(#[trigger] s.results[i]).is_occupied()
                ==> s.results[i].processes.len() == 0,
        forall|i: int|
            0 <= i < s.results.len() && (#[trigger] s.results[i]).is_occupied()
                ==> s.results[i].processes.len() > 0,
        s.results.len() == s.ports.len(),
{
    let facts = choose|facts: Seq<ProcessFactsView>| faithful_to(s, facts);
    let found = port_results(s.ports, s.answers, facts);
    assert(all_as_found(s.results).len() == found.len());
    assert forall|i: int| 0 <= i < s.results.len() implies (#[trigger] s.results[i]).free
        == found[i].free && s.results[i].processes.len() == found[i].processes.len() by {
        assert(all_as_found(s.results)[i] == found[i]);
    }
}

proof fn lemma_killing_from(s: SessionView, at: int, row: int)
    requires
        faithful(s),
        kills(s),
        0 <= at,
        0 <= row,
        attempted_up_to(s.results, at, row),
    ensures
        sound(s.killing_from(at, row)),
{
    lemma_next_row(s.results, at, row);
    lemma_no_rows(s);
    let next = s.killing_from(at, row);
    assert(next.results == s.results);
    let facts = choose|facts: Seq<ProcessFactsView>| faithful_to(s, facts);
    assert(faithful_to(next, facts));
    match next_row(s.results, at, row) {
        Some((a, b)) => {
            assert(next.first_step(a, b).after(Seq::empty()) == next.first_step(a, b));
            assert forall|i: int, j: int|
                0 <= i < s.results.len() && 0 <= j < s.results[i].processes.len() implies if i < a
                || i == a && j < b {
                attempted((#[trigger] s.results[i].processes[j]).status)
            } else {
                s.results[i].processes[j].status == ProcessStatus::Info
            } by {
                assert(is_row(s.results, i, j));
            }
        },
        None => {
            assert forall|i: int, j: int|
                0 <= i < s.results.len() && 0 <= j < s.results[i].processes.len() implies attempted(
                (#[trigger] s.results[i].processes[j]).status,
            ) by {
                assert(is_row(s.results, i, j));
            }
        },
    }
}

proof fn lemma_decided(s: SessionView, facts: Seq<ProcessFactsView>)
    requires
        s.answers.len() == s.ports.len(),
    ensures
        sound(s.decided(port_results(s.ports, s.answers, facts))),
{
    let results = port_results(s.ports, s.answers, facts);
    lemma_results_untouched(s.ports, s.answers, facts);
    let session = SessionView { results, ..s };
    assert(faithful_to(session, facts));
    let next = s.decided(results);
    assert(!any_failed(results));
    if all_free(results) {
        assert(faithful_to(next, facts));
    } else if all_errors(results) {
        assert(faithful_to(next, facts));
    } else if unaskable(s) {
        assert(faithful_to(next, facts));
    } else if s.dry_run {
        lemma_stamped(results, s.force);
        assert(faithful_to(next, facts));
    } else if s.kill || s.force {
        if s.force {
            assert(attempted_up_to(results, 0, 0));
            lemma_killing_from(session, 0, 0);
        } else {
            assert(faithful_to(next, facts));
        }
    } else {
        assert(faithful_to(next, facts));
    }
}

proof fn lemma_stamped(results: Seq<PortResultView>, force: bool)
    requires
        untouched(results),
    ensures
        ({
            let after = results.map_values(|result: PortResultView| stamped(result, force));
            &&& all_as_found(after) == all_as_found(results)
            &&& all_free(after) == all_free(results)
            &&& all_errors(after) == all_errors(results)
            &&& !any_failed(after)
        }),
{
    let after = results.map_values(|result: PortResultView| stamped(result, force));
    assert forall|i: int| 0 <= i < results.len() implies as_found(#[trigger] after[i]) == as_found(
        results[i],
    ) by {
        assert(after[i] == stamped(results[i], force));
        assert(as_found(after[i]).processes =~= as_found(results[i]).processes);
    }
    assert(all_as_found(after) =~= all_as_found(results));
    assert forall|i: int| 0 <= i < results.len() implies (#[trigger] after[i]).is_free()
        == results[i].is_free() && after[i].is_error() == results[i].is_error() by {
        assert(after[i] == stamped(results[i], force));
    }
    if all_free(after) {
        assert forall|i: int| 0 <= i < results.len() implies (#[trigger] results[i]).is_free() by {
            assert(after[i].is_free());
        }
    }
    if all_errors(after) {
        assert forall|i: int| 0 <= i < results.len() implies (#[trigger] results[i]).is_error() by {
            assert(after[i].is_error());
        }
    }
    assert forall|i: int, j: int|
        0 <= i < after.len() && 0 <= j < after[i].processes.len() implies (
    #[trigger] after[i].processes[j]).status != ProcessStatus::Failed by {
        assert(after[i] == stamped(results[i], force));
        assert(results[i].processes[j].status == ProcessStatus::Info);
    }
}

/// What comes of the row that was attempted, and what stays.
proof fn lemma_closed(
    s: SessionView,
    at: int,
    row: int,
    delivered: Option<Signal>,
    result: Result<KillOutcomeView, AppErrorView>,
)
    requires
        is_row(s.results, at, row),
    ensures
        ({
            let next = s.closed(at, row, delivered, result);
            let pid = s.results[at].processes[row].pid;
            &&& next.results.len() == s.results.len()
            &&& forall|i: int|
                0 <= i < s.results.len() ==> {
                    &&& (#[trigger] next.results[i]).processes.len()
                        == s.results[i].processes.len()
                    &&& next.results[i].port == s.results[i].port
                    &&& next.results[i].is_free() == s.results[i].is_free()
                    &&& next.results[i].is_error() == s.results[i].is_error()
                    &&& next.results[i].is_occupied() == s.results[i].is_occupied()
                    &&& as_found(next.results[i]) == as_found(s.results[i])
                }
            &&& attempted(next.results[at].processes[row].status)
            &&& forall|i: int, j: int|
                0 <= i < s.results.len() && 0 <= j < s.results[i].processes.len() ==> {
                    let was = s.results[i].processes[j];
                    let now = #[trigger] next.results[i].processes[j];
                    &&& now.pid == was.pid
                    &&& now == was || i == at && j == row
                }
            &&& next.reached == if delivered is Some {
                s.reached.push((pid, delivered->0))
            } else {
                s.reached
            }
        }),
{
    let next = s.closed(at, row, delivered, result);
    assert forall|i: int| 0 <= i < s.results.len() implies as_found(#[trigger] next.results[i])
        == as_found(s.results[i]) by {
        assert(as_found(next.results[i]).processes =~= as_found(s.results[i]).processes);
    }
}

/// What a run keeps when an attempt has come to an end.
proof fn lemma_settled(
    s: SessionView,
    at: int,
    row: int,
    delivered: Option<Signal>,
    result: Result<KillOutcomeView, AppErrorView>,
)
    requires
        faithful(s),
        kills(s),
        is_row(s.results, at, row),
        attempted_up_to(s.results, at, row),
    ensures
        faithful(s.closed(at, row, delivered, result)),
        kills(s.closed(at, row, delivered, result)),
        attempted_up_to(s.closed(at, row, delivered, result).results, at, row + 1),
{
    let next = s.closed(at, row, delivered, result);
    lemma_closed(s, at, row, delivered, result);
    let facts = choose|facts: Seq<ProcessFactsView>| faithful_to(s, facts);
    assert(all_as_found(next.results) =~= all_as_found(s.results));
    assert(faithful_to(next, facts));
    if all_free(next.results) {
        assert forall|i: int| 0 <= i < s.results.len() implies (
        #[trigger] s.results[i]).is_free() by {
            assert(next.results[i].is_free());
        }
    }
    if all_errors(next.results) {
        assert forall|i: int| 0 <= i < s.results.len() implies (
        #[trigger] s.results[i]).is_error() by {
            assert(next.results[i].is_error());
        }
    }
    assert forall|i: int, j: int|
        0 <= i < next.results.len() && 0 <= j < next.results[i].processes.len() implies if i < at
        || i == at && j < row + 1 {
        attempted((#[trigger] next.results[i].processes[j]).status)
    } else {
        next.results[i].processes[j].status == ProcessStatus::Info
    } by {
        let was = s.results[i].processes[j];
        assert(next.results[i].processes.len() == s.results[i].processes.len());
        assert(was == s.results[i].processes[j]);
    }
}

proof fn lemma_step(s: SessionView, reply: ReplyView)
    requires
        sound(s),
    ensures
        sound(s.step(reply)),
{
    let next = s.step(reply);
    match (s.phase, reply) {
        (PhaseView::Inspecting, ReplyView::Inspected(answer)) => {
            let session = SessionView { answers: s.answers.push(answer), ..s };
            if session.answers.len() == s.ports.len() && !any_names_processes(session.answers) {
                lemma_decided(session, Seq::empty());
            }
        },
        (PhaseView::Snapshotting, ReplyView::Snapshot(facts)) => {
            lemma_decided(s, facts);
        },
        (PhaseView::Asking, ReplyView::Confirmed(go_on)) => {
            if go_on {
                assert(attempted_up_to(s.results, 0, 0));
                lemma_killing_from(s, 0, 0);
            } else {
                let facts = choose|facts: Seq<ProcessFactsView>| faithful_to(s, facts);
                assert(faithful_to(next, facts));
                assert(!any_failed(s.results));
            }
        },
        (PhaseView::Killing { at, row, escalation }, ReplyView::Kill(reply)) => {
            match escalation.step(reply).stage {
                StageView::Finished(result) => {
                    let delivered = escalation.delivered();
                    lemma_settled(s, at, row, delivered, result);
                    lemma_killing_from(s.closed(at, row, delivered, result), at, row + 1);
                },
                _ => {
                    let facts = choose|facts: Seq<ProcessFactsView>| faithful_to(s, facts);
                    assert(faithful_to(next, facts));
                    let start = s.first_step(at, row);
                    let before = choose|replies: Seq<KillReplyView>|
                        escalation == #[trigger] start.after(replies);
                    assert(before.push(reply).drop_last() =~= before);
                    assert(next.first_step(at, row).after(before.push(reply))
                        == escalation.step(reply));
                },
            }
        },
        (PhaseView::Showing { .. }, ReplyView::Shown) => {
            let facts = choose|facts: Seq<ProcessFactsView>| faithful_to(s, facts);
            assert(faithful_to(next, facts));
        },
        (PhaseView::Refused { .. }, ReplyView::Shown) => {
            let facts = choose|facts: Seq<ProcessFactsView>| faithful_to(s, facts);
            assert(faithful_to(next, facts));
        },
        _ => {},
    }
}

/// Every run with valid ports is sound from its beginning to its end.
pub proof fn law_sound(cli: Cli, cfg: KillConfig, ports: Seq<u16>, replies: Seq<ReplyView>)
    ensures
        sound(SessionView::with_ports(cli, cfg, ports).after(replies)),
    decreases replies.len(),
{
    if replies.len() == 0 {
        if ports.len() == 0 {
            let session = SessionView::begun(cli, cfg, ports, PhaseView::Inspecting);
            lemma_decided(session, Seq::empty());
            assert(port_results(ports, Seq::empty(), Seq::empty()) =~= Seq::<
                PortResultView,
            >::empty());
        }
    } else {
        law_sound(cli, cfg, ports, replies.drop_last());
        lemma_step(
            SessionView::with_ports(cli, cfg, ports).after(replies.drop_last()),
            replies.last(),
        );
    }
}

// ---------------------------------------------------------------------------
// Laws
// ---------------------------------------------------------------------------

/// Whether a run asks to end a process, or asks the user whether to.
pub open spec fn threatens(request: RequestView) -> bool {
    request is Kill || request is Confirm
}

/// A run that was not asked to end anything ends nothing, and does not ask to.
pub proof fn law_inspects_by_default(
    cli: Cli,
    cfg: KillConfig,
    ports: Seq<u16>,
    replies: Seq<ReplyView>,
)
    requires
        !cli.kill,
        !cli.force,
    ensures
        !threatens(SessionView::with_ports(cli, cfg, ports).after(replies).request()),
{
    law_sound(cli, cfg, ports, replies);
    lemma_flags(SessionView::with_ports(cli, cfg, ports), replies);
    lemma_begun_flags(cli, cfg, ports);
}

/// A dry run ends nothing, and does not ask to.
pub proof fn law_dry_run_ends_nothing(
    cli: Cli,
    cfg: KillConfig,
    ports: Seq<u16>,
    replies: Seq<ReplyView>,
)
    requires
        cli.dry_run,
    ensures
        !threatens(SessionView::with_ports(cli, cfg, ports).after(replies).request()),
{
    law_sound(cli, cfg, ports, replies);
    lemma_flags(SessionView::with_ports(cli, cfg, ports), replies);
    lemma_begun_flags(cli, cfg, ports);
}

/// A run that answers in JSON never asks the user, and without force it ends
/// nothing.
pub proof fn law_json_never_asks(
    cli: Cli,
    cfg: KillConfig,
    ports: Seq<u16>,
    replies: Seq<ReplyView>,
)
    requires
        cli.json,
    ensures
        ({
            let request = SessionView::with_ports(cli, cfg, ports).after(replies).request();
            &&& request !is Confirm
            &&& !cli.force ==> request !is Kill
        }),
{
    law_sound(cli, cfg, ports, replies);
    lemma_flags(SessionView::with_ports(cli, cfg, ports), replies);
    lemma_begun_flags(cli, cfg, ports);
}

/// Whether the reply at `k` is one to a request to show the results.
pub open spec fn shown_at(s: SessionView, replies: Seq<ReplyView>, k: int) -> bool {
    &&& 0 <= k < replies.len()
    &&& s.after(replies.take(k)).request() is Show
    &&& replies[k] is Shown
}

/// A run that answers in JSON shows its results once: what it writes is one
/// document.
pub proof fn law_json_is_one_document(
    cli: Cli,
    cfg: KillConfig,
    ports: Seq<u16>,
    replies: Seq<ReplyView>,
    k: int,
)
    requires
        cli.json,
        shown_at(SessionView::with_ports(cli, cfg, ports), replies, k),
    ensures
        SessionView::with_ports(cli, cfg, ports).after(replies).request() is Exit,
    decreases replies.len(),
{
    let s = SessionView::with_ports(cli, cfg, ports);
    let before = replies.drop_last();
    law_sound(cli, cfg, ports, before);
    lemma_flags(s, before);
    lemma_begun_flags(cli, cfg, ports);
    if k == replies.len() - 1 {
        assert(replies.take(k) =~= before);
    } else {
        assert(before.take(k) =~= replies.take(k));
        law_json_is_one_document(cli, cfg, ports, before, k);
    }
}

/// A forced run never asks the user, and the only signal it sends is `SIGKILL`.
pub proof fn law_force_never_asks(
    cli: Cli,
    cfg: KillConfig,
    ports: Seq<u16>,
    replies: Seq<ReplyView>,
)
    requires
        cli.force,
    ensures
        ({
            let request = SessionView::with_ports(cli, cfg, ports).after(replies).request();
            &&& request !is Confirm
            &&& request matches RequestView::Kill(KillRequest::Send { signal, .. }) ==> signal
                == Signal::Kill
        }),
{
    let s = SessionView::with_ports(cli, cfg, ports).after(replies);
    law_sound(cli, cfg, ports, replies);
    lemma_flags(SessionView::with_ports(cli, cfg, ports), replies);
    lemma_begun_flags(cli, cfg, ports);
    if let PhaseView::Killing { at, row, escalation } = s.phase {
        let before = choose|before: Seq<KillReplyView>|
            escalation == #[trigger] s.first_step(at, row).after(before);
        lemma_target(s.first_step(at, row), before);
    }
}

/// Whether the reply at `i` is one to the question whether to go on, and says yes.
pub open spec fn confirmed_at(s: SessionView, replies: Seq<ReplyView>, i: int) -> bool {
    &&& 0 <= i < replies.len()
    &&& s.after(replies.take(i)).request() is Confirm
    &&& replies[i] == ReplyView::Confirmed(true)
}

/// Whether the reply at `i` is one to the request to show, before the question,
/// what is about to be ended.
pub open spec fn warned_at(s: SessionView, replies: Seq<ReplyView>, i: int) -> bool {
    &&& 0 <= i < replies.len()
    &&& s.after(replies.take(i)).request() == (RequestView::Show { mode: RunMode::Confirming })
    &&& replies[i] is Shown
}

/// Without force, a process is ended only after the user was shown what is about
/// to be ended, was asked, and said yes.
pub proof fn law_ends_only_what_was_confirmed(
    cli: Cli,
    cfg: KillConfig,
    ports: Seq<u16>,
    replies: Seq<ReplyView>,
)
    requires
        !cli.force,
        SessionView::with_ports(cli, cfg, ports).after(replies).request() is Kill,
    ensures
        ({
            let s = SessionView::with_ports(cli, cfg, ports);
            exists|i: int, j: int|
                i < j && #[trigger] warned_at(s, replies, i) && #[trigger] confirmed_at(
                    s,
                    replies,
                    j,
                )
        }),
{
    lemma_confirmed(cli, cfg, ports, replies);
}

proof fn lemma_confirmed(cli: Cli, cfg: KillConfig, ports: Seq<u16>, replies: Seq<ReplyView>)
    requires
        !cli.force,
    ensures
        ({
            let s = SessionView::with_ports(cli, cfg, ports);
            let now = s.after(replies);
            &&& now.phase is Asking ==> exists|i: int| warned_at(s, replies, i)
            &&& now.phase is Killing ==> exists|i: int, j: int|
                i < j && #[trigger] warned_at(s, replies, i) && #[trigger] confirmed_at(
                    s,
                    replies,
                    j,
                )
        }),
    decreases replies.len(),
{
    let s = SessionView::with_ports(cli, cfg, ports);
    lemma_begun_flags(cli, cfg, ports);
    law_sound(cli, cfg, ports, replies);
    if replies.len() > 0 {
        let before = replies.drop_last();
        let n = replies.len() - 1;
        lemma_confirmed(cli, cfg, ports, before);
        law_sound(cli, cfg, ports, before);
        lemma_flags(s, before);
        assert(replies.take(n) =~= before);
        assert forall|i: int| #[trigger] warned_at(s, before, i) implies warned_at(
            s,
            replies,
            i,
        ) by {
            assert(before.take(i) =~= replies.take(i));
        }
        assert forall|i: int| #[trigger] confirmed_at(s, before, i) implies confirmed_at(
            s,
            replies,
            i,
        ) by {
            assert(before.take(i) =~= replies.take(i));
        }
        match (s.after(before).phase, replies.last()) {
            (PhaseView::Showing { then: Then::Ask, .. }, ReplyView::Shown) => {
                assert(warned_at(s, replies, n));
            },
            (PhaseView::Asking, ReplyView::Confirmed(true)) => {
                assert(confirmed_at(s, replies, n));
            },
            _ => {},
        }
    }
}

/// Once the user has said no, nothing is ended, and nothing has been.
pub proof fn law_no_means_no(
    cli: Cli,
    cfg: KillConfig,
    ports: Seq<u16>,
    before: Seq<ReplyView>,
    replies: Seq<ReplyView>,
)
    requires
        SessionView::with_ports(cli, cfg, ports).after(before).request() is Confirm,
    ensures
        ({
            let s = SessionView::with_ports(cli, cfg, ports).after(before);
            let now = s.step(ReplyView::Confirmed(false)).after(replies);
            &&& !threatens(now.request())
            &&& untouched(now.results)
        }),
{
    law_sound(cli, cfg, ports, before);
    let s = SessionView::with_ports(cli, cfg, ports).after(before);
    lemma_leaving(s.step(ReplyView::Confirmed(false)), replies);
}

proof fn lemma_leaving(s: SessionView, replies: Seq<ReplyView>)
    requires
        s.phase matches PhaseView::Showing { then: Then::Exit { .. }, .. },
    ensures
        ({
            let now = s.after(replies);
            &&& now.phase == s.phase || now.phase is Over
            &&& now.results == s.results
        }),
    decreases replies.len(),
{
    if replies.len() > 0 {
        lemma_leaving(s, replies.drop_last());
    }
}

/// A signal goes only to a process that the platform named for one of the ports
/// that were asked for.
pub proof fn law_signals_only_occupants(
    cli: Cli,
    cfg: KillConfig,
    ports: Seq<u16>,
    replies: Seq<ReplyView>,
    pid: u32,
    signal: Signal,
)
    requires
        SessionView::with_ports(cli, cfg, ports).after(replies).request() == RequestView::Kill(
            KillRequest::Send { pid, signal },
        ),
    ensures
        ({
            let s = SessionView::with_ports(cli, cfg, ports).after(replies);
            &&& s.ports == ports
            &&& s.answers.len() == ports.len()
            &&& exists|i: int, j: int|
                0 <= i < ports.len() && (s.answers[i] matches Ok(processes) && 0 <= j
                    < processes.len() && (#[trigger] (s.answers[i]->Ok_0)[j]).pid == pid)
        }),
{
    let s = SessionView::with_ports(cli, cfg, ports).after(replies);
    law_sound(cli, cfg, ports, replies);
    lemma_flags(SessionView::with_ports(cli, cfg, ports), replies);
    lemma_begun_flags(cli, cfg, ports);
    lemma_no_rows(s);
    if let PhaseView::Killing { at, row, escalation } = s.phase {
        let before = choose|before: Seq<KillReplyView>|
            escalation == #[trigger] s.first_step(at, row).after(before);
        lemma_target(s.first_step(at, row), before);
        let facts = choose|facts: Seq<ProcessFactsView>| faithful_to(s, facts);
        let found = port_results(s.ports, s.answers, facts);
        assert(all_as_found(s.results)[at] == found[at]);
        assert(as_found(s.results[at]).processes[row].pid == s.results[at].processes[row].pid);
        assert(found[at] == port_result(ports[at], s.answers[at], facts));
        assert(names_processes(s.answers[at]));
        let processes = s.answers[at]->Ok_0;
        assert(found[at].processes.len() == processes.len());
        assert(found[at].processes[row] == ProcessResultView::of(enriched(facts, processes[row])));
        assert(processes[row].pid == pid);
    }
}

/// The results stand in the order of the ports that were asked for, one for each,
/// and say what the platform answered.
pub proof fn law_results_follow_ports(
    cli: Cli,
    cfg: KillConfig,
    ports: Seq<u16>,
    replies: Seq<ReplyView>,
    i: int,
)
    requires
        SessionView::with_ports(cli, cfg, ports).after(replies).request() is Show,
        0 <= i < ports.len(),
    ensures
        ({
            let s = SessionView::with_ports(cli, cfg, ports).after(replies);
            &&& s.results.len() == ports.len()
            &&& s.results[i].port == ports[i]
            &&& s.results[i].is_error() <==> s.answers[i] is Err
            &&& s.results[i].is_occupied() <==> names_processes(s.answers[i])
            &&& s.results[i].is_free() <==> (s.answers[i] is Ok && !names_processes(s.answers[i]))
        }),
{
    let s = SessionView::with_ports(cli, cfg, ports).after(replies);
    law_sound(cli, cfg, ports, replies);
    lemma_flags(SessionView::with_ports(cli, cfg, ports), replies);
    lemma_begun_flags(cli, cfg, ports);
    lemma_no_rows(s);
    let facts = choose|facts: Seq<ProcessFactsView>| faithful_to(s, facts);
    let found = port_results(s.ports, s.answers, facts);
    assert(all_as_found(s.results)[i] == found[i]);
}

/// A snapshot of the system is taken only when every port has been inspected and
/// one of them is occupied.
pub proof fn law_snapshot_only_when_needed(
    cli: Cli,
    cfg: KillConfig,
    ports: Seq<u16>,
    replies: Seq<ReplyView>,
)
    requires
        SessionView::with_ports(cli, cfg, ports).after(replies).request() is Snapshot,
    ensures
        ({
            let s = SessionView::with_ports(cli, cfg, ports).after(replies);
            s.answers.len() == s.ports.len() && any_names_processes(s.answers)
        }),
{
    law_sound(cli, cfg, ports, replies);
}

/// The exit code says what happened: 1 if every port was free; else 3 if no port
/// could be inspected or the request had to be refused; else 2 if some process
/// could not be ended; else 0.
pub proof fn law_exit_code(
    cli: Cli,
    cfg: KillConfig,
    ports: Seq<u16>,
    replies: Seq<ReplyView>,
    code: i32,
)
    requires
        SessionView::with_ports(cli, cfg, ports).after(replies).request() == (RequestView::Exit {
            code,
        }),
    ensures
        code == exit_code(SessionView::with_ports(cli, cfg, ports).after(replies)),
{
    law_sound(cli, cfg, ports, replies);
}

/// When the results of a kill are shown, something has come of every row: its process
/// was ended, or could not be.
pub proof fn law_every_process_is_attempted(
    cli: Cli,
    cfg: KillConfig,
    ports: Seq<u16>,
    replies: Seq<ReplyView>,
)
    requires
        SessionView::with_ports(cli, cfg, ports).after(replies).request() == (RequestView::Show {
            mode: RunMode::Kill,
        }),
    ensures
        all_attempted(SessionView::with_ports(cli, cfg, ports).after(replies).results),
{
    law_sound(cli, cfg, ports, replies);
}

/// The rows are gone through one after the other: while one is, something has come of
/// every one before it, and of none after it. A run never goes back to a row.
pub proof fn law_one_attempt_each(
    cli: Cli,
    cfg: KillConfig,
    ports: Seq<u16>,
    replies: Seq<ReplyView>,
    reply: ReplyView,
    at: int,
    row: int,
    escalation: EscalationView,
)
    requires
        SessionView::with_ports(cli, cfg, ports).after(replies).phase == (PhaseView::Killing {
            at,
            row,
            escalation,
        }),
    ensures
        ({
            let s = SessionView::with_ports(cli, cfg, ports).after(replies);
            let next = s.step(reply);
            &&& attempted_up_to(s.results, at, row)
            &&& next.phase matches PhaseView::Killing { at: a, row: b, escalation: e } ==> {
                ||| a == at && b == row && (reply matches ReplyView::Kill(r) && e
                    == escalation.step(r) || e == escalation)
                ||| (a > at || a == at && b > row) && e == next.first_step(a, b)
            }
        }),
{
    law_sound(cli, cfg, ports, replies);
    let s = SessionView::with_ports(cli, cfg, ports).after(replies);
    if let ReplyView::Kill(r) = reply {
        if let StageView::Finished(result) = escalation.step(r).stage {
            lemma_next_row(
                s.closed(at, row, escalation.delivered(), result).results,
                at,
                row + 1,
            );
        }
    }
}

/// Whether the reply at `k` is one to the request to send `signal` to `pid`, and says
/// that it was delivered.
pub open spec fn sent_at(
    s: SessionView,
    replies: Seq<ReplyView>,
    k: int,
    pid: u32,
    signal: Signal,
) -> bool {
    &&& 0 <= k < replies.len()
    &&& s.after(replies.take(k)).request() == RequestView::Kill(KillRequest::Send { pid, signal })
    &&& replies[k] matches ReplyView::Kill(KillReplyView::Sent(Ok(_)))
}

/// Whether the reply at `k` is one to the request to send a signal to `pid`, and says
/// that it was refused, and why.
pub open spec fn refused_at(
    s: SessionView,
    replies: Seq<ReplyView>,
    k: int,
    pid: u32,
    error: AppErrorView,
) -> bool {
    &&& 0 <= k < replies.len()
    &&& s.after(replies.take(k)).request() matches RequestView::Kill(
        KillRequest::Send { pid: to, .. },
    ) && to == pid
    &&& replies[k] == ReplyView::Kill(KillReplyView::Sent(Err(error)))
}

/// Whether the reply at `k` says that the time that `pid` has to leave `port` after
/// `signal` has run out.
pub open spec fn timed_out_at(
    s: SessionView,
    replies: Seq<ReplyView>,
    k: int,
    port: u16,
    pid: u32,
    signal: Signal,
) -> bool {
    &&& 0 <= k < replies.len()
    &&& s.after(replies.take(k)).phase matches PhaseView::Killing { escalation, .. }
        && escalation.port == port && escalation.pid == pid && escalation.stage
        == StageView::Timing(signal)
    &&& replies[k] matches ReplyView::Kill(KillReplyView::Elapsed(millis)) && millis
        >= match signal {
        Signal::Terminate => s.cfg.grace_timeout,
        Signal::Kill => s.cfg.final_verify,
    }
}

/// Whether a process that `last` was the last signal to reach has had `signal`, or is
/// beyond it.
spec fn covers(last: Option<Signal>, signal: Signal) -> bool {
    last matches Some(last) && (last == Signal::Kill || signal == Signal::Terminate)
}

/// Whether a run that has sent `signal` to `pid` cannot come to send it again.
spec fn is_done_with(s: SessionView, pid: u32, signal: Signal) -> bool {
    ||| covers(last_signal(s.reached, pid), signal)
    ||| s.phase matches PhaseView::Killing { escalation, .. } && escalation.pid == pid && covers(
        escalation.delivered(),
        signal,
    )
}

/// What is known of the attempt that a run is at.
proof fn lemma_at_row(s: SessionView)
    requires
        sound(s),
    ensures
        s.phase matches PhaseView::Killing { at, row, escalation } ==> {
            let last = last_signal(s.reached, s.results[at].processes[row].pid);
            &&& escalation.pid == s.results[at].processes[row].pid
            &&& escalation.port == s.results[at].port
            &&& escalation.force == s.force
            &&& escalation.cfg == s.cfg
            &&& escalation.request() is Some
            &&& escalation.stage == StageView::Signalling(Signal::Terminate) ==> last is None
            &&& last == Some(Signal::Kill) ==> only_kill(escalation.stage) && escalation.stage
                !is Signalling
            &&& s.force && last is None ==> only_kill(escalation.stage)
        },
{
    if let PhaseView::Killing { at, row, escalation } = s.phase {
        let start = s.first_step(at, row);
        let before = choose|replies: Seq<KillReplyView>|
            escalation == #[trigger] start.after(replies);
        lemma_target(start, before);
    }
}

/// What a further entry changes about the last signal of a process.
proof fn lemma_last_signal(reached: Seq<(u32, Signal)>, entry: (u32, Signal), pid: u32)
    ensures
        last_signal(reached.push(entry), pid) == if entry.0 == pid {
            Some(entry.1)
        } else {
            last_signal(reached, pid)
        },
{
    assert(reached.push(entry).drop_last() =~= reached);
}

/// A run stays done with what it is done with, and is done with what it sends.
proof fn lemma_done_with(s: SessionView, reply: ReplyView, pid: u32, signal: Signal)
    requires
        sound(s),
        is_done_with(s, pid, signal) || s.request() == RequestView::Kill(
            KillRequest::Send { pid, signal },
        ) && (reply matches ReplyView::Kill(KillReplyView::Sent(Ok(_)))),
    ensures
        is_done_with(s.step(reply), pid, signal),
{
    lemma_at_row(s);
    if let (PhaseView::Killing { at, row, escalation }, ReplyView::Kill(r)) = (s.phase, reply) {
        if let StageView::Finished(result) = escalation.step(r).stage {
            let delivered = escalation.delivered();
            lemma_closed(s, at, row, delivered, result);
            assert(s.step(reply).reached == s.closed(at, row, delivered, result).reached);
            if delivered is Some {
                lemma_last_signal(s.reached, (escalation.pid, delivered->0), pid);
            }
        }
    }
}

/// A run is done with everything that it has sent.
proof fn lemma_sent_is_done(
    cli: Cli,
    cfg: KillConfig,
    ports: Seq<u16>,
    replies: Seq<ReplyView>,
    k: int,
    pid: u32,
    signal: Signal,
)
    requires
        sent_at(SessionView::with_ports(cli, cfg, ports), replies, k, pid, signal),
    ensures
        is_done_with(SessionView::with_ports(cli, cfg, ports).after(replies), pid, signal),
    decreases replies.len(),
{
    let s = SessionView::with_ports(cli, cfg, ports);
    let before = replies.drop_last();
    law_sound(cli, cfg, ports, before);
    if k == replies.len() - 1 {
        assert(replies.take(k) =~= before);
    } else {
        assert(before.take(k) =~= replies.take(k));
        lemma_sent_is_done(cli, cfg, ports, before, k, pid, signal);
    }
    lemma_done_with(s.after(before), replies.last(), pid, signal);
}

/// A run never asks to send a signal to a process that the same signal has reached
/// before, however many of the ports the process holds.
pub proof fn law_never_sends_again(
    cli: Cli,
    cfg: KillConfig,
    ports: Seq<u16>,
    replies: Seq<ReplyView>,
    k: int,
    pid: u32,
    signal: Signal,
)
    requires
        sent_at(SessionView::with_ports(cli, cfg, ports), replies, k, pid, signal),
    ensures
        SessionView::with_ports(cli, cfg, ports).after(replies).request() != RequestView::Kill(
            KillRequest::Send { pid, signal },
        ),
{
    law_sound(cli, cfg, ports, replies);
    lemma_at_row(SessionView::with_ports(cli, cfg, ports).after(replies));
    lemma_sent_is_done(cli, cfg, ports, replies, k, pid, signal);
}

/// A given signal reaches a given process at most once in a run, however many of the
/// ports the process holds.
pub proof fn law_no_double_kills(
    cli: Cli,
    cfg: KillConfig,
    ports: Seq<u16>,
    replies: Seq<ReplyView>,
    i: int,
    j: int,
    pid: u32,
    signal: Signal,
)
    requires
        sent_at(SessionView::with_ports(cli, cfg, ports), replies, i, pid, signal),
        sent_at(SessionView::with_ports(cli, cfg, ports), replies, j, pid, signal),
    ensures
        i == j,
{
    let s = SessionView::with_ports(cli, cfg, ports);
    if i < j {
        assert(replies.take(j).take(i) =~= replies.take(i));
        law_never_sends_again(cli, cfg, ports, replies.take(j), i, pid, signal);
    } else if j < i {
        assert(replies.take(i).take(j) =~= replies.take(j));
        law_never_sends_again(cli, cfg, ports, replies.take(i), j, pid, signal);
    }
}

/// Whether `signal` has reached the process.
pub open spec fn was_sent(
    s: SessionView,
    replies: Seq<ReplyView>,
    pid: u32,
    signal: Signal,
) -> bool {
    exists|k: int| sent_at(s, replies, k, pid, signal)
}

/// Whether `SIGTERM` has reached the process, and the time that it had to leave a port
/// has run out since.
pub open spec fn is_overdue(s: SessionView, replies: Seq<ReplyView>, pid: u32) -> bool {
    exists|k: int, j: int, port: u16|
        k < j && #[trigger] sent_at(s, replies, k, pid, Signal::Terminate)
            && #[trigger] timed_out_at(s, replies, j, port, pid, Signal::Terminate)
}

/// What has happened stays so.
proof fn lemma_past(s: SessionView, replies: Seq<ReplyView>)
    requires
        replies.len() > 0,
    ensures
        forall|k: int, pid: u32, signal: Signal| #[trigger]
            sent_at(s, replies.drop_last(), k, pid, signal) ==> sent_at(s, replies, k, pid, signal),
        forall|k: int, pid: u32, error: AppErrorView| #[trigger]
            refused_at(s, replies.drop_last(), k, pid, error) ==> refused_at(
                s,
                replies,
                k,
                pid,
                error,
            ),
        forall|k: int, port: u16, pid: u32, signal: Signal| #[trigger]
            timed_out_at(s, replies.drop_last(), k, port, pid, signal) ==> timed_out_at(
                s,
                replies,
                k,
                port,
                pid,
                signal,
            ),
        forall|k: int, at: int, row: int| #[trigger]
            in_row(s, replies.drop_last(), k, at, row) ==> in_row(s, replies, k, at, row),
        forall|k: int, at: int, row: int| #[trigger]
            in_row(s, replies, k, at, row) && k < replies.len() - 1 ==> in_row(
                s,
                replies.drop_last(),
                k,
                at,
                row,
            ),
        forall|k: int, port: u16, pid: u32| #[trigger]
            seen_gone_at(s, replies.drop_last(), k, port, pid) ==> seen_gone_at(
                s,
                replies,
                k,
                port,
                pid,
            ),
        forall|k: int, port: u16, pid: u32| #[trigger]
            seen_gone_at(s, replies, k, port, pid) && k < replies.len() - 1 ==> seen_gone_at(
                s,
                replies.drop_last(),
                k,
                port,
                pid,
            ),
        replies.take(replies.len() - 1) == replies.drop_last(),
{
    let before = replies.drop_last();
    assert forall|k: int| 0 <= k < replies.len() implies #[trigger] before.take(k)
        == replies.take(k) by {
        assert(before.take(k) =~= replies.take(k));
    }
    assert(replies.take(replies.len() - 1) =~= before);
    assert forall|k: int, pid: u32, signal: Signal| #[trigger]
        sent_at(s, before, k, pid, signal) implies sent_at(s, replies, k, pid, signal) by {
        assert(before.take(k) == replies.take(k));
    }
    assert forall|k: int, pid: u32, error: AppErrorView| #[trigger]
        refused_at(s, before, k, pid, error) implies refused_at(s, replies, k, pid, error) by {
        assert(before.take(k) == replies.take(k));
    }
    assert forall|k: int, port: u16, pid: u32, signal: Signal| #[trigger]
        timed_out_at(s, before, k, port, pid, signal) implies timed_out_at(
        s,
        replies,
        k,
        port,
        pid,
        signal,
    ) by {
        assert(before.take(k) == replies.take(k));
    }
    assert forall|k: int, at: int, row: int| #[trigger] in_row(s, before, k, at, row) implies in_row(
        s,
        replies,
        k,
        at,
        row,
    ) by {
        assert(before.take(k) == replies.take(k));
    }
    assert forall|k: int, at: int, row: int| #[trigger]
        in_row(s, replies, k, at, row) && k < replies.len() - 1 implies in_row(
        s,
        before,
        k,
        at,
        row,
    ) by {
        assert(before.take(k) == replies.take(k));
    }
    assert forall|k: int, port: u16, pid: u32| #[trigger]
        seen_gone_at(s, before, k, port, pid) implies seen_gone_at(s, replies, k, port, pid) by {
        assert(before.take(k) == replies.take(k));
    }
    assert forall|k: int, port: u16, pid: u32| #[trigger]
        seen_gone_at(s, replies, k, port, pid) && k < replies.len() - 1 implies seen_gone_at(
        s,
        before,
        k,
        port,
        pid,
    ) by {
        assert(before.take(k) == replies.take(k));
    }
}

/// What a run says has reached a process has reached it, and without force `SIGKILL` is
/// at hand only for a process that is overdue.
proof fn lemma_delivered(cli: Cli, cfg: KillConfig, ports: Seq<u16>, replies: Seq<ReplyView>)
    ensures
        ({
            let s = SessionView::with_ports(cli, cfg, ports);
            let now = s.after(replies);
            &&& forall|pid: u32|
                (#[trigger] last_signal(now.reached, pid)) matches Some(signal) ==> was_sent(
                    s,
                    replies,
                    pid,
                    signal,
                )
            &&& now.phase matches PhaseView::Killing { escalation, .. } ==> {
                &&& escalation.delivered() matches Some(signal) ==> was_sent(
                    s,
                    replies,
                    escalation.pid,
                    signal,
                )
                &&& !now.force && escalation.stage == StageView::Signalling(Signal::Kill)
                    ==> is_overdue(s, replies, escalation.pid)
            }
        }),
    decreases replies.len(),
{
    let s = SessionView::with_ports(cli, cfg, ports);
    let now = s.after(replies);
    law_sound(cli, cfg, ports, replies);
    lemma_at_row(now);
    lemma_begun_flags(cli, cfg, ports);
    if replies.len() > 0 {
        let n = replies.len() - 1;
        let before = replies.drop_last();
        let was = s.after(before);
        lemma_delivered(cli, cfg, ports, before);
        lemma_past(s, replies);
        law_sound(cli, cfg, ports, before);
        lemma_at_row(was);
        lemma_flags(s, before);
        assert forall|pid: u32, signal: Signal| #[trigger]
            was_sent(s, before, pid, signal) implies was_sent(s, replies, pid, signal) by {
            let k = choose|k: int| sent_at(s, before, k, pid, signal);
            assert(sent_at(s, replies, k, pid, signal));
        }
        assert forall|pid: u32| #[trigger] is_overdue(s, before, pid) implies is_overdue(
            s,
            replies,
            pid,
        ) by {
            let (k, j, port) = choose|k: int, j: int, port: u16|
                k < j && #[trigger] sent_at(s, before, k, pid, Signal::Terminate)
                    && #[trigger] timed_out_at(s, before, j, port, pid, Signal::Terminate);
            assert(sent_at(s, replies, k, pid, Signal::Terminate));
            assert(timed_out_at(s, replies, j, port, pid, Signal::Terminate));
        }
        if let (PhaseView::Killing { at, row, escalation }, ReplyView::Kill(r)) = (
            was.phase,
            replies.last(),
        ) {
            let pid = escalation.pid;
            match (escalation.stage, r) {
                (StageView::Signalling(signal), KillReplyView::Sent(Ok(_))) => {
                    assert(sent_at(s, replies, n, pid, signal));
                },
                (StageView::Timing(Signal::Terminate), KillReplyView::Elapsed(millis)) => {
                    if millis >= escalation.timeout(Signal::Terminate) {
                        let k = choose|k: int| sent_at(s, before, k, pid, Signal::Terminate);
                        assert(sent_at(s, replies, k, pid, Signal::Terminate));
                        assert(timed_out_at(
                            s,
                            replies,
                            n,
                            escalation.port,
                            pid,
                            Signal::Terminate,
                        ));
                    }
                },
                _ => {},
            }
            if let StageView::Finished(result) = escalation.step(r).stage {
                let delivered = escalation.delivered();
                lemma_closed(was, at, row, delivered, result);
                lemma_next_row(was.closed(at, row, delivered, result).results, at, row + 1);
                assert(now.reached == was.closed(at, row, delivered, result).reached);
                assert forall|other: u32|
                    (#[trigger] last_signal(now.reached, other)) matches Some(signal) implies was_sent(
                    s,
                    replies,
                    other,
                    last_signal(now.reached, other)->0,
                ) by {
                    if delivered is Some {
                        lemma_last_signal(was.reached, (pid, delivered->0), other);
                    }
                }
            }
        }
    }
}

/// Without force, `SIGKILL` is asked for only when `SIGTERM` has reached the process and
/// the time that it had to leave the port has run out.
pub proof fn law_kill_follows_term(
    cli: Cli,
    cfg: KillConfig,
    ports: Seq<u16>,
    replies: Seq<ReplyView>,
    pid: u32,
)
    requires
        !cli.force,
        SessionView::with_ports(cli, cfg, ports).after(replies).request() == RequestView::Kill(
            KillRequest::Send { pid, signal: Signal::Kill },
        ),
    ensures
        is_overdue(SessionView::with_ports(cli, cfg, ports), replies, pid),
{
    law_sound(cli, cfg, ports, replies);
    lemma_at_row(SessionView::with_ports(cli, cfg, ports).after(replies));
    lemma_flags(SessionView::with_ports(cli, cfg, ports), replies);
    lemma_begun_flags(cli, cfg, ports);
    lemma_delivered(cli, cfg, ports, replies);
}

/// A process that is still there when the time that it had to leave a port after
/// `SIGTERM` has run out is sent `SIGKILL` next, whichever of its ports it is.
pub proof fn law_overdue_is_killed(
    cli: Cli,
    cfg: KillConfig,
    ports: Seq<u16>,
    replies: Seq<ReplyView>,
    port: u16,
    pid: u32,
)
    requires
        replies.len() > 0,
        timed_out_at(
            SessionView::with_ports(cli, cfg, ports),
            replies,
            replies.len() - 1,
            port,
            pid,
            Signal::Terminate,
        ),
    ensures
        SessionView::with_ports(cli, cfg, ports).after(replies).request() == RequestView::Kill(
            KillRequest::Send { pid, signal: Signal::Kill },
        ),
{
    let s = SessionView::with_ports(cli, cfg, ports);
    law_sound(cli, cfg, ports, replies.drop_last());
    lemma_past(s, replies);
    lemma_at_row(s.after(replies.drop_last()));
    lemma_flags(s, replies.drop_last());
}

/// Whether the run was at row `row` of port number `at` when the reply at `k` came.
pub open spec fn in_row(
    s: SessionView,
    replies: Seq<ReplyView>,
    k: int,
    at: int,
    row: int,
) -> bool {
    &&& 0 <= k < replies.len()
    &&& s.after(replies.take(k)).phase matches PhaseView::Killing { at: a, row: b, .. } && a == at
        && b == row
}

/// While a run is at a row, the process has not been seen to be gone from the port, and
/// no later row has been come to.
proof fn lemma_not_gone(cli: Cli, cfg: KillConfig, ports: Seq<u16>, replies: Seq<ReplyView>)
    ensures
        ({
            let s = SessionView::with_ports(cli, cfg, ports);
            match s.after(replies).phase {
                PhaseView::Killing { at, row, escalation } => {
                    &&& forall|k: int, a: int, b: int| #[trigger]
                        in_row(s, replies, k, a, b) ==> a < at || a == at && b <= row
                    &&& forall|k: int| #[trigger]
                        seen_gone_at(s, replies, k, escalation.port, escalation.pid)
                            ==> !in_row(s, replies, k, at, row)
                },
                PhaseView::Showing { then: Then::Exit { .. }, .. } => true,
                PhaseView::Refused { .. } => true,
                PhaseView::Over { .. } => true,
                _ => forall|k: int, a: int, b: int| !#[trigger] in_row(s, replies, k, a, b),
            }
        }),
    decreases replies.len(),
{
    let s = SessionView::with_ports(cli, cfg, ports);
    if replies.len() > 0 {
        let n = replies.len() - 1;
        let before = replies.drop_last();
        let was = s.after(before);
        lemma_not_gone(cli, cfg, ports, before);
        lemma_past(s, replies);
        law_sound(cli, cfg, ports, before);
        lemma_at_row(was);
        if let (PhaseView::Killing { at, row, escalation }, ReplyView::Kill(r)) = (
            was.phase,
            replies.last(),
        ) {
            if let StageView::Finished(result) = escalation.step(r).stage {
                lemma_next_row(
                    was.closed(at, row, escalation.delivered(), result).results,
                    at,
                    row + 1,
                );
            }
        }
        assert forall|k: int, a: int, b: int| #[trigger] in_row(s, replies, k, a, b) implies (k == n
            && was.phase is Killing && was.phase->at == a && was.phase->row == b) || in_row(
            s,
            before,
            k,
            a,
            b,
        ) by {}
    }
}

/// Whether the reply at `k` is one to the request to send a signal to `pid`.
pub open spec fn tried_at(s: SessionView, replies: Seq<ReplyView>, k: int, pid: u32) -> bool {
    &&& 0 <= k < replies.len()
    &&& s.after(replies.take(k)).request() matches RequestView::Kill(
        KillRequest::Send { pid: to, .. },
    ) && to == pid
    &&& replies[k] matches ReplyView::Kill(KillReplyView::Sent(_))
}

/// When the results of a kill are shown, it has been tried to send a signal to each
/// process on an occupied port.
pub proof fn law_every_process_is_signalled(
    cli: Cli,
    cfg: KillConfig,
    ports: Seq<u16>,
    replies: Seq<ReplyView>,
    i: int,
    j: int,
)
    requires
        ({
            let now = SessionView::with_ports(cli, cfg, ports).after(replies);
            &&& now.request() == (RequestView::Show { mode: RunMode::Kill })
            &&& 0 <= i < now.results.len()
            &&& 0 <= j < now.results[i].processes.len()
        }),
    ensures
        ({
            let s = SessionView::with_ports(cli, cfg, ports);
            let pid = s.after(replies).results[i].processes[j].pid;
            exists|k: int| tried_at(s, replies, k, pid)
        }),
{
    let s = SessionView::with_ports(cli, cfg, ports);
    let row = s.after(replies).results[i].processes[j];
    let port = s.after(replies).results[i].port;
    law_sound(cli, cfg, ports, replies);
    law_rows_are_true(cli, cfg, ports, replies, i, j);
    if was_sent(s, replies, row.pid, Signal::Terminate) {
        let k = choose|k: int| sent_at(s, replies, k, row.pid, Signal::Terminate);
        assert(tried_at(s, replies, k, row.pid));
    } else if was_sent(s, replies, row.pid, Signal::Kill) {
        let k = choose|k: int| sent_at(s, replies, k, row.pid, Signal::Kill);
        assert(tried_at(s, replies, k, row.pid));
    } else {
        let (k, error) = choose|k: int, error: AppErrorView| #[trigger]
            refused_at(s, replies, k, row.pid, error) && in_row(s, replies, k, i, j) && row.error
                == Some(kill_error(error, port, row.pid));
        assert(tried_at(s, replies, k, row.pid));
    }
}

/// Whether the reply at `k` is one to a look at the port, and says that the process
/// is gone from it.
pub open spec fn seen_gone_at(
    s: SessionView,
    replies: Seq<ReplyView>,
    k: int,
    port: u16,
    pid: u32,
) -> bool {
    &&& 0 <= k < replies.len()
    &&& s.after(replies.take(k)).request() == RequestView::Kill(KillRequest::Probe { port, pid })
    &&& replies[k] == ReplyView::Kill(KillReplyView::Probed(Ok(true)))
}

/// Whether what the row `j` of port number `i` says happened did happen.
///
/// A process that is said to have been ended was reached by the signal that the row
/// names, and was seen to be gone from the port. If it could not be ended, either a
/// signal to it was refused, and the row says why; or `SIGKILL` reached it, the time to
/// leave the port after it ran out, and the process was not seen to be gone from the
/// port while the run was at the row.
pub open spec fn row_is_true(
    s: SessionView,
    replies: Seq<ReplyView>,
    i: int,
    j: int,
    port: u16,
    row: ProcessResultView,
) -> bool {
    match row.status {
        ProcessStatus::Terminated => {
            &&& row.signal == Some(SignalKind::Sigterm)
            &&& was_sent(s, replies, row.pid, Signal::Terminate)
            &&& exists|k: int| seen_gone_at(s, replies, k, port, row.pid)
        },
        ProcessStatus::Killed => {
            &&& row.signal == Some(SignalKind::Sigkill)
            &&& was_sent(s, replies, row.pid, Signal::Kill)
            &&& exists|k: int| seen_gone_at(s, replies, k, port, row.pid)
        },
        ProcessStatus::Failed => {
            ||| exists|k: int, error: AppErrorView| #[trigger]
                refused_at(s, replies, k, row.pid, error) && in_row(s, replies, k, i, j)
                    && row.error == Some(kill_error(error, port, row.pid))
            ||| {
                &&& row.error == Some(stuck(port, row.pid, s.force))
                &&& was_sent(s, replies, row.pid, Signal::Kill)
                &&& exists|k: int| #[trigger]
                    timed_out_at(s, replies, k, port, row.pid, Signal::Kill) && in_row(
                        s,
                        replies,
                        k,
                        i,
                        j,
                    )
                &&& forall|k: int| #[trigger]
                    seen_gone_at(s, replies, k, port, row.pid) ==> !in_row(s, replies, k, i, j)
            }
        },
        _ => true,
    }
}

/// Every row tells the truth, at every point of a run: in particular no process is
/// said to have been ended that was not seen to be gone from its port.
pub proof fn law_rows_are_true(
    cli: Cli,
    cfg: KillConfig,
    ports: Seq<u16>,
    replies: Seq<ReplyView>,
    i: int,
    j: int,
)
    requires
        ({
            let now = SessionView::with_ports(cli, cfg, ports).after(replies);
            0 <= i < now.results.len() && 0 <= j < now.results[i].processes.len()
        }),
    ensures
        ({
            let s = SessionView::with_ports(cli, cfg, ports);
            let now = s.after(replies);
            row_is_true(s, replies, i, j, now.results[i].port, now.results[i].processes[j])
        }),
    decreases replies.len(),
{
    let s = SessionView::with_ports(cli, cfg, ports);
    let now = s.after(replies);
    if replies.len() > 0 {
        let before = replies.drop_last();
        let was = s.after(before);
        law_sound(cli, cfg, ports, before);
        lemma_at_row(was);
        match (was.phase, replies.last()) {
            (PhaseView::Killing { at, row, escalation }, ReplyView::Kill(r)) => {
                if let StageView::Finished(result) = escalation.step(r).stage {
                    let delivered = escalation.delivered();
                    assert(now.results == was.closed(at, row, delivered, result).results);
                    lemma_closed(was, at, row, delivered, result);
                    assert(now.results[i].port == was.results[i].port);
                    assert(now.results[i].processes.len() == was.results[i].processes.len());
                    let then = was.results[i].processes[j];
                    if i == at && j == row {
                        lemma_row_settled(cli, cfg, ports, replies);
                    } else {
                        assert(now.results[i].processes[j] == then);
                        law_rows_are_true(cli, cfg, ports, before, i, j);
                        lemma_row_stays_true(cli, cfg, ports, replies, i, j);
                    }
                } else {
                    law_rows_are_true(cli, cfg, ports, before, i, j);
                    lemma_row_stays_true(cli, cfg, ports, replies, i, j);
                }
            },
            (PhaseView::Inspecting, ReplyView::Inspected(answer)) => {
                let answers = was.answers.push(answer);
                if answers.len() < was.ports.len() || any_names_processes(answers) {
                    law_rows_are_true(cli, cfg, ports, before, i, j);
                    lemma_row_stays_true(cli, cfg, ports, replies, i, j);
                } else {
                    let session = SessionView { answers, ..was };
                    lemma_decided_rows(session, Seq::empty());
                }
            },
            (PhaseView::Snapshotting, ReplyView::Snapshot(facts)) => {
                lemma_decided_rows(was, facts);
            },
            _ => {
                assert(now.results == was.results);
                law_rows_are_true(cli, cfg, ports, before, i, j);
                lemma_row_stays_true(cli, cfg, ports, replies, i, j);
            },
        }
    }
}

/// What is true of a row stays true while other rows are gone through.
proof fn lemma_row_stays_true(
    cli: Cli,
    cfg: KillConfig,
    ports: Seq<u16>,
    replies: Seq<ReplyView>,
    i: int,
    j: int,
)
    requires
        replies.len() > 0,
        ({
            let s = SessionView::with_ports(cli, cfg, ports);
            let was = s.after(replies.drop_last());
            &&& 0 <= i < was.results.len() && 0 <= j < was.results[i].processes.len()
            &&& row_is_true(
                s,
                replies.drop_last(),
                i,
                j,
                was.results[i].port,
                was.results[i].processes[j],
            )
        }),
    ensures
        ({
            let s = SessionView::with_ports(cli, cfg, ports);
            let was = s.after(replies.drop_last());
            row_is_true(s, replies, i, j, was.results[i].port, was.results[i].processes[j])
        }),
{
    let s = SessionView::with_ports(cli, cfg, ports);
    let before = replies.drop_last();
    let was = s.after(before);
    law_sound(cli, cfg, ports, before);
    assert(replies.take(replies.len() - 1) =~= before);
    lemma_row_kept(s, replies, i, j, was.results[i].port, was.results[i].processes[j]);
}

#[verifier::rlimit(40)]
proof fn lemma_row_kept(
    s: SessionView,
    replies: Seq<ReplyView>,
    i: int,
    j: int,
    port: u16,
    row: ProcessResultView,
)
    requires
        replies.len() > 0,
        row_is_true(s, replies.drop_last(), i, j, port, row),
        row.status == ProcessStatus::Failed ==> !in_row(s, replies, replies.len() - 1, i, j),
    ensures
        row_is_true(s, replies, i, j, port, row),
{
    let before = replies.drop_last();
    lemma_past(s, replies);
    assert forall|signal: Signal| #[trigger] was_sent(s, before, row.pid, signal) implies was_sent(
        s,
        replies,
        row.pid,
        signal,
    ) by {
        let k = choose|k: int| sent_at(s, before, k, row.pid, signal);
        assert(sent_at(s, replies, k, row.pid, signal));
    }
    if exists|k: int| seen_gone_at(s, before, k, port, row.pid) {
        let k = choose|k: int| seen_gone_at(s, before, k, port, row.pid);
        assert(seen_gone_at(s, replies, k, port, row.pid));
    }
    if row.status == ProcessStatus::Failed {
        if exists|k: int, error: AppErrorView| #[trigger]
            refused_at(s, before, k, row.pid, error) && in_row(s, before, k, i, j) && row.error
                == Some(kill_error(error, port, row.pid)) {
            let (k, error) = choose|k: int, error: AppErrorView| #[trigger]
                refused_at(s, before, k, row.pid, error) && in_row(s, before, k, i, j)
                    && row.error == Some(kill_error(error, port, row.pid));
            assert(refused_at(s, replies, k, row.pid, error));
            assert(in_row(s, replies, k, i, j));
        } else {
            let k = choose|k: int| #[trigger]
                timed_out_at(s, before, k, port, row.pid, Signal::Kill) && in_row(
                    s,
                    before,
                    k,
                    i,
                    j,
                );
            assert(timed_out_at(s, replies, k, port, row.pid, Signal::Kill));
            assert(in_row(s, replies, k, i, j));
            assert forall|k: int| #[trigger]
                seen_gone_at(s, replies, k, port, row.pid) implies !in_row(s, replies, k, i, j) by {
                if in_row(s, replies, k, i, j) {
                    assert(seen_gone_at(s, before, k, port, row.pid));
                    assert(in_row(s, before, k, i, j));
                }
            }
        }
    }
}

/// What a row says when its attempt has come to an end is true.
proof fn lemma_row_settled(cli: Cli, cfg: KillConfig, ports: Seq<u16>, replies: Seq<ReplyView>)
    requires
        replies.len() > 0,
        ({
            let was = SessionView::with_ports(cli, cfg, ports).after(replies.drop_last());
            was.phase matches PhaseView::Killing { escalation, .. } && (
            replies.last() matches ReplyView::Kill(r) && escalation.step(r).stage is Finished)
        }),
    ensures
        ({
            let s = SessionView::with_ports(cli, cfg, ports);
            let was = s.after(replies.drop_last());
            let now = s.after(replies);
            let i = was.phase->at;
            let j = was.phase->row;
            row_is_true(s, replies, i, j, now.results[i].port, now.results[i].processes[j])
        }),
{
    let s = SessionView::with_ports(cli, cfg, ports);
    let before = replies.drop_last();
    let was = s.after(before);
    let now = s.after(replies);
    let n = replies.len() - 1;
    let i = was.phase->at;
    let j = was.phase->row;
    let escalation = was.phase->escalation;
    let reply = replies.last()->Kill_0;
    let result = escalation.step(reply).stage->Finished_0;
    let delivered = escalation.delivered();
    lemma_past(s, replies);
    law_sound(cli, cfg, ports, before);
    lemma_at_row(was);
    lemma_flags(s, before);
    lemma_delivered(cli, cfg, ports, before);
    lemma_not_gone(cli, cfg, ports, before);
    lemma_closed(was, i, j, delivered, result);
    assert(now.results == was.closed(i, j, delivered, result).results);
    let port = was.results[i].port;
    let pid = was.results[i].processes[j].pid;
    assert(now.results[i].processes[j] == settled(was.results[i].processes[j], port, result));
    assert(in_row(s, replies, n, i, j));
    assert forall|signal: Signal| #[trigger] was_sent(s, before, pid, signal) implies was_sent(
        s,
        replies,
        pid,
        signal,
    ) by {
        let k = choose|k: int| sent_at(s, before, k, pid, signal);
        assert(sent_at(s, replies, k, pid, signal));
    }
    match result {
        Err(error) => {
            assert(refused_at(s, replies, n, pid, error));
        },
        Ok(outcome) => {
            if outcome.success() {
                assert(seen_gone_at(s, replies, n, port, pid));
                assert(delivered is Some && was_sent(s, before, pid, delivered->0));
            } else {
                assert(was_sent(s, before, pid, Signal::Kill));
                assert(timed_out_at(s, replies, n, port, pid, Signal::Kill));
                assert forall|k: int| #[trigger]
                    seen_gone_at(s, replies, k, port, pid) implies !in_row(
                    s,
                    replies,
                    k,
                    i,
                    j,
                ) by {
                    if k < n && in_row(s, replies, k, i, j) {
                        assert(seen_gone_at(s, before, k, port, pid));
                        assert(in_row(s, before, k, i, j));
                    }
                }
            }
        },
    }
}

/// Whether no signal but `SIGKILL` plays a part at the stage.
spec fn only_kill(stage: StageView) -> bool {
    match stage {
        StageView::Starting(signal) => signal == Signal::Kill,
        StageView::Signalling(signal) => signal == Signal::Kill,
        StageView::Probing(signal) => signal == Signal::Kill,
        StageView::Timing(signal) => signal == Signal::Kill,
        StageView::Pausing(signal) => signal == Signal::Kill,
        StageView::Finished(_) => true,
    }
}

/// What an attempt keeps.
proof fn lemma_target(e: EscalationView, replies: Seq<KillReplyView>)
    ensures
        e.after(replies).pid == e.pid,
        e.after(replies).port == e.port,
        e.after(replies).force == e.force,
        e.after(replies).cfg == e.cfg,
        e.stage != StageView::Signalling(Signal::Terminate) ==> e.after(replies).stage
            != StageView::Signalling(Signal::Terminate),
        only_kill(e.stage) ==> only_kill(e.after(replies).stage),
        only_kill(e.stage) && e.stage !is Signalling ==> e.after(replies).stage !is Signalling,
    decreases replies.len(),
{
    if replies.len() > 0 {
        lemma_target(e, replies.drop_last());
    }
}

/// When the inspection is over, a row says at most what would be sent.
proof fn lemma_decided_rows(s: SessionView, facts: Seq<ProcessFactsView>)
    requires
        s.answers.len() == s.ports.len(),
    ensures
        ({
            let results = s.decided(port_results(s.ports, s.answers, facts)).results;
            forall|i: int, j: int|
                0 <= i < results.len() && 0 <= j < results[i].processes.len() ==> {
                    let status = (#[trigger] results[i].processes[j]).status;
                    status == ProcessStatus::Info || status == ProcessStatus::DryRun
                }
        }),
{
    let found = port_results(s.ports, s.answers, facts);
    lemma_results_untouched(s.ports, s.answers, facts);
    let results = s.decided(found).results;
    assert forall|i: int, j: int|
        0 <= i < results.len() && 0 <= j < results[i].processes.len() implies {
        let status = (#[trigger] results[i].processes[j]).status;
        status == ProcessStatus::Info || status == ProcessStatus::DryRun
    } by {
        if results == found {
        } else {
            assert(results[i] == stamped(found[i], s.force));
        }
    }
}

/// Whether `reply` is an answer to `request`.
pub open spec fn answers(request: RequestView, reply: ReplyView) -> bool {
    match request {
        RequestView::Complain { .. } => reply is Shown,
        RequestView::Inspect { .. } => reply is Inspected,
        RequestView::Snapshot => reply is Snapshot,
        RequestView::Show { .. } => reply is Shown,
        RequestView::Confirm => reply is Confirmed,
        RequestView::Kill(request) => reply matches ReplyView::Kill(reply) && crate::kill::answers(
            request,
            reply,
        ),
        RequestView::Exit { .. } => false,
    }
}

/// A run moves on with every answer to what it asked, and with nothing else; when it
/// asks to leave, it is over.
pub proof fn law_run_moves_on(
    cli: Cli,
    cfg: KillConfig,
    ports: Seq<u16>,
    replies: Seq<ReplyView>,
    reply: ReplyView,
)
    ensures
        ({
            let s = SessionView::with_ports(cli, cfg, ports).after(replies);
            s.step(reply) != s <==> answers(s.request(), reply)
        }),
{
    let s = SessionView::with_ports(cli, cfg, ports).after(replies);
    law_sound(cli, cfg, ports, replies);
    match (s.phase, reply) {
        (PhaseView::Killing { at, row, escalation }, ReplyView::Kill(r)) => {
            law_progress(escalation, r);
            if let StageView::Finished(result) = escalation.step(r).stage {
                lemma_next_row(
                    s.closed(at, row, escalation.delivered(), result).results,
                    at,
                    row + 1,
                );
            }
        },
        (PhaseView::Inspecting, ReplyView::Inspected(answer)) => {
            let grown = s.answers.push(answer);
            assert(s.step(reply).answers.len() == s.answers.len() + 1);
        },
        _ => {},
    }
}

/// A row says that its process was ended if, and only if, the attempt came to a
/// success.
pub proof fn law_ended_means_success(
    row: ProcessResultView,
    port: u16,
    result: Result<KillOutcomeView, AppErrorView>,
)
    ensures
        ({
            let status = settled(row, port, result).status;
            (status == ProcessStatus::Terminated || status == ProcessStatus::Killed) <==> (
            result matches Ok(outcome) && outcome.success())
        }),
        settled(row, port, result).status == ProcessStatus::Failed ==> settled(
            row,
            port,
            result,
        ).error is Some,
        settled(row, port, result).info() == row.info(),
{
}

/// A run whose ports are wrong says so and leaves with exit code 3, whatever the
/// replies are.
pub proof fn law_wrong_ports_end_the_run(
    cli: Cli,
    cfg: KillConfig,
    message: Seq<char>,
    replies: Seq<ReplyView>,
)
    ensures
        ({
            let request = SessionView::begun(
                cli,
                cfg,
                Seq::empty(),
                PhaseView::Refused { message },
            ).after(replies).request();
            ||| request == (RequestView::Complain { message })
            ||| request == (RequestView::Exit { code: exit::USAGE_OR_INTERNAL })
        }),
    decreases replies.len(),
{
    let s = SessionView::begun(cli, cfg, Seq::empty(), PhaseView::Refused { message });
    if replies.len() > 0 {
        law_wrong_ports_end_the_run(cli, cfg, message, replies.drop_last());
    }
}

pub proof fn lemma_flags(s: SessionView, replies: Seq<ReplyView>)
    ensures
        ({
            let now = s.after(replies);
            &&& now.kill == s.kill && now.force == s.force && now.dry_run == s.dry_run
            &&& now.json == s.json && now.cfg == s.cfg && now.ports == s.ports
        }),
    decreases replies.len(),
{
    if replies.len() > 0 {
        lemma_flags(s, replies.drop_last());
    }
}

pub proof fn lemma_begun_flags(cli: Cli, cfg: KillConfig, ports: Seq<u16>)
    ensures
        ({
            let s = SessionView::with_ports(cli, cfg, ports);
            &&& s.kill == cli.kill && s.force == cli.force && s.dry_run == cli.dry_run
            &&& s.json == cli.json && s.cfg == cfg && s.ports == ports
        }),
{
}

} // verus!
