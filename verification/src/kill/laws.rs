//! What an attempt to end a process does, step by step, and what that comes to.

use vstd::prelude::*;

use crate::error::AppErrorView;
use crate::kill::signal::{
    bad_pid, delivery, single_process, termination, PosixReply, Signal, TerminateReply,
};
use crate::kill::{
    law_progress, stuck, EscalationView, KillConfig, KillOutcomeView, KillReplyView, KillRequest,
    StageView,
};
use crate::text::laws::law_part_occurs;
use crate::text::{dec, digit, lemma_dec, occurs, occurs_at};

verus! {

// ---------------------------------------------------------------------------
// One step
// ---------------------------------------------------------------------------

/// What an attempt begins with: the signal that was asked for, to the process that was
/// asked for. At one more port the time begins, and then the port is looked at.
pub proof fn law_begins_with(
    port: u16,
    pid: u32,
    force: bool,
    cfg: KillConfig,
    signal: Signal,
)
    ensures
        EscalationView::start(port, pid, force, cfg).request() == Some(
            KillRequest::Send {
                pid,
                signal: if force {
                    Signal::Kill
                } else {
                    Signal::Terminate
                },
            },
        ),
        EscalationView::resume(port, pid, force, cfg, signal).request() == Some(
            KillRequest::StartClock,
        ),
        EscalationView::resume(port, pid, force, cfg, signal).step(
            KillReplyView::ClockStarted,
        ).request() == Some(KillRequest::Probe { port, pid }),
{
}

/// When a signal was delivered, the port is looked at; when it was refused, the attempt
/// is over, with the refusal.
pub proof fn law_looks_after_a_signal(e: EscalationView, error: AppErrorView)
    requires
        e.request() matches Some(KillRequest::Send { .. }),
    ensures
        e.step(KillReplyView::Sent(Ok(()))).request() == Some(
            KillRequest::Probe { port: e.port, pid: e.pid },
        ),
        e.step(KillReplyView::Sent(Err(error))).stage == StageView::Finished(Err(error)),
{
}

/// When a look shows that the process is gone, the attempt is over, as a success. When it
/// does not, or fails, the clock is read.
pub proof fn law_looks_decide(e: EscalationView, found: Result<bool, AppErrorView>)
    requires
        e.request() matches Some(KillRequest::Probe { .. }),
    ensures
        found == Ok::<bool, AppErrorView>(true) ==> {
            let port = e.port;
            let pid = e.pid;
            let next = e.step(KillReplyView::Probed(found)).stage;
            ||| next == StageView::Finished(Ok(KillOutcomeView::GracefulSuccess { port, pid }))
            ||| next == StageView::Finished(Ok(KillOutcomeView::ForcefulSuccess { port, pid }))
        },
        found != Ok::<bool, AppErrorView>(true) ==> e.step(
            KillReplyView::Probed(found),
        ).request() == Some(KillRequest::Elapsed),
{
}

/// After every pause, whichever signal was sent last, the same port is looked at for the
/// same process.
pub proof fn law_looks_after_every_pause(e: EscalationView)
    requires
        e.request() matches Some(KillRequest::Pause { .. }),
    ensures
        e.step(KillReplyView::Paused).request() == Some(
            KillRequest::Probe { port: e.port, pid: e.pid },
        ),
{
}

/// While there is time, the attempt waits for as long as it was told to; when there is
/// none, it does not wait.
pub proof fn law_waits_while_there_is_time(e: EscalationView, millis: u64)
    requires
        e.request() == Some(KillRequest::Elapsed),
    ensures
        ({
            let next = e.step(KillReplyView::Elapsed(millis));
            &&& next.request() == Some(KillRequest::Pause { millis: e.cfg.poll_interval }) || {
                ||| next.request() == Some(
                    KillRequest::Send { pid: e.pid, signal: Signal::Kill },
                )
                ||| next.stage == StageView::Finished(
                    Ok(
                        KillOutcomeView::Failed {
                            port: e.port,
                            pid: e.pid,
                            reason: stuck(e.port, e.pid, e.force),
                        },
                    ),
                )
            }
            &&& millis < e.cfg.grace_timeout && millis < e.cfg.final_verify ==> next.request()
                == Some(KillRequest::Pause { millis: e.cfg.poll_interval })
            &&& millis >= e.cfg.grace_timeout && millis >= e.cfg.final_verify ==> !(
            next.request() matches Some(KillRequest::Pause { .. }))
        }),
{
}

/// No step changes what the attempt is about.
pub proof fn law_keeps_its_target(e: EscalationView, reply: KillReplyView)
    ensures
        ({
            let next = e.step(reply);
            &&& next.port == e.port
            &&& next.pid == e.pid
            &&& next.force == e.force
            &&& next.cfg == e.cfg
        }),
{
}

// ---------------------------------------------------------------------------
// After a signal
// ---------------------------------------------------------------------------

/// One round of waiting: a look that did not show the process gone, a look at the clock,
/// and a pause.
pub open spec fn waiting_round(found: Result<bool, AppErrorView>, millis: u64) -> Seq<
    KillReplyView,
> {
    seq![
        KillReplyView::Probed(found),
        KillReplyView::Elapsed(millis),
        KillReplyView::Paused,
    ]
}

/// The replies of several rounds of waiting.
pub open spec fn waiting(rounds: Seq<(Result<bool, AppErrorView>, u64)>) -> Seq<KillReplyView>
    decreases rounds.len(),
{
    if rounds.len() == 0 {
        Seq::empty()
    } else {
        waiting(rounds.drop_last()) + waiting_round(rounds.last().0, rounds.last().1)
    }
}

/// Whether in each of the rounds the process was not seen to be gone, and there was time
/// left of `limit` milliseconds.
pub open spec fn in_vain(rounds: Seq<(Result<bool, AppErrorView>, u64)>, limit: u64) -> bool {
    forall|i: int|
        0 <= i < rounds.len() ==> (#[trigger] rounds[i]).0 != Ok::<bool, AppErrorView>(true)
            && rounds[i].1 < limit
}

/// The replies one after the other are the first, and then the second.
proof fn lemma_after_both(e: EscalationView, a: Seq<KillReplyView>, b: Seq<KillReplyView>)
    ensures
        e.after(a + b) == e.after(a).after(b),
    decreases b.len(),
{
    if b.len() == 0 {
        assert(a + b =~= a);
    } else {
        assert((a + b).drop_last() =~= a + b.drop_last());
        lemma_after_both(e, a, b.drop_last());
    }
}

proof fn lemma_after_one(e: EscalationView, reply: KillReplyView)
    ensures
        e.after(seq![reply]) == e.step(reply),
{
    assert(seq![reply].drop_last() =~= Seq::<KillReplyView>::empty());
    reveal_with_fuel(EscalationView::after, 2);
}

proof fn lemma_after_three(e: EscalationView, a: KillReplyView, b: KillReplyView, c: KillReplyView)
    ensures
        e.after(seq![a, b, c]) == e.step(a).step(b).step(c),
{
    assert(seq![a, b, c] =~= seq![a] + seq![b] + seq![c]);
    lemma_after_both(e, seq![a] + seq![b], seq![c]);
    lemma_after_both(e, seq![a], seq![b]);
    lemma_after_one(e, a);
    lemma_after_one(e.step(a), b);
    lemma_after_one(e.step(a).step(b), c);
}

/// The time that a process has after a signal.
pub open spec fn time_for(cfg: KillConfig, signal: Signal) -> u64 {
    match signal {
        Signal::Terminate => cfg.grace_timeout,
        Signal::Kill => cfg.final_verify,
    }
}

proof fn lemma_waiting(
    e: EscalationView,
    signal: Signal,
    rounds: Seq<(Result<bool, AppErrorView>, u64)>,
)
    requires
        e.stage == StageView::Probing(signal),
        in_vain(rounds, time_for(e.cfg, signal)),
    ensures
        e.after(waiting(rounds)) == e,
    decreases rounds.len(),
{
    if rounds.len() > 0 {
        let front = rounds.drop_last();
        let last = rounds[rounds.len() - 1];
        assert forall|i: int| 0 <= i < front.len() implies (#[trigger] front[i]).0 != Ok::<
            bool,
            AppErrorView,
        >(true) && front[i].1 < time_for(e.cfg, signal) by {
            assert(front[i] == rounds[i]);
        }
        lemma_waiting(e, signal, front);
        lemma_after_both(e, waiting(front), waiting_round(last.0, last.1));
        lemma_after_three(
            e,
            KillReplyView::Probed(last.0),
            KillReplyView::Elapsed(last.1),
            KillReplyView::Paused,
        );
    }
}

/// However many rounds have been waited in vain after a signal was delivered: if there
/// was time left in each, the port is looked at again; and if that look shows the
/// process gone, the attempt is a success of that signal.
pub proof fn law_late_success(
    e: EscalationView,
    signal: Signal,
    rounds: Seq<(Result<bool, AppErrorView>, u64)>,
)
    requires
        e.request() == Some(KillRequest::Send { pid: e.pid, signal }),
        in_vain(rounds, time_for(e.cfg, signal)),
    ensures
        ({
            let waited = e.step(KillReplyView::Sent(Ok(()))).after(waiting(rounds));
            &&& waited.request() == Some(KillRequest::Probe { port: e.port, pid: e.pid })
            &&& waited.step(KillReplyView::Probed(Ok(true))).stage == StageView::Finished(
                Ok(
                    match signal {
                        Signal::Terminate => KillOutcomeView::GracefulSuccess {
                            port: e.port,
                            pid: e.pid,
                        },
                        Signal::Kill => KillOutcomeView::ForcefulSuccess {
                            port: e.port,
                            pid: e.pid,
                        },
                    },
                ),
            )
        }),
{
    lemma_waiting(e.step(KillReplyView::Sent(Ok(()))), signal, rounds);
}

/// When a look in vain is followed by a clock that says that the time is over, `SIGTERM`
/// is followed by `SIGKILL`, and `SIGKILL` by a failure.
pub proof fn law_time_runs_out(
    e: EscalationView,
    signal: Signal,
    rounds: Seq<(Result<bool, AppErrorView>, u64)>,
    found: Result<bool, AppErrorView>,
    millis: u64,
)
    requires
        e.request() == Some(KillRequest::Send { pid: e.pid, signal }),
        in_vain(rounds, time_for(e.cfg, signal)),
        found != Ok::<bool, AppErrorView>(true),
        millis >= time_for(e.cfg, signal),
    ensures
        ({
            let waited = e.step(KillReplyView::Sent(Ok(()))).after(waiting(rounds));
            let next = waited.step(KillReplyView::Probed(found)).step(
                KillReplyView::Elapsed(millis),
            );
            match signal {
                Signal::Terminate => next.request() == Some(
                    KillRequest::Send { pid: e.pid, signal: Signal::Kill },
                ),
                Signal::Kill => next.stage == StageView::Finished(
                    Ok(
                        KillOutcomeView::Failed {
                            port: e.port,
                            pid: e.pid,
                            reason: stuck(e.port, e.pid, e.force),
                        },
                    ),
                ),
            }
        }),
{
    lemma_waiting(e.step(KillReplyView::Sent(Ok(()))), signal, rounds);
}

/// The same at one more port of a process, with the time counted from the beginning of
/// the attempt there.
pub proof fn law_resumed_course(
    port: u16,
    pid: u32,
    force: bool,
    cfg: KillConfig,
    signal: Signal,
    rounds: Seq<(Result<bool, AppErrorView>, u64)>,
    found: Result<bool, AppErrorView>,
    millis: u64,
)
    requires
        in_vain(rounds, time_for(cfg, signal)),
        found != Ok::<bool, AppErrorView>(true),
        millis >= time_for(cfg, signal),
    ensures
        ({
            let waited = EscalationView::resume(port, pid, force, cfg, signal).step(
                KillReplyView::ClockStarted,
            ).after(waiting(rounds));
            let next = waited.step(KillReplyView::Probed(found)).step(
                KillReplyView::Elapsed(millis),
            );
            &&& waited.request() == Some(KillRequest::Probe { port, pid })
            &&& waited.step(KillReplyView::Probed(Ok(true))).stage == StageView::Finished(
                Ok(
                    match signal {
                        Signal::Terminate => KillOutcomeView::GracefulSuccess { port, pid },
                        Signal::Kill => KillOutcomeView::ForcefulSuccess { port, pid },
                    },
                ),
            )
            &&& match signal {
                Signal::Terminate => next.request() == Some(
                    KillRequest::Send { pid, signal: Signal::Kill },
                ),
                Signal::Kill => next.stage == StageView::Finished(
                    Ok(
                        KillOutcomeView::Failed { port, pid, reason: stuck(port, pid, force) },
                    ),
                ),
            }
        }),
{
    let e = EscalationView::resume(port, pid, force, cfg, signal).step(
        KillReplyView::ClockStarted,
    );
    lemma_waiting(e, signal, rounds);
}

/// Whether the reply at `k` is one to a pause.
pub open spec fn paused_at(e: EscalationView, replies: Seq<KillReplyView>, k: int) -> bool {
    &&& 0 <= k < replies.len()
    &&& e.after(replies.take(k)).request() matches Some(KillRequest::Pause { .. })
    &&& replies[k] is Paused
}

/// Whether the reply at `k` is one to a look at the port, and does not say that the
/// process is gone.
pub open spec fn looked_in_vain_at(e: EscalationView, replies: Seq<KillReplyView>, k: int) -> bool {
    &&& 0 <= k < replies.len()
    &&& e.after(replies.take(k)).request() == Some(KillRequest::Probe { port: e.port, pid: e.pid })
    &&& replies[k] matches KillReplyView::Probed(found) && found != Ok::<bool, AppErrorView>(true)
}

/// Between every pause and a later failure, or a later `SIGKILL`, the port was looked at
/// once more, in vain.
pub proof fn law_gives_up_only_after_a_look(
    e: EscalationView,
    replies: Seq<KillReplyView>,
    k: int,
)
    requires
        paused_at(e, replies, k),
        ({
            let now = e.after(replies);
            ||| now.request() matches Some(KillRequest::Send { .. })
            ||| now.stage matches StageView::Finished(Ok(KillOutcomeView::Failed { .. }))
        }),
    ensures
        exists|m: int| k < m && looked_in_vain_at(e, replies, m),
{
    lemma_looked(e, replies, k);
}

proof fn lemma_looked(e: EscalationView, replies: Seq<KillReplyView>, k: int)
    requires
        paused_at(e, replies, k),
    ensures
        ({
            let now = e.after(replies);
            ||| exists|m: int| k < m && looked_in_vain_at(e, replies, m)
            ||| now.stage is Probing
            ||| now.stage matches StageView::Finished(Ok(outcome)) && outcome !is Failed
        }),
        e.after(replies).port == e.port,
        e.after(replies).pid == e.pid,
    decreases replies.len(),
{
    let before = replies.drop_last();
    let n = replies.len() - 1;
    assert(replies.take(n) =~= before);
    lemma_target_kept(e, before);
    if k < n {
        assert(before.take(k) =~= replies.take(k));
        lemma_looked(e, before, k);
        if exists|m: int| k < m && looked_in_vain_at(e, before, m) {
            let m = choose|m: int| k < m && looked_in_vain_at(e, before, m);
            assert(before.take(m) =~= replies.take(m));
            assert(looked_in_vain_at(e, replies, m));
        } else if e.after(before).stage is Probing {
            if let KillReplyView::Probed(found) = replies.last() {
                if found != Ok::<bool, AppErrorView>(true) {
                    assert(looked_in_vain_at(e, replies, n));
                }
            }
        }
    }
}

proof fn lemma_target_kept(e: EscalationView, replies: Seq<KillReplyView>)
    ensures
        e.after(replies).port == e.port,
        e.after(replies).pid == e.pid,
    decreases replies.len(),
{
    if replies.len() > 0 {
        lemma_target_kept(e, replies.drop_last());
    }
}

/// What is over stays over, and asks for nothing.
pub proof fn law_over_is_over(e: EscalationView, reply: KillReplyView)
    requires
        e.stage is Finished,
    ensures
        e.request() is None,
        e.step(reply) == e,
{
    law_progress(e, reply);
}

/// The last signal that has reached the process: none at the beginning; the one that
/// another port has told of; then each that is delivered, until the next one is.
pub proof fn law_delivered(
    port: u16,
    pid: u32,
    force: bool,
    cfg: KillConfig,
    e: EscalationView,
    signal: Signal,
    reply: KillReplyView,
)
    ensures
        EscalationView::start(port, pid, force, cfg).delivered() is None,
        EscalationView::resume(port, pid, force, cfg, signal).delivered() == Some(signal),
        e.request() == Some(KillRequest::Send { pid: e.pid, signal }) ==> e.step(
            KillReplyView::Sent(Ok(())),
        ).delivered() == Some(signal),
        !e.force && !(e.request() matches Some(KillRequest::Send { .. })) && e.step(reply).stage
            !is Finished ==> e.step(reply).delivered() == e.delivered(),
{
}

/// Which outcomes are successes.
pub proof fn law_successes(port: u16, pid: u32, reason: Seq<char>)
    ensures
        (KillOutcomeView::GracefulSuccess { port, pid }).success(),
        (KillOutcomeView::ForcefulSuccess { port, pid }).success(),
        !(KillOutcomeView::Failed { port, pid, reason }).success(),
{
}

/// Why a process counts as not ended names the process, the port and the last signal.
pub proof fn law_failure_names(port: u16, pid: u32, force: bool)
    ensures
        occurs(stuck(port, pid, force), "PID "@ + dec(pid as nat)),
        occurs(stuck(port, pid, force), "port "@ + dec(port as nat)),
        occurs(stuck(port, pid, force), "SIGKILL"@),
        occurs(stuck(port, pid, force), "SIGTERM"@) <==> !force,
{
    reveal_strlit("PID ");
    reveal_strlit(" still bound to port ");
    reveal_strlit("port ");
    reveal_strlit("SIGKILL");
    reveal_strlit("SIGTERM");
    reveal_strlit(" after SIGKILL (zombie/stuck or restarted)");
    reveal_strlit(" after SIGTERM→SIGKILL (zombie/stuck or restarted)");
    let s = stuck(port, pid, force);
    let p = dec(pid as nat);
    let q = dec(port as nat);
    let none = Seq::<char>::empty();
    let tail = if force {
        " after SIGKILL (zombie/stuck or restarted)"@
    } else {
        " after SIGTERM→SIGKILL (zombie/stuck or restarted)"@
    };
    let bound = " still bound to port "@;
    assert(s =~= none + ("PID "@ + p) + (bound + q + tail));
    law_part_occurs(none, "PID "@ + p, bound + q + tail);
    let head = "PID "@ + p + bound.take(16);
    assert(s =~= head + ("port "@ + q) + tail);
    law_part_occurs(head, "port "@ + q, tail);
    let front = "PID "@ + p + bound + q;
    if force {
        assert(s =~= (front + tail.take(7)) + "SIGKILL"@ + tail.skip(14));
        law_part_occurs(front + tail.take(7), "SIGKILL"@, tail.skip(14));
        if occurs(s, "SIGTERM"@) {
            let i = choose|i: int| occurs_at(s, "SIGTERM"@, i);
            let found = s.subrange(i, i + 7);
            assert(found[3] == 'T' && found[3] == s[i + 3]);
            lemma_dec(pid as nat);
            lemma_dec(port as nat);
            let k = i + 3;
            if 4 <= k < 4 + p.len() {
                assert(s[k] == p[k - 4]);
                assert(digit(p[k - 4]) < 10);
            }
            let at = 25 + p.len() as int;
            if at <= k < at + q.len() {
                assert(s[k] == q[k - at]);
                assert(digit(q[k - at]) < 10);
            }
            if 4 + p.len() <= k < at {
                assert(s[k] == bound[k - 4 - p.len()]);
            }
            if at + q.len() <= k {
                assert(s[k] == tail[k - at - q.len()]);
            }
        }
    } else {
        assert(s =~= (front + tail.take(7)) + "SIGTERM"@ + tail.skip(14));
        law_part_occurs(front + tail.take(7), "SIGTERM"@, tail.skip(14));
        assert(s =~= (front + tail.take(15)) + "SIGKILL"@ + tail.skip(22));
        law_part_occurs(front + tail.take(15), "SIGKILL"@, tail.skip(22));
    }
}

// ---------------------------------------------------------------------------
// Signals
// ---------------------------------------------------------------------------

/// Which numbers stand for exactly one process.
pub proof fn law_single_process(pid: u32)
    ensures
        single_process(pid) <==> 1 <= pid && pid < 0x8000_0000,
{
}

/// What the answers of a POSIX system mean: a process that was signalled, or has already
/// gone, is no error; another user's process is one that access is denied to; and any
/// other failure is told, with the process and what the system said.
pub proof fn law_posix_answers(pid: u32, detail: String)
    ensures
        delivery(pid, PosixReply::Delivered) == Ok::<(), AppErrorView>(()),
        delivery(pid, PosixReply::NoSuchProcess) == Ok::<(), AppErrorView>(()),
        delivery(pid, PosixReply::NotPermitted) == Err::<(), AppErrorView>(
            AppErrorView::AccessDenied { port: 0 },
        ),
        delivery(pid, PosixReply::Other { detail }) matches Err(
            AppErrorView::KillFailed { message },
        ) && occurs(message, "PID "@ + dec(pid as nat)) && occurs(message, detail@),
{
    reveal_strlit("PID ");
    reveal_strlit("could not signal PID ");
    lemma_names("could not signal PID "@, dec(pid as nat), ": "@ + detail@);
    lemma_tells("could not signal PID "@ + dec(pid as nat) + ": "@, detail@);
    assert("could not signal PID "@ + dec(pid as nat) + ": "@ + detail@
        =~= "could not signal PID "@ + dec(pid as nat) + (": "@ + detail@));
}

/// What the answers of Windows mean: a process that was ended, or has already gone, is no
/// error; any failure is told, with the process and what the system said.
pub proof fn law_windows_answers(pid: u32, detail: String)
    ensures
        termination(pid, TerminateReply::Terminated) == Ok::<(), AppErrorView>(()),
        termination(pid, TerminateReply::NoSuchProcess) == Ok::<(), AppErrorView>(()),
        termination(pid, TerminateReply::NotOpened) matches Err(
            AppErrorView::KillFailed { message },
        ) && occurs(message, "PID "@ + dec(pid as nat)),
        termination(pid, TerminateReply::Refused { detail }) matches Err(
            AppErrorView::KillFailed { message },
        ) && occurs(message, "PID "@ + dec(pid as nat)) && occurs(message, detail@),
{
    reveal_strlit("PID ");
    reveal_strlit("could not open PID ");
    reveal_strlit("could not terminate PID ");
    let question = " for termination (is it running / do you have permission?)"@;
    lemma_names("could not open PID "@, dec(pid as nat), question);
    lemma_names("could not terminate PID "@, dec(pid as nat), ": "@ + detail@);
    lemma_tells("could not terminate PID "@ + dec(pid as nat) + ": "@, detail@);
    assert("could not terminate PID "@ + dec(pid as nat) + ": "@ + detail@
        =~= "could not terminate PID "@ + dec(pid as nat) + (": "@ + detail@));
}

/// The error for a number that stands for no single process names it, and says why.
pub proof fn law_bad_pid(pid: u32)
    ensures
        bad_pid(pid) matches AppErrorView::Internal { message } && occurs(
            message,
            "PID "@ + dec(pid as nat),
        ) && occurs(message, "invalid PID"@),
{
    reveal_strlit("PID ");
    reveal_strlit("refusing to signal PID ");
    let refusing = "refusing to signal PID "@;
    let why = ": invalid PID (would target a process group or every process)"@;
    let p = dec(pid as nat);
    lemma_names(refusing, p, why);
    assert(occurs(refusing + p + why, "invalid PID"@)) by {
        reveal_strlit("invalid PID");
        reveal_strlit(": invalid PID (would target a process group or every process)");
        assert(refusing + p + why =~= (refusing + p + why.take(2)) + "invalid PID"@ + why.skip(
            13,
        ));
        law_part_occurs(refusing + p + why.take(2), "invalid PID"@, why.skip(13));
    }
}

/// A text that ends with `PID `, followed by a number, names it.
proof fn lemma_names(before: Seq<char>, number: Seq<char>, after: Seq<char>)
    requires
        before.len() >= 4,
        before.skip(before.len() - 4) =~= "PID "@,
    ensures
        occurs(before + number + after, "PID "@ + number),
{
    let n = before.len() - 4;
    assert(before =~= before.take(n) + "PID "@);
    assert(before + number + after =~= before.take(n) + ("PID "@ + number) + after);
    law_part_occurs(before.take(n), "PID "@ + number, after);
}

/// What a text ends with occurs in it.
proof fn lemma_tells(before: Seq<char>, detail: Seq<char>)
    ensures
        occurs(before + detail, detail),
{
    assert(before + detail =~= before + detail + Seq::<char>::empty());
    law_part_occurs(before, detail, Seq::empty());
}

} // verus!
