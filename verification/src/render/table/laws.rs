//! What the human view says.

use vstd::prelude::*;

use crate::render::paint::{reset, CellColor, Tint};
use crate::render::table::{
    all_pieces, any_table, details_shown, document, drawn, duration_text, failed_among,
    failure_pieces, failures, footer_pieces, headings, lemma_piece_in_document,
    lemma_piece_is_drawn, lemma_tinted_occurs, port_pieces, row_shown, sanitized, status_shown,
    status_view, truncated, user_shown, verdict_pieces, Piece,
};
use crate::render::types::{
    PortResultView, ProcessResultView, ProcessStatus, RunMode, SignalKind, TableOptions,
};
use crate::text::{control, dec, digit, lemma_dec, lemma_occurs_within, occurs, occurs_at};

verus! {

// ---------------------------------------------------------------------------
// Texts of cells
// ---------------------------------------------------------------------------

/// A time is told by its days, hours, minutes and seconds: the greatest of them that is not
/// zero comes first; from one day on, the seconds are left out.
pub proof fn law_duration(d: nat, h: nat, m: nat, s: nat)
    requires
        h < 24,
        m < 60,
        s < 60,
    ensures
        duration_text(s) == dec(s) + "s"@,
        m > 0 ==> duration_text(m * 60 + s) == dec(m) + "m "@ + dec(s) + "s"@,
        h > 0 ==> duration_text(h * 3600 + m * 60 + s) == dec(h) + "h "@ + dec(m) + "m "@ + dec(s)
            + "s"@,
        d > 0 ==> duration_text(d * 86400 + h * 3600 + m * 60 + s) == dec(d) + "d "@ + dec(h)
            + "h "@ + dec(m) + "m"@,
{
    let a = m * 60 + s;
    assert(a / 3600 == 0 && (a % 3600) / 60 == m && a % 60 == s && a / 86400 == 0);
    assert(s / 3600 == 0 && (s % 3600) / 60 == 0 && s % 60 == s && s / 86400 == 0);
    let b = h * 3600 + m * 60 + s;
    assert(b / 3600 == h && b % 3600 == a && b % 60 == s && b / 86400 == 0);
    let c = d * 86400 + b;
    assert(c / 86400 == d);
    assert(c / 3600 == d * 24 + h);
    assert((d * 24 + h) % 24 == h);
    assert(c % 3600 == a);
}

/// A text that is not too long is shown whole; of a longer one its beginning is shown, and
/// an ellipsis in place of the rest.
pub proof fn law_truncated(kept: Seq<char>, rest: Seq<char>, max: nat)
    ensures
        kept.len() <= max ==> truncated(kept, max) == kept,
        kept.len() + 1 == max && rest.len() >= 2 ==> truncated(kept + rest, max) == kept.push('…'),
        rest.len() > 0 ==> truncated(rest, 0) == seq!['…'],
{
    reveal_strlit("…");
    assert("…"@ =~= seq!['…']);
    if kept.len() + 1 == max {
        assert((kept + rest).take(max - 1) =~= kept);
        assert(kept + "…"@ =~= kept.push('…'));
    }
}

/// A control character is shown as a space, every other as it is.
pub proof fn law_sanitized_each(text: Seq<char>, i: int)
    requires
        0 <= i < text.len(),
    ensures
        sanitized(text).len() == text.len(),
        control(text[i]) ==> sanitized(text)[i] == ' ',
        !control(text[i]) ==> sanitized(text)[i] == text[i],
{
}

/// The user is shown by name, if there is one.
pub proof fn law_user(row: ProcessResultView)
    ensures
        row.user matches Some(user) ==> user_shown(row) == user,
        row.user is None ==> user_shown(row) == "unknown"@,
{
}

/// The details are the command line, if there is one; else how long the process has been
/// running; else where it does; else a dash. Of a command line or a directory at most 64
/// characters are shown, an ellipsis among them.
pub proof fn law_details(row: ProcessResultView)
    ensures
        row.command matches Some(command) ==> is_cut_to_64(sanitized(command), details_shown(row)),
        row.command is None && row.uptime_secs is Some ==> details_shown(row) == "up "@
            + duration_text(row.uptime_secs->0 as nat),
        row.command is None && row.uptime_secs is None && row.cwd is Some ==> is_cut_to_64(
            sanitized(row.cwd->0),
            details_shown(row),
        ),
        row.command is None && row.uptime_secs is None && row.cwd is None ==> details_shown(row)
            == seq!['—'],
{
    reveal_strlit("—");
    reveal_strlit("…");
    assert("—"@ =~= seq!['—']);
    assert("…"@ =~= seq!['…']);
    if let Some(command) = row.command {
        assert(sanitized(command).take(63) + "…"@ =~= sanitized(command).take(63).push('…'));
    }
    if let Some(cwd) = row.cwd {
        assert(sanitized(cwd).take(63) + "…"@ =~= sanitized(cwd).take(63).push('…'));
    }
}

/// Whether `shown` is the text, or, if it is longer than 64 characters, its first 63 and an
/// ellipsis.
pub open spec fn is_cut_to_64(text: Seq<char>, shown: Seq<char>) -> bool {
    if text.len() <= 64 {
        shown == text
    } else {
        shown == text.take(63).push('…')
    }
}

/// What happened to a process is told with the signal that did it, or would.
pub proof fn law_status(row: ProcessResultView)
    ensures
        row.status == ProcessStatus::Info ==> status_shown(row) == seq!['—'],
        row.status == ProcessStatus::Failed ==> status_shown(row) == "Failed"@,
        row.status == ProcessStatus::DryRun && row.signal == Some(SignalKind::Sigterm)
            ==> status_shown(row) == "[Dry Run] Would send "@ + "SIGTERM"@,
        row.status == ProcessStatus::DryRun && row.signal == Some(SignalKind::Sigkill)
            ==> status_shown(row) == "[Dry Run] Would send "@ + "SIGKILL"@,
        row.status == ProcessStatus::DryRun && row.signal is None ==> status_shown(row)
            == "[Dry Run] Would send "@ + "SIGTERM"@,
        row.status == ProcessStatus::Terminated && row.signal != Some(SignalKind::Sigkill)
            ==> status_shown(row) == "Terminated ("@ + "SIGTERM"@ + ")"@,
        row.status == ProcessStatus::Terminated && row.signal == Some(SignalKind::Sigkill)
            ==> status_shown(row) == "Terminated ("@ + "SIGKILL"@ + ")"@,
        row.status == ProcessStatus::Killed && row.signal != Some(SignalKind::Sigterm)
            ==> status_shown(row) == "Killed ("@ + "SIGKILL"@ + ")"@,
        row.status == ProcessStatus::Killed && row.signal == Some(SignalKind::Sigterm)
            ==> status_shown(row) == "Killed ("@ + "SIGTERM"@ + ")"@,
{
    reveal_strlit("—");
    assert("—"@ =~= seq!['—']);
}

/// A failure stands out: it is red and bold, and nothing else is. What went well is green,
/// what would be done yellow, and what was only seen grey.
pub proof fn law_status_look(row: ProcessResultView)
    ensures
        status_view(row).text == status_shown(row),
        status_view(row).color == Some(CellColor::Red) <==> row.status == ProcessStatus::Failed,
        status_view(row).bold <==> row.status == ProcessStatus::Failed,
        status_view(row).color == Some(CellColor::Green) <==> row.status
            == ProcessStatus::Terminated || row.status == ProcessStatus::Killed,
        status_view(row).color == Some(CellColor::Yellow) <==> row.status == ProcessStatus::DryRun,
        status_view(row).color == Some(CellColor::Grey) <==> row.status == ProcessStatus::Info,
        !status_view(row).right,
{
}

/// There is a column for what happened only when something was done, or simulated.
pub proof fn law_status_column(mode: RunMode)
    ensures
        (TableOptions { mode }).status_shown() <==> mode == RunMode::DryRun || mode
            == RunMode::Kill,
        headings((TableOptions { mode }).status_shown()).len() == if mode == RunMode::DryRun || mode
            == RunMode::Kill {
            6
        } else {
            5int
        },
{
}

/// Each column of a row is the one that its heading names, and numbers stand at the right.
pub proof fn law_columns(port: u16, row: ProcessResultView, status: bool, k: int)
    ensures
        headings(status).len() == row_shown(port, row, status).len(),
        0 <= k < headings(status).len() ==> {
            let heading = headings(status)[k];
            let shown = row_shown(port, row, status)[k];
            &&& k == 0 ==> heading.text == "PORT"@ && shown.text == dec(port as nat)
            &&& k == 1 ==> heading.text == "PID"@ && shown.text == dec(row.pid as nat)
            &&& k == 2 ==> heading.text == "PROCESS"@ && shown.text == sanitized(row.name)
            &&& k == 3 ==> heading.text == "USER"@ && shown.text == user_shown(row)
            &&& k == 4 ==> heading.text == "DETAILS"@ && shown.text == details_shown(row)
            &&& k == 5 ==> heading.text == "STATUS"@ && shown == status_view(row)
            &&& heading.bold
            &&& heading.right == shown.right
            &&& heading.right <==> k <= 1
            &&& k < 5 ==> !shown.bold
        },
{
}

/// Each column has its colour: the port is cyan, the number of the process yellow, its name
/// green, the user grey; details are white below a grey heading.
pub proof fn law_colours(port: u16, row: ProcessResultView, status: bool)
    ensures
        ({
            let h = headings(status);
            let r = row_shown(port, row, status);
            &&& h[0].color == Some(CellColor::Cyan) && r[0].color == Some(CellColor::Cyan)
            &&& h[1].color == Some(CellColor::Yellow) && r[1].color == Some(CellColor::Yellow)
            &&& h[2].color == Some(CellColor::Green) && r[2].color == Some(CellColor::Green)
            &&& h[3].color == Some(CellColor::Grey) && r[3].color == Some(CellColor::Grey)
            &&& h[4].color == Some(CellColor::Grey) && r[4].color == Some(CellColor::White)
            &&& status ==> h[5].color == Some(CellColor::White)
        }),
{
}

// ---------------------------------------------------------------------------
// What can be read
// ---------------------------------------------------------------------------

/// Whether the text tells a terminal nothing.
pub open spec fn is_clean(text: Seq<char>) -> bool {
    forall|i: int| 0 <= i < text.len() ==> #[trigger] text[i] != '\x1b'
}

proof fn lemma_clean(text: Seq<char>)
    requires
        is_clean(text),
    ensures
        !occurs(text, reset()),
{
    reveal_strlit("\x1b[0m");
    if occurs(text, reset()) {
        let i = choose|i: int| occurs_at(text, reset(), i);
        assert(text.subrange(i, i + reset().len())[0] == reset()[0]);
        assert(text[i] == '\x1b');
    }
}

proof fn lemma_clean_number(n: nat)
    ensures
        is_clean(dec(n)),
{
    lemma_dec(n);
    assert forall|i: int| 0 <= i < dec(n).len() implies #[trigger] dec(n)[i] != '\x1b' by {
        assert(digit(dec(n)[i]) < 10);
    }
}

proof fn lemma_clean_both(a: Seq<char>, b: Seq<char>)
    requires
        is_clean(a),
        is_clean(b),
    ensures
        is_clean(a + b),
{
    assert forall|i: int| 0 <= i < (a + b).len() implies #[trigger] (a + b)[i] != '\x1b' by {
        if i < a.len() {
            assert((a + b)[i] == a[i]);
        } else {
            assert((a + b)[i] == b[i - a.len()]);
        }
    }
}

/// What a piece of a port says can be read in the view.
proof fn lemma_reads(
    results: Seq<PortResultView>,
    opts: TableOptions,
    out: Seq<char>,
    i: int,
    m: int,
    text: Seq<char>,
)
    requires
        drawn(document(results, opts), out),
        0 <= i < results.len(),
        0 <= m < port_pieces(results[i], opts).len(),
        match port_pieces(results[i], opts)[m] {
            Piece::Plain { text: shown } => shown == text,
            Piece::Tinted { text: shown, .. } => shown == text && !occurs(text, reset()),
            Piece::Grid { .. } => false,
        },
    ensures
        occurs(out, text),
{
    let k = lemma_piece_in_document(results, opts, i, m);
    let pieces = document(results, opts);
    assert(pieces[k] == port_pieces(results[i], opts)[m]);
    let part = lemma_piece_is_drawn(pieces, out, k);
    if let Piece::Tinted { text: shown, tint } = pieces[k] {
        lemma_tinted_occurs(text, tint, part);
        lemma_occurs_within(out, part, text);
    }
}

/// In the view it can be read of every free port that it is.
pub proof fn law_every_free_port_is_shown(
    results: Seq<PortResultView>,
    opts: TableOptions,
    out: Seq<char>,
    i: int,
)
    requires
        drawn(document(results, opts), out),
        0 <= i < results.len(),
        results[i].free == Some(true),
        results[i].error is None,
    ensures
        occurs(out, "Port "@ + dec(results[i].port as nat) + " is free."@),
{
    let n = dec(results[i].port as nat);
    let text = "Port "@ + n + " is free."@;
    assert(is_clean(text)) by {
        reveal_strlit("Port ");
        reveal_strlit(" is free.");
        lemma_clean_number(results[i].port as nat);
        lemma_clean_both("Port "@, n);
        lemma_clean_both("Port "@ + n, " is free."@);
    }
    lemma_clean(text);
    assert(port_pieces(results[i], opts)[1] == (Piece::Tinted { text, tint: Tint::GreenBold }));
    lemma_reads(results, opts, out, i, 1, text);
}

/// In the view it can be read of every port that is neither free nor an error that it is in
/// use.
pub proof fn law_every_occupied_port_is_shown(
    results: Seq<PortResultView>,
    opts: TableOptions,
    out: Seq<char>,
    i: int,
)
    requires
        drawn(document(results, opts), out),
        0 <= i < results.len(),
        results[i].free != Some(true),
        results[i].error is None,
    ensures
        occurs(out, "Port "@),
        occurs(out, dec(results[i].port as nat)),
        occurs(out, " — in use\n"@),
{
    let n = dec(results[i].port as nat);
    lemma_clean_number(results[i].port as nat);
    lemma_clean(n);
    let pieces = port_pieces(results[i], opts);
    assert(pieces[0] == (Piece::Plain { text: "Port "@ }));
    assert(pieces[1] == (Piece::Tinted { text: n, tint: Tint::CyanBold }));
    assert(pieces[2] == (Piece::Plain { text: " — in use\n"@ }));
    lemma_reads(results, opts, out, i, 0, "Port "@);
    lemma_reads(results, opts, out, i, 1, n);
    lemma_reads(results, opts, out, i, 2, " — in use\n"@);
}

/// When ports were only inspected, the view says below each table how many processes there
/// are, and how to end them.
pub proof fn law_inspection_says_how_to_go_on(
    results: Seq<PortResultView>,
    out: Seq<char>,
    i: int,
)
    requires
        drawn(document(results, TableOptions { mode: RunMode::Inspect }), out),
        0 <= i < results.len(),
        results[i].free != Some(true),
        results[i].error is None,
    ensures
        occurs(
            out,
            dec(results[i].processes.len()) + " process(es) on port "@ + dec(
                results[i].port as nat,
            ) + "; inspect only — run `"@,
        ),
        occurs(out, "pk --kill "@ + dec(results[i].port as nat)),
{
    let opts = TableOptions { mode: RunMode::Inspect };
    let n = dec(results[i].port as nat);
    let says = dec(results[i].processes.len()) + " process(es) on port "@ + n
        + "; inspect only — run `"@;
    let hint = "pk --kill "@ + n;
    assert(is_clean(hint)) by {
        reveal_strlit("pk --kill ");
        lemma_clean_number(results[i].port as nat);
        lemma_clean_both("pk --kill "@, n);
    }
    lemma_clean(hint);
    let pieces = port_pieces(results[i], opts);
    assert(pieces[5] == (Piece::Plain { text: says }));
    assert(pieces[6] == (Piece::Tinted { text: hint, tint: Tint::Yellow }));
    lemma_reads(results, opts, out, i, 5, says);
    lemma_reads(results, opts, out, i, 6, hint);
}

/// After a dry run, the view says below each table how many processes would be ended.
pub proof fn law_dry_run_says_what_would_be_done(
    results: Seq<PortResultView>,
    out: Seq<char>,
    i: int,
)
    requires
        drawn(document(results, TableOptions { mode: RunMode::DryRun }), out),
        0 <= i < results.len(),
        results[i].free != Some(true),
        results[i].error is None,
    ensures
        occurs(
            out,
            "Dry run: would terminate "@ + dec(results[i].processes.len())
                + " process(es) on port "@ + dec(results[i].port as nat) + ".\n"@,
        ),
        occurs(out, "Dry run — no signals were sent.\n"@),
{
    let opts = TableOptions { mode: RunMode::DryRun };
    let count = results[i].processes.len();
    let n = dec(results[i].port as nat);
    let says = "Dry run: would terminate "@ + dec(count) + " process(es) on port "@ + n + ".\n"@;
    assert(is_clean(says)) by {
        lemma_clean_dry_run();
        lemma_clean_number(count);
        lemma_clean_number(results[i].port as nat);
        lemma_clean_both("Dry run: would terminate "@, dec(count));
        let a = "Dry run: would terminate "@ + dec(count);
        lemma_clean_both(a, " process(es) on port "@);
        lemma_clean_both(a + " process(es) on port "@, n);
        lemma_clean_both(a + " process(es) on port "@ + n, ".\n"@);
    }
    lemma_clean(says);
    assert(port_pieces(results[i], opts)[5] == (Piece::Tinted { text: says, tint: Tint::Yellow }));
    lemma_reads(results, opts, out, i, 5, says);
    lemma_footer(results, opts, out, i, "Dry run — no signals were sent.\n"@);
}

proof fn lemma_clean_dry_run()
    ensures
        is_clean("Dry run: would terminate "@),
        is_clean(" process(es) on port "@),
        is_clean(".\n"@),
        is_clean("Dry run — no signals were sent.\n"@),
        is_clean("Aborted — no processes were terminated.\n"@),
{
    reveal_strlit("Dry run: would terminate ");
    reveal_strlit(" process(es) on port ");
    reveal_strlit(".\n");
    reveal_strlit("Dry run — no signals were sent.\n");
    reveal_strlit("Aborted — no processes were terminated.\n");
}

/// What is said below all ports can be read.
proof fn lemma_footer(
    results: Seq<PortResultView>,
    opts: TableOptions,
    out: Seq<char>,
    i: int,
    text: Seq<char>,
)
    requires
        drawn(document(results, opts), out),
        0 <= i < results.len(),
        results[i].free != Some(true),
        results[i].error is None,
        opts.mode == RunMode::DryRun && text == "Dry run — no signals were sent.\n"@ || opts.mode
            == RunMode::Aborted && text == "Aborted — no processes were terminated.\n"@,
    ensures
        occurs(out, text),
{
    assert(!results[i].is_error() && !results[i].is_free());
    assert(any_table(results));
    let pieces = document(results, opts);
    let k = all_pieces(results, opts).len() as int;
    assert(footer_pieces(results, opts.mode)[0] == (Piece::Tinted { text, tint: Tint::Yellow }));
    assert(pieces[k] == (Piece::Tinted { text, tint: Tint::Yellow }));
    let part = lemma_piece_is_drawn(pieces, out, k);
    lemma_clean_dry_run();
    lemma_clean(text);
    lemma_tinted_occurs(text, Tint::Yellow, part);
    lemma_occurs_within(out, part, text);
}

/// After a no, the view says that nothing was ended.
pub proof fn law_no_is_confirmed(results: Seq<PortResultView>, out: Seq<char>, i: int)
    requires
        drawn(document(results, TableOptions { mode: RunMode::Aborted }), out),
        0 <= i < results.len(),
        results[i].free != Some(true),
        results[i].error is None,
    ensures
        occurs(out, "Aborted — no processes were terminated.\n"@),
{
    lemma_footer(
        results,
        TableOptions { mode: RunMode::Aborted },
        out,
        i,
        "Aborted — no processes were terminated.\n"@,
    );
}

/// Below all ports something is said only after a dry run or a no, and only if a port is
/// in use.
pub proof fn law_footer(results: Seq<PortResultView>, mode: RunMode)
    ensures
        mode != RunMode::DryRun && mode != RunMode::Aborted ==> document(
            results,
            TableOptions { mode },
        ) == all_pieces(results, TableOptions { mode }),
        (forall|i: int|
            0 <= i < results.len() ==> (#[trigger] results[i]).free == Some(true)
                || results[i].error is Some) ==> document(results, TableOptions { mode })
            == all_pieces(results, TableOptions { mode }),
{
    let opts = TableOptions { mode };
    if forall|i: int|
        0 <= i < results.len() ==> (#[trigger] results[i]).free == Some(true)
            || results[i].error is Some {
        assert(!any_table(results));
    }
    assert(all_pieces(results, opts) + Seq::<Piece>::empty() =~= all_pieces(results, opts));
}

/// Each port is shown on its own, and in the order of the results.
pub proof fn law_ports_are_shown_in_order(
    a: Seq<PortResultView>,
    port: PortResultView,
    opts: TableOptions,
)
    ensures
        all_pieces(Seq::empty(), opts) == Seq::<Piece>::empty(),
        all_pieces(a.push(port), opts) == all_pieces(a, opts) + port_pieces(port, opts),
{
    assert(a.push(port).drop_last() =~= a);
}

/// The lines about failures are those about each process in turn: none for one that did not
/// fail.
pub proof fn law_failures_in_order(
    port: u16,
    before: Seq<ProcessResultView>,
    row: ProcessResultView,
)
    ensures
        failures(port, Seq::empty()) == Seq::<Piece>::empty(),
        row.status == ProcessStatus::Failed ==> failures(port, before.push(row)) == failures(
            port,
            before,
        ) + failure_pieces(port, row),
        row.status != ProcessStatus::Failed ==> failures(port, before.push(row)) == failures(
            port,
            before,
        ),
{
    assert(before.push(row).drop_last() =~= before);
}

proof fn lemma_failure_in(port: u16, processes: Seq<ProcessResultView>, j: int) -> (k: int)
    requires
        0 <= j < processes.len(),
        processes[j].status == ProcessStatus::Failed,
    ensures
        0 <= k,
        k + 2 < failures(port, processes).len(),
        failures(port, processes)[k] == failure_pieces(port, processes[j])[0],
        failures(port, processes)[k + 1] == failure_pieces(port, processes[j])[1],
    decreases processes.len(),
{
    let front = processes.drop_last();
    let before = failures(port, front);
    if j == processes.len() - 1 {
        before.len() as int
    } else {
        let k = lemma_failure_in(port, front, j);
        assert(failures(port, processes)[k] == before[k]);
        assert(failures(port, processes)[k + 1] == before[k + 1]);
        k
    }
}

/// After a kill it can be read of every process that could not be ended that it could not,
/// and why, unless the reason itself tells the terminal to reset.
pub proof fn law_every_failure_is_shown(
    results: Seq<PortResultView>,
    out: Seq<char>,
    i: int,
    j: int,
    reason: Seq<char>,
)
    requires
        drawn(document(results, TableOptions { mode: RunMode::Kill }), out),
        0 <= i < results.len(),
        results[i].free != Some(true),
        results[i].error is None,
        0 <= j < results[i].processes.len(),
        results[i].processes[j].status == ProcessStatus::Failed,
        results[i].processes[j].error == Some(reason) || results[i].processes[j].error is None
            && reason == "the signal was delivered but the port stayed bound"@,
        !occurs(reason, reset()),
    ensures
        occurs(
            out,
            "✗ Failed to free port "@ + dec(results[i].port as nat) + " (PID "@ + dec(
                results[i].processes[j].pid as nat,
            ) + "): "@,
        ),
        occurs(out, reason),
{
    let opts = TableOptions { mode: RunMode::Kill };
    let port = results[i];
    let k = lemma_failure_in(port.port, port.processes, j);
    assert(failed_among(port.processes));
    let verdict = verdict_pieces(port, RunMode::Kill);
    assert(verdict == failures(port.port, port.processes));
    let pieces = port_pieces(port, opts);
    assert(pieces[5 + k] == verdict[k]);
    assert(pieces[6 + k] == verdict[k + 1]);
    let text = "✗ Failed to free port "@ + dec(port.port as nat) + " (PID "@ + dec(
        port.processes[j].pid as nat,
    ) + "): "@;
    assert(verdict[k] == (Piece::Plain { text }));
    assert(verdict[k + 1] == (Piece::Tinted { text: reason, tint: Tint::Red }));
    lemma_reads(results, opts, out, i, 5 + k, text);
    lemma_reads(results, opts, out, i, 6 + k, reason);
}

/// After a kill, a port of which no process is left over is said to be free now.
pub proof fn law_success_is_shown(results: Seq<PortResultView>, out: Seq<char>, i: int)
    requires
        drawn(document(results, TableOptions { mode: RunMode::Kill }), out),
        0 <= i < results.len(),
        results[i].free != Some(true),
        results[i].error is None,
        forall|j: int|
            0 <= j < results[i].processes.len() ==> (#[trigger] results[i].processes[j]).status
                != ProcessStatus::Failed,
    ensures
        occurs(out, "✓ Port "@),
        occurs(out, dec(results[i].port as nat)),
        occurs(out, " is now free.\n"@),
{
    let opts = TableOptions { mode: RunMode::Kill };
    let port = results[i];
    assert(!failed_among(port.processes));
    let n = dec(port.port as nat);
    let pieces = port_pieces(port, opts);
    assert(pieces[5] == (Piece::Plain { text: "✓ Port "@ }));
    assert(pieces[6] == (Piece::Tinted { text: n, tint: Tint::GreenBold }));
    assert(pieces[7] == (Piece::Plain { text: " is now free.\n"@ }));
    lemma_clean_number(port.port as nat);
    lemma_clean(n);
    lemma_reads(results, opts, out, i, 5, "✓ Port "@);
    lemma_reads(results, opts, out, i, 6, n);
    lemma_reads(results, opts, out, i, 7, " is now free.\n"@);
}

/// A port is said to be free now only after a kill that left no process over.
pub proof fn law_success_is_true(port: PortResultView, mode: RunMode, m: int)
    requires
        0 <= m < port_pieces(port, TableOptions { mode }).len(),
        port_pieces(port, TableOptions { mode })[m] == (Piece::Plain { text: " is now free.\n"@ }),
    ensures
        mode == RunMode::Kill,
        port.error is None,
        port.free != Some(true),
        forall|j: int|
            0 <= j < port.processes.len() ==> (#[trigger] port.processes[j]).status
                != ProcessStatus::Failed,
{
    let opts = TableOptions { mode };
    lemma_success_text();
    let pieces = port_pieces(port, opts);
    if port.error is None && port.free != Some(true) {
        let verdict = verdict_pieces(port, mode);
        assert(pieces.len() == 6 + verdict.len());
        if 5 <= m < 5 + verdict.len() {
            assert(pieces[m] == verdict[m - 5]);
            if mode == RunMode::Inspect {
                lemma_inspect_text(dec(port.processes.len()), dec(port.port as nat));
            }
        } else {
            assert(m < 5 || m == pieces.len() - 1);
        }
        if mode == RunMode::Kill && failed_among(port.processes) {
            lemma_failure_pieces(port.port, port.processes, m - 5);
        }
        if mode == RunMode::Kill && !failed_among(port.processes) {
            assert forall|j: int| 0 <= j < port.processes.len() implies (
            #[trigger] port.processes[j]).status != ProcessStatus::Failed by {}
        }
    }
}

proof fn lemma_inspect_text(count: Seq<char>, number: Seq<char>)
    ensures
        count + " process(es) on port "@ + number + "; inspect only — run `"@
            != " is now free.\n"@,
{
    reveal_strlit("; inspect only — run `");
    reveal_strlit(" is now free.\n");
    let text = count + " process(es) on port "@ + number + "; inspect only — run `"@;
    assert(text.last() == '`');
    assert(" is now free.\n"@.last() == '\n');
}

proof fn lemma_success_text()
    ensures
        " is now free.\n"@ != "\n"@,
        " is now free.\n"@ != "Port "@,
        " is now free.\n"@ != " — in use\n"@,
        " is now free.\n"@ != "✨ "@,
        " is now free.\n"@ != "⚠ "@,
        " is now free.\n"@ != "` to free them.\n"@,
        " is now free.\n"@ != "✓ Port "@,
{
    reveal_strlit(" is now free.\n");
    reveal_strlit("\n");
    reveal_strlit("Port ");
    reveal_strlit(" — in use\n");
    reveal_strlit("✨ ");
    reveal_strlit("⚠ ");
    reveal_strlit("` to free them.\n");
    reveal_strlit("✓ Port ");
    assert(" is now free.\n"@.len() == 14);
    assert("` to free them.\n"@.len() == 16);
}

proof fn lemma_failure_pieces(port: u16, processes: Seq<ProcessResultView>, m: int)
    ensures
        0 <= m < failures(port, processes).len() ==> failures(port, processes)[m]
            != (Piece::Plain { text: " is now free.\n"@ }),
    decreases processes.len(),
{
    if processes.len() > 0 {
        let front = processes.drop_last();
        let before = failures(port, front);
        lemma_failure_pieces(port, front, m);
        let last = processes[processes.len() - 1];
        let text = "✗ Failed to free port "@ + dec(port as nat) + " (PID "@ + dec(last.pid as nat)
            + "): "@;
        lemma_failure_text(text, dec(port as nat) + " (PID "@ + dec(last.pid as nat) + "): "@);
        assert(text =~= "✗ Failed to free port "@ + (dec(port as nat) + " (PID "@ + dec(
            last.pid as nat,
        ) + "): "@));
        lemma_success_text();
        if last.status == ProcessStatus::Failed && before.len() <= m < failures(
            port,
            processes,
        ).len() {
            assert(failures(port, processes)[m] == failure_pieces(port, last)[m - before.len()]);
        }
    }
}

proof fn lemma_failure_text(text: Seq<char>, rest: Seq<char>)
    ensures
        "✗ Failed to free port "@ + rest != " is now free.\n"@,
{
    reveal_strlit("✗ Failed to free port ");
    reveal_strlit(" is now free.\n");
    assert(("✗ Failed to free port "@ + rest)[0] == '✗');
    assert(" is now free.\n"@[0] == ' ');
}

/// Before the question and after a no, nothing is said below the tables: what is shown of a
/// port in use ends with its table.
pub proof fn law_question_is_quiet(port: PortResultView, mode: RunMode)
    requires
        mode == RunMode::Confirming || mode == RunMode::Aborted,
    ensures
        verdict_pieces(port, mode).len() == 0,
        port.error is None && port.free != Some(true) ==> port_pieces(
            port,
            TableOptions { mode },
        ).len() == 6,
{
}

} // verus!
