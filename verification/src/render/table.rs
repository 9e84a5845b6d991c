//! The human view: a line for each free port, a table for each occupied one, a
//! warning for each that could not be inspected.
//!
//! The look is minimal: no borders, only columns with coloured headings.

use vstd::prelude::*;
use vstd::slice::slice_subrange;
use vstd::string::StringExecFns;

use crate::render::paint::{
    at_right, blank, bold, cell, cell_views, coloured, cyan, cyan_bold, draw, fits, green,
    green_bold, grey, red, red_cell, reset, resumed, row_views, tabled, tinted, white, yellow,
    yellow_cell, CellColor, CellView, Tint,
};
use crate::render::types::{
    ports, rows, PortResult, PortResultView, ProcessResult, ProcessResultView, ProcessStatus,
    RunMode, SignalKind, TableOptions,
};
use crate::text::{
    chars_of, control, dec, decimal, digit, is_control, lemma_dec, lemma_occurs_within, occurs,
    occurs_at, starts_with, text_of, trim_end,
};

pub mod laws;

verus! {

/// How many characters of a command or a directory are shown.
pub const DETAILS_MAX_WIDTH: usize = 64;

// ---------------------------------------------------------------------------
// Texts of cells
// ---------------------------------------------------------------------------

/// A time in hours, minutes and seconds, without the leading ones that are zero;
/// from one day on, in days, hours and minutes.
pub open spec fn duration_text(secs: nat) -> Seq<char> {
    let days = secs / 86400;
    let hours = secs / 3600;
    let minutes = (secs % 3600) / 60;
    let seconds = secs % 60;
    if days > 0 {
        dec(days) + "d "@ + dec(hours % 24) + "h "@ + dec(minutes) + "m"@
    } else if hours > 0 {
        dec(hours) + "h "@ + dec(minutes) + "m "@ + dec(seconds) + "s"@
    } else if minutes > 0 {
        dec(minutes) + "m "@ + dec(seconds) + "s"@
    } else {
        dec(seconds) + "s"@
    }
}

/// A time in hours, minutes and seconds, without the leading ones that are zero;
/// from one day on, in days, hours and minutes.
pub fn human_duration(secs: u64) -> (out: String)
    ensures
        out@ == duration_text(secs as nat),
{
    let days = secs / 86400;
    let hours = secs / 3600;
    let minutes = (secs % 3600) / 60;
    let seconds = secs % 60;
    let mut out = String::new();
    if days > 0 {
        out.append(decimal(days).as_str());
        out.append("d ");
        out.append(decimal(hours % 24).as_str());
        out.append("h ");
        out.append(decimal(minutes).as_str());
        out.append("m");
        return out;
    }
    if hours > 0 {
        out.append(decimal(hours).as_str());
        out.append("h ");
    }
    if hours > 0 || minutes > 0 {
        out.append(decimal(minutes).as_str());
        out.append("m ");
    }
    out.append(decimal(seconds).as_str());
    out.append("s");
    out
}

/// The text, or, if it is longer than `max` characters, as much of its beginning as
/// leaves room for an ellipsis.
pub open spec fn truncated(s: Seq<char>, max: nat) -> Seq<char> {
    if s.len() <= max {
        s
    } else if max == 0 {
        "…"@
    } else {
        s.take(max - 1) + "…"@
    }
}

/// The text, or, if it is longer than `max_chars` characters, as much of its
/// beginning as leaves room for an ellipsis.
pub fn truncate(s: &str, max_chars: usize) -> (out: String)
    ensures
        out@ == truncated(s@, max_chars as nat),
{
    let chars = chars_of(s);
    if chars.len() <= max_chars {
        return text_of(chars.as_slice());
    }
    let keep: usize = if max_chars == 0 {
        0
    } else {
        max_chars - 1
    };
    let mut out = text_of(slice_subrange(chars.as_slice(), 0, keep));
    out.append("…");
    assert(s@.subrange(0, keep as int) == s@.take(keep as int));
    out
}

/// The text with a space in place of each control character.
pub open spec fn sanitized(s: Seq<char>) -> Seq<char> {
    s.map_values(
        |c: char|
            if control(c) {
                ' '
            } else {
                c
            },
    )
}

/// The text with a space in place of each control character, so that it stays on
/// one line.
pub fn sanitize(s: &str) -> (out: String)
    ensures
        out@ == sanitized(s@),
{
    let chars = chars_of(s);
    let mut shown: Vec<char> = Vec::new();
    let mut i: usize = 0;
    while i < chars.len()
        invariant
            i <= chars@.len(),
            shown@.len() == i,
            forall|k: int|
                0 <= k < i ==> #[trigger] shown@[k] == if control(chars@[k]) {
                    ' '
                } else {
                    chars@[k]
                },
        decreases chars@.len() - i,
    {
        let c = chars[i];
        shown.push(
            if is_control(c) {
                ' '
            } else {
                c
            },
        );
        i += 1;
    }
    assert(shown@ =~= sanitized(s@));
    text_of(shown.as_slice())
}

/// What is shown of the user of a process.
pub open spec fn user_shown(row: ProcessResultView) -> Seq<char> {
    match row.user {
        Some(user) => user,
        None => "unknown"@,
    }
}

/// What is shown of the user of a process.
pub fn user_text(process: &ProcessResult) -> (out: String)
    ensures
        out@ == user_shown(process@),
{
    match &process.user {
        Some(user) => user.clone(),
        None => "unknown".to_string(),
    }
}

/// What else is shown of a process: its command line, or else how long it has been
/// running, or else where.
pub open spec fn details_shown(row: ProcessResultView) -> Seq<char> {
    match (row.command, row.uptime_secs, row.cwd) {
        (Some(command), _, _) => truncated(sanitized(command), DETAILS_MAX_WIDTH as nat),
        (None, Some(secs), _) => "up "@ + duration_text(secs as nat),
        (None, None, Some(cwd)) => truncated(sanitized(cwd), DETAILS_MAX_WIDTH as nat),
        (None, None, None) => "—"@,
    }
}

/// What else is shown of a process: its command line, or else how long it has been
/// running, or else where.
pub fn details_text(process: &ProcessResult) -> (out: String)
    ensures
        out@ == details_shown(process@),
{
    if let Some(command) = &process.command {
        return truncate(sanitize(command.as_str()).as_str(), DETAILS_MAX_WIDTH);
    }
    if let Some(secs) = process.uptime_secs {
        let mut out = String::new();
        out.append("up ");
        out.append(human_duration(secs).as_str());
        return out;
    }
    if let Some(cwd) = &process.cwd {
        return truncate(sanitize(cwd.as_str()).as_str(), DETAILS_MAX_WIDTH);
    }
    "—".to_string()
}

/// The signal of a row, or another if it has none.
pub open spec fn signal_or(row: ProcessResultView, other: SignalKind) -> SignalKind {
    match row.signal {
        Some(signal) => signal,
        None => other,
    }
}

/// What is shown of what happened to a process.
pub open spec fn status_shown(row: ProcessResultView) -> Seq<char> {
    match row.status {
        ProcessStatus::Info => "—"@,
        ProcessStatus::DryRun => "[Dry Run] Would send "@ + signal_or(
            row,
            SignalKind::Sigterm,
        ).spec_name(),
        ProcessStatus::Terminated => "Terminated ("@ + signal_or(
            row,
            SignalKind::Sigterm,
        ).spec_name() + ")"@,
        ProcessStatus::Killed => "Killed ("@ + signal_or(row, SignalKind::Sigkill).spec_name()
            + ")"@,
        ProcessStatus::Failed => "Failed"@,
    }
}

/// What is shown of what happened to a process.
pub fn status_text(process: &ProcessResult) -> (out: String)
    ensures
        out@ == status_shown(process@),
{
    let mut out = String::new();
    match process.status {
        ProcessStatus::Info => {
            out.append("—");
        },
        ProcessStatus::DryRun => {
            out.append("[Dry Run] Would send ");
            out.append(process.signal.unwrap_or(SignalKind::Sigterm).name());
        },
        ProcessStatus::Terminated => {
            out.append("Terminated (");
            out.append(process.signal.unwrap_or(SignalKind::Sigterm).name());
            out.append(")");
        },
        ProcessStatus::Killed => {
            out.append("Killed (");
            out.append(process.signal.unwrap_or(SignalKind::Sigkill).name());
            out.append(")");
        },
        ProcessStatus::Failed => {
            out.append("Failed");
        },
    }
    out
}

// ---------------------------------------------------------------------------
// Cells
// ---------------------------------------------------------------------------

/// The cell for what happened to a process.
pub open spec fn status_view(row: ProcessResultView) -> CellView {
    let text = status_shown(row);
    match row.status {
        ProcessStatus::Info => CellView::of(text, CellColor::Grey),
        ProcessStatus::DryRun => CellView::of(text, CellColor::Yellow),
        ProcessStatus::Terminated => CellView::of(text, CellColor::Green),
        ProcessStatus::Killed => CellView::of(text, CellColor::Green),
        ProcessStatus::Failed => CellView::of(text, CellColor::Red).in_bold(),
    }
}

fn status_cell(process: &ProcessResult) -> (r: comfy_table::Cell)
    ensures
        crate::render::paint::cell_view(r) == status_view(process@),
{
    let plain = cell(status_text(process).as_str());
    match process.status {
        ProcessStatus::Info => grey(plain),
        ProcessStatus::DryRun => yellow_cell(plain),
        ProcessStatus::Terminated => green(plain),
        ProcessStatus::Killed => green(plain),
        ProcessStatus::Failed => bold(red_cell(plain)),
    }
}

/// The headings of the columns.
pub open spec fn headings(status: bool) -> Seq<CellView> {
    let always = seq![
        CellView::of("PORT"@, CellColor::Cyan).in_bold().at_right(),
        CellView::of("PID"@, CellColor::Yellow).in_bold().at_right(),
        CellView::of("PROCESS"@, CellColor::Green).in_bold(),
        CellView::of("USER"@, CellColor::Grey).in_bold(),
        CellView::of("DETAILS"@, CellColor::Grey).in_bold(),
    ];
    if status {
        always.push(CellView::of("STATUS"@, CellColor::White).in_bold())
    } else {
        always
    }
}

fn header_cells(opts: &TableOptions) -> (r: Vec<comfy_table::Cell>)
    ensures
        cell_views(r@) == headings(opts.status_shown()),
{
    let mut cells: Vec<comfy_table::Cell> = Vec::new();
    cells.push(at_right(bold(cyan(cell("PORT")))));
    cells.push(at_right(bold(yellow_cell(cell("PID")))));
    cells.push(bold(green(cell("PROCESS"))));
    cells.push(bold(grey(cell("USER"))));
    cells.push(bold(grey(cell("DETAILS"))));
    if opts.show_status() {
        cells.push(bold(white(cell("STATUS"))));
    }
    assert(cell_views(cells@) =~= headings(opts.status_shown()));
    cells
}

/// The cells for one process.
pub open spec fn row_shown(port: u16, row: ProcessResultView, status: bool) -> Seq<CellView> {
    let always = seq![
        CellView::of(dec(port as nat), CellColor::Cyan).at_right(),
        CellView::of(dec(row.pid as nat), CellColor::Yellow).at_right(),
        CellView::of(sanitized(row.name), CellColor::Green),
        CellView::of(user_shown(row), CellColor::Grey),
        CellView::of(details_shown(row), CellColor::White),
    ];
    if status {
        always.push(status_view(row))
    } else {
        always
    }
}

fn row_cells(port: u16, process: &ProcessResult, show_status: bool) -> (r: Vec<comfy_table::Cell>)
    ensures
        cell_views(r@) == row_shown(port, process@, show_status),
{
    let mut cells: Vec<comfy_table::Cell> = Vec::new();
    cells.push(at_right(cyan(cell(decimal(port as u64).as_str()))));
    cells.push(at_right(yellow_cell(cell(decimal(process.pid as u64).as_str()))));
    cells.push(green(cell(sanitize(process.name.as_str()).as_str())));
    cells.push(grey(cell(user_text(process).as_str())));
    cells.push(white(cell(details_text(process).as_str())));
    if show_status {
        cells.push(status_cell(process));
    }
    assert(cell_views(cells@) =~= row_shown(port, process@, show_status));
    cells
}

// ---------------------------------------------------------------------------
// The document
// ---------------------------------------------------------------------------

/// A piece of the document.
#[verifier::ext_equal]
pub enum Piece {
    /// Text as it is.
    Plain { text: Seq<char> },
    /// Text in colour, if colours are used.
    Tinted { text: Seq<char>, tint: Tint },
    /// A table.
    Grid { header: Seq<CellView>, rows: Seq<Seq<CellView>> },
}

/// Whether `out` is a drawing of the piece.
pub open spec fn draws(piece: Piece, out: Seq<char>) -> bool {
    match piece {
        Piece::Plain { text } => out == text,
        Piece::Tinted { text, tint } => tinted(text, tint, out),
        Piece::Grid { header, rows } => tabled(header, rows, out),
    }
}

/// Whether `out` consists of drawings of the pieces, one after the other.
pub open spec fn drawn(pieces: Seq<Piece>, out: Seq<char>) -> bool
    decreases pieces.len(),
{
    if pieces.len() == 0 {
        out.len() == 0
    } else {
        exists|n: int|
            0 <= n <= out.len() && drawn(pieces.drop_last(), #[trigger] out.take(n)) && draws(
                pieces.last(),
                out.skip(n),
            )
    }
}

/// The line for a free port.
pub open spec fn free_pieces(port: u16) -> Seq<Piece> {
    seq![
        Piece::Plain { text: "✨ "@ },
        Piece::Tinted { text: "Port "@ + dec(port as nat) + " is free."@, tint: Tint::GreenBold },
        Piece::Plain { text: "\n"@ },
    ]
}

/// The warning for a port that could not be inspected.
pub open spec fn error_pieces(port: PortResultView) -> Seq<Piece> {
    let reason = match port.error {
        Some(error) => error,
        None => "unknown error"@,
    };
    seq![
        Piece::Plain { text: "⚠ "@ },
        Piece::Tinted {
            text: "could not inspect port "@ + dec(port.port as nat) + ": "@ + reason,
            tint: Tint::Yellow,
        },
        Piece::Plain { text: "\n"@ },
    ]
}

/// The table for an occupied port, one row for each process.
pub open spec fn grid(port: PortResultView, opts: TableOptions) -> Piece {
    Piece::Grid {
        header: headings(opts.status_shown()),
        rows: port.processes.map_values(
            |row: ProcessResultView| row_shown(port.port, row, opts.status_shown()),
        ),
    }
}

/// The line about a process that could not be ended.
pub open spec fn failure_pieces(port: u16, row: ProcessResultView) -> Seq<Piece> {
    let reason = match row.error {
        Some(error) => error,
        None => "the signal was delivered but the port stayed bound"@,
    };
    seq![
        Piece::Plain {
            text: "✗ Failed to free port "@ + dec(port as nat) + " (PID "@ + dec(row.pid as nat)
                + "): "@,
        },
        Piece::Tinted { text: reason, tint: Tint::Red },
        Piece::Plain { text: "\n"@ },
    ]
}

/// The lines about the processes that could not be ended, in order.
pub open spec fn failures(port: u16, processes: Seq<ProcessResultView>) -> Seq<Piece>
    decreases processes.len(),
{
    if processes.len() == 0 {
        Seq::empty()
    } else {
        let before = failures(port, processes.drop_last());
        if processes.last().status == ProcessStatus::Failed {
            before + failure_pieces(port, processes.last())
        } else {
            before
        }
    }
}

/// Whether the attempt to end one of the processes failed.
pub open spec fn failed_among(processes: Seq<ProcessResultView>) -> bool {
    exists|i: int|
        0 <= i < processes.len() && (#[trigger] processes[i]).status == ProcessStatus::Failed
}

/// What is said below the table of an occupied port.
pub open spec fn verdict_pieces(port: PortResultView, mode: RunMode) -> Seq<Piece> {
    let count = dec(port.processes.len());
    let number = dec(port.port as nat);
    match mode {
        RunMode::Inspect => seq![
            Piece::Plain {
                text: count + " process(es) on port "@ + number + "; inspect only — run `"@,
            },
            Piece::Tinted { text: "pk --kill "@ + number, tint: Tint::Yellow },
            Piece::Plain { text: "` to free them.\n"@ },
        ],
        RunMode::DryRun => seq![
            Piece::Tinted {
                text: "Dry run: would terminate "@ + count + " process(es) on port "@ + number
                    + ".\n"@,
                tint: Tint::Yellow,
            },
        ],
        RunMode::Kill => if failed_among(port.processes) {
            failures(port.port, port.processes)
        } else {
            seq![
                Piece::Plain { text: "✓ Port "@ },
                Piece::Tinted { text: number, tint: Tint::GreenBold },
                Piece::Plain { text: " is now free.\n"@ },
            ]
        },
        RunMode::Aborted => Seq::empty(),
        RunMode::Confirming => Seq::empty(),
    }
}

/// What is shown of an occupied port.
pub open spec fn occupied_pieces(port: PortResultView, opts: TableOptions) -> Seq<Piece> {
    seq![
        Piece::Plain { text: "Port "@ },
        Piece::Tinted { text: dec(port.port as nat), tint: Tint::CyanBold },
        Piece::Plain { text: " — in use\n"@ },
        grid(port, opts),
        Piece::Plain { text: "\n"@ },
    ] + verdict_pieces(port, opts.mode) + seq![Piece::Plain { text: "\n"@ }]
}

/// What is shown of a port.
pub open spec fn port_pieces(port: PortResultView, opts: TableOptions) -> Seq<Piece> {
    if port.is_error() {
        error_pieces(port)
    } else if port.is_free() {
        free_pieces(port.port)
    } else {
        occupied_pieces(port, opts)
    }
}

/// What is shown of the ports, one after the other.
pub open spec fn all_pieces(results: Seq<PortResultView>, opts: TableOptions) -> Seq<Piece>
    decreases results.len(),
{
    if results.len() == 0 {
        Seq::empty()
    } else {
        all_pieces(results.drop_last(), opts) + port_pieces(results.last(), opts)
    }
}

/// Whether a table is shown for one of the ports.
pub open spec fn any_table(results: Seq<PortResultView>) -> bool {
    exists|i: int|
        0 <= i < results.len() && !(#[trigger] results[i]).is_error() && !results[i].is_free()
}

/// What is said below all ports, if there is a table.
pub open spec fn footer_pieces(results: Seq<PortResultView>, mode: RunMode) -> Seq<Piece> {
    if any_table(results) && mode == RunMode::DryRun {
        seq![Piece::Tinted { text: "Dry run — no signals were sent.\n"@, tint: Tint::Yellow }]
    } else if any_table(results) && mode == RunMode::Aborted {
        seq![
            Piece::Tinted {
                text: "Aborted — no processes were terminated.\n"@,
                tint: Tint::Yellow,
            },
        ]
    } else {
        Seq::empty()
    }
}

/// The whole document.
pub open spec fn document(results: Seq<PortResultView>, opts: TableOptions) -> Seq<Piece> {
    all_pieces(results, opts) + footer_pieces(results, opts.mode)
}

/// A drawing of one more piece, after drawings of the others.
pub proof fn lemma_drawn_push(a: Seq<Piece>, x: Seq<char>, piece: Piece, y: Seq<char>)
    requires
        drawn(a, x),
        draws(piece, y),
    ensures
        drawn(a.push(piece), x + y),
{
    assert(a.push(piece).drop_last() =~= a);
    assert((x + y).take(x.len() as int) =~= x);
    assert((x + y).skip(x.len() as int) =~= y);
    assert(drawn(a.push(piece).drop_last(), (x + y).take(x.len() as int)));
}

/// What is drawn so far. Ghost code keeps the pieces.
struct Canvas {
    text: String,
    pieces: Ghost<Seq<Piece>>,
}

impl Canvas {
    spec fn wf(&self) -> bool {
        drawn(self.pieces@, self.text@)
    }

    fn new() -> (r: Canvas)
        ensures
            r.wf(),
            r.pieces@ == Seq::<Piece>::empty(),
    {
        Canvas { text: String::new(), pieces: Ghost(Seq::empty()) }
    }

    fn plain(&mut self, text: &str)
        requires
            old(self).wf(),
        ensures
            final(self).wf(),
            final(self).pieces@ == old(self).pieces@.push(Piece::Plain { text: text@ }),
    {
        proof {
            lemma_drawn_push(
                self.pieces@,
                self.text@,
                Piece::Plain { text: text@ },
                text@,
            );
        }
        self.text.append(text);
        self.pieces = Ghost(self.pieces@.push(Piece::Plain { text: text@ }));
    }

    fn drawing(&mut self, text: &str, Ghost(piece): Ghost<Piece>)
        requires
            old(self).wf(),
            draws(piece, text@),
        ensures
            final(self).wf(),
            final(self).pieces@ == old(self).pieces@.push(piece),
    {
        proof {
            lemma_drawn_push(self.pieces@, self.text@, piece, text@);
        }
        self.text.append(text);
        self.pieces = Ghost(self.pieces@.push(piece));
    }
}

/// Draw the line for a free port.
fn render_free(canvas: &mut Canvas, port: u16)
    requires
        old(canvas).wf(),
    ensures
        final(canvas).wf(),
        final(canvas).pieces@ == old(canvas).pieces@ + free_pieces(port),
{
    let ghost before = canvas.pieces@;
    let mut text = String::new();
    text.append("Port ");
    text.append(decimal(port as u64).as_str());
    text.append(" is free.");
    canvas.plain("✨ ");
    canvas.drawing(
        green_bold(text.as_str()).as_str(),
        Ghost(Piece::Tinted { text: text@, tint: Tint::GreenBold }),
    );
    canvas.plain("\n");
    assert(canvas.pieces@ =~= before + free_pieces(port));
}

/// Draw the warning for a port that could not be inspected.
fn render_port_error(canvas: &mut Canvas, port: &PortResult)
    requires
        old(canvas).wf(),
    ensures
        final(canvas).wf(),
        final(canvas).pieces@ == old(canvas).pieces@ + error_pieces(port@),
{
    let ghost before = canvas.pieces@;
    let mut text = String::new();
    text.append("could not inspect port ");
    text.append(decimal(port.port as u64).as_str());
    text.append(": ");
    match &port.error {
        Some(error) => {
            text.append(error.as_str());
        },
        None => {
            text.append("unknown error");
        },
    }
    canvas.plain("⚠ ");
    canvas.drawing(
        yellow(text.as_str()).as_str(),
        Ghost(Piece::Tinted { text: text@, tint: Tint::Yellow }),
    );
    canvas.plain("\n");
    assert(canvas.pieces@ =~= before + error_pieces(port@));
}

/// The table for an occupied port.
fn build_table(port: &PortResult, opts: &TableOptions) -> (out: String)
    ensures
        draws(grid(port@, *opts), out@),
{
    let show_status = opts.show_status();
    let mut shown: Vec<Vec<comfy_table::Cell>> = Vec::new();
    let mut i: usize = 0;
    while i < port.processes.len()
        invariant
            i <= port.processes@.len(),
            show_status == opts.status_shown(),
            shown@.len() == i,
            forall|k: int|
                0 <= k < i ==> cell_views((#[trigger] shown@[k])@) == row_shown(
                    port.port,
                    port.processes@[k]@,
                    show_status,
                ),
        decreases port.processes@.len() - i,
    {
        shown.push(row_cells(port.port, &port.processes[i], show_status));
        i += 1;
    }
    assert(row_views(shown@) =~= port@.processes.map_values(
        |row: ProcessResultView| row_shown(port@.port, row, opts.status_shown()),
    ));
    let header = header_cells(opts);
    assert forall|k: int| 0 <= k < shown@.len() implies coloured(
        #[trigger] row_views(shown@)[k],
    ) by {
        assert(row_views(shown@)[k] == row_shown(port.port, port.processes@[k]@, show_status));
    }
    draw(header, shown)
}

/// Draw the line about a process that could not be ended.
fn render_failure(canvas: &mut Canvas, port: u16, process: &ProcessResult)
    requires
        old(canvas).wf(),
    ensures
        final(canvas).wf(),
        final(canvas).pieces@ == old(canvas).pieces@ + failure_pieces(port, process@),
{
    let ghost before = canvas.pieces@;
    let mut text = String::new();
    text.append("✗ Failed to free port ");
    text.append(decimal(port as u64).as_str());
    text.append(" (PID ");
    text.append(decimal(process.pid as u64).as_str());
    text.append("): ");
    let reason = match &process.error {
        Some(error) => error.clone(),
        None => "the signal was delivered but the port stayed bound".to_string(),
    };
    canvas.plain(text.as_str());
    canvas.drawing(
        red(reason.as_str()).as_str(),
        Ghost(Piece::Tinted { text: reason@, tint: Tint::Red }),
    );
    canvas.plain("\n");
    assert(canvas.pieces@ =~= before + failure_pieces(port, process@));
}

/// Draw the lines about the processes that could not be ended; tell whether there
/// are any.
fn render_failures(canvas: &mut Canvas, port: &PortResult) -> (any: bool)
    requires
        old(canvas).wf(),
    ensures
        final(canvas).wf(),
        any == failed_among(port@.processes),
        final(canvas).pieces@ == old(canvas).pieces@ + failures(port.port, port@.processes),
{
    let ghost before = canvas.pieces@;
    let ghost all = port@.processes;
    let mut any = false;
    let mut i: usize = 0;
    assert(all.take(0) =~= Seq::<ProcessResultView>::empty());
    assert(before + Seq::<Piece>::empty() =~= before);
    while i < port.processes.len()
        invariant
            i <= port.processes@.len(),
            all == port@.processes,
            canvas.wf(),
            any == failed_among(all.take(i as int)),
            canvas.pieces@ == before + failures(port.port, all.take(i as int)),
        decreases port.processes@.len() - i,
    {
        let ghost then = all.take(i as int);
        let ghost now = all.take(i + 1);
        let ghost so_far = failures(port.port, then);
        proof {
            assert(now.drop_last() =~= then);
            assert(now.last() == port.processes@[i as int]@);
            if failed_among(then) {
                let k = choose|k: int|
                    0 <= k < then.len() && (#[trigger] then[k]).status == ProcessStatus::Failed;
                assert(now[k].status == ProcessStatus::Failed);
            }
            if failed_among(now) && now.last().status != ProcessStatus::Failed {
                let k = choose|k: int|
                    0 <= k < now.len() && (#[trigger] now[k]).status == ProcessStatus::Failed;
                assert(then[k].status == ProcessStatus::Failed);
            }
        }
        if matches!(port.processes[i].status, ProcessStatus::Failed) {
            render_failure(canvas, port.port, &port.processes[i]);
            any = true;
            proof {
                assert(now[i as int].status == ProcessStatus::Failed);
                assert((before + so_far) + failure_pieces(port.port, now.last()) =~= before + (
                so_far + failure_pieces(port.port, now.last())));
            }
        }
        i += 1;
    }
    assert(all.take(all.len() as int) =~= all);
    any
}

proof fn lemma_no_failures(port: u16, processes: Seq<ProcessResultView>)
    requires
        !failed_among(processes),
    ensures
        failures(port, processes) == Seq::<Piece>::empty(),
    decreases processes.len(),
{
    if processes.len() > 0 {
        let front = processes.drop_last();
        assert(processes[processes.len() - 1].status != ProcessStatus::Failed);
        if failed_among(front) {
            let k = choose|k: int|
                0 <= k < front.len() && (#[trigger] front[k]).status == ProcessStatus::Failed;
            assert(processes[k].status == ProcessStatus::Failed);
        }
        lemma_no_failures(port, front);
    }
}

/// Draw what is said below the table of an occupied port.
fn port_verdict(canvas: &mut Canvas, port: &PortResult, opts: &TableOptions)
    requires
        old(canvas).wf(),
    ensures
        final(canvas).wf(),
        final(canvas).pieces@ == old(canvas).pieces@ + verdict_pieces(port@, opts.mode),
{
    let ghost before = canvas.pieces@;
    let count = decimal(port.processes.len() as u64);
    let number = decimal(port.port as u64);
    match opts.mode {
        RunMode::Inspect => {
            let mut text = String::new();
            text.append(count.as_str());
            text.append(" process(es) on port ");
            text.append(number.as_str());
            text.append("; inspect only — run `");
            let mut command = String::new();
            command.append("pk --kill ");
            command.append(number.as_str());
            canvas.plain(text.as_str());
            canvas.drawing(
                yellow(command.as_str()).as_str(),
                Ghost(Piece::Tinted { text: command@, tint: Tint::Yellow }),
            );
            canvas.plain("` to free them.\n");
        },
        RunMode::DryRun => {
            let mut text = String::new();
            text.append("Dry run: would terminate ");
            text.append(count.as_str());
            text.append(" process(es) on port ");
            text.append(number.as_str());
            text.append(".\n");
            canvas.drawing(
                yellow(text.as_str()).as_str(),
                Ghost(Piece::Tinted { text: text@, tint: Tint::Yellow }),
            );
        },
        RunMode::Kill => {
            if !render_failures(canvas, port) {
                proof {
                    lemma_no_failures(port.port, port@.processes);
                    assert(canvas.pieces@ =~= before);
                }
                canvas.plain("✓ Port ");
                canvas.drawing(
                    green_bold(number.as_str()).as_str(),
                    Ghost(Piece::Tinted { text: number@, tint: Tint::GreenBold }),
                );
                canvas.plain(" is now free.\n");
            }
        },
        RunMode::Aborted => {},
        RunMode::Confirming => {},
    }
    assert(canvas.pieces@ =~= before + verdict_pieces(port@, opts.mode));
}

/// Draw an occupied port: a heading, the table, and what is said below it.
fn render_port(canvas: &mut Canvas, port: &PortResult, opts: &TableOptions)
    requires
        old(canvas).wf(),
    ensures
        final(canvas).wf(),
        final(canvas).pieces@ == old(canvas).pieces@ + occupied_pieces(port@, *opts),
{
    let ghost before = canvas.pieces@;
    let number = decimal(port.port as u64);
    canvas.plain("Port ");
    canvas.drawing(
        cyan_bold(number.as_str()).as_str(),
        Ghost(Piece::Tinted { text: number@, tint: Tint::CyanBold }),
    );
    canvas.plain(" — in use\n");
    canvas.drawing(build_table(port, opts).as_str(), Ghost(grid(port@, *opts)));
    canvas.plain("\n");
    port_verdict(canvas, port, opts);
    canvas.plain("\n");
    assert(canvas.pieces@ =~= before + occupied_pieces(port@, *opts));
}

/// The human view of the results.
pub fn render_table(results: &[PortResult], opts: &TableOptions) -> (out: String)
    ensures
        drawn(document(ports(results@), *opts), out@),
{
    let ghost all = ports(results@);
    let mut canvas = Canvas::new();
    let mut any_occupied = false;
    let mut i: usize = 0;
    assert(all.take(0) =~= Seq::<PortResultView>::empty());
    while i < results.len()
        invariant
            i <= results@.len(),
            all == ports(results@),
            canvas.wf(),
            canvas.pieces@ == all_pieces(all.take(i as int), *opts),
            any_occupied == any_table(all.take(i as int)),
        decreases results@.len() - i,
    {
        let port = &results[i];
        proof {
            let then = all.take(i as int);
            let now = all.take(i + 1);
            assert(now.drop_last() =~= then);
            assert(now.last() == port@);
            if any_table(then) {
                let k = choose|k: int|
                    0 <= k < then.len() && !(#[trigger] then[k]).is_error() && !then[k].is_free();
                assert(!now[k].is_error() && !now[k].is_free());
            }
            if any_table(now) && (port@.is_error() || port@.is_free()) {
                let k = choose|k: int|
                    0 <= k < now.len() && !(#[trigger] now[k]).is_error() && !now[k].is_free();
                assert(!then[k].is_error() && !then[k].is_free());
            }
            assert(now[i as int] == port@);
        }
        if port.is_error() {
            render_port_error(&mut canvas, port);
        } else if port.is_free() {
            render_free(&mut canvas, port.port);
        } else {
            any_occupied = true;
            render_port(&mut canvas, port, opts);
        }
        i += 1;
    }
    assert(all.take(all.len() as int) =~= all);
    let ghost before = canvas.pieces@;
    if any_occupied {
        match opts.mode {
            RunMode::DryRun => {
                canvas.drawing(
                    yellow("Dry run — no signals were sent.\n").as_str(),
                    Ghost(
                        Piece::Tinted {
                            text: "Dry run — no signals were sent.\n"@,
                            tint: Tint::Yellow,
                        },
                    ),
                );
            },
            RunMode::Aborted => {
                canvas.drawing(
                    yellow("Aborted — no processes were terminated.\n").as_str(),
                    Ghost(
                        Piece::Tinted {
                            text: "Aborted — no processes were terminated.\n"@,
                            tint: Tint::Yellow,
                        },
                    ),
                );
            },
            _ => {},
        }
    }
    assert(canvas.pieces@ =~= document(all, *opts));
    canvas.text
}

// ---------------------------------------------------------------------------
// Laws
// ---------------------------------------------------------------------------

/// In a drawing of a document each of its pieces is drawn.
pub proof fn lemma_piece_is_drawn(pieces: Seq<Piece>, out: Seq<char>, k: int) -> (part: Seq<char>)
    requires
        drawn(pieces, out),
        0 <= k < pieces.len(),
    ensures
        draws(pieces[k], part),
        occurs(out, part),
    decreases pieces.len(),
{
    let n = choose|n: int|
        0 <= n <= out.len() && drawn(pieces.drop_last(), #[trigger] out.take(n)) && draws(
            pieces.last(),
            out.skip(n),
        );
    if k == pieces.len() - 1 {
        let part = out.skip(n);
        assert(out.subrange(n, n + part.len()) =~= part);
        assert(occurs_at(out, part, n));
        part
    } else {
        let part = lemma_piece_is_drawn(pieces.drop_last(), out.take(n), k);
        assert(out.subrange(0, n) =~= out.take(n));
        assert(occurs_at(out, out.take(n), 0));
        lemma_occurs_within(out, out.take(n), part);
        part
    }
}

/// A number has no white space at its end.
proof fn lemma_number_fits(n: nat)
    requires
        n <= u32::MAX,
    ensures
        fits(dec(n)),
        trim_end(dec(n)) == dec(n),
{
    lemma_dec(n);
    lemma_dec_len(n);
    assert forall|i: int| 0 <= i < dec(n).len() implies dec(n)[i] != '\n' by {
        assert(digit(dec(n)[i]) < 10);
    }
    assert(digit(dec(n).last()) < 10);
}

proof fn lemma_dec_len(n: nat)
    ensures
        dec(n).len() <= n + 1,
        n <= u32::MAX ==> dec(n).len() <= 10,
    decreases n,
{
    if n >= 10 {
        lemma_dec_len(n / 10);
        if n <= u32::MAX {
            reveal_with_fuel(dec, 11);
        }
    }
}

/// Whether what is shown of a process can be read: its port and its number, and its
/// name, the user, the details and what happened to it too, unless they are broken
/// up.
pub open spec fn process_readable(
    port: u16,
    row: ProcessResultView,
    status: bool,
    out: Seq<char>,
) -> bool {
    &&& occurs(out, dec(port as nat))
    &&& occurs(out, dec(row.pid as nat))
    &&& fits(sanitized(row.name)) ==> occurs(out, trim_end(sanitized(row.name)))
    &&& fits(user_shown(row)) ==> occurs(out, trim_end(user_shown(row)))
    &&& fits(details_shown(row)) ==> occurs(out, trim_end(details_shown(row)))
    &&& status && fits(status_shown(row)) ==> occurs(out, trim_end(status_shown(row)))
}

/// The human view holds a drawing of the table of every occupied port. In it every
/// process on the port can be read, unless the terminal leaves the whole table
/// blank.
pub proof fn law_every_process_is_shown(
    results: Seq<PortResultView>,
    opts: TableOptions,
    out: Seq<char>,
    i: int,
) -> (table: Seq<char>)
    requires
        drawn(document(results, opts), out),
        0 <= i < results.len(),
        !results[i].is_error(),
        !results[i].is_free(),
    ensures
        occurs(out, table),
        draws(grid(results[i], opts), table),
        blank(table) || forall|j: int|
            0 <= j < results[i].processes.len() ==> process_readable(
                results[i].port,
                #[trigger] results[i].processes[j],
                opts.status_shown(),
                table,
            ),
{
    let pieces = document(results, opts);
    assert(port_pieces(results[i], opts)[3] == grid(results[i], opts));
    let k = lemma_piece_in_document(results, opts, i, 3);
    assert(pieces[k] == grid(results[i], opts));
    let table = lemma_piece_is_drawn(pieces, out, k);
    if !blank(table) {
        assert forall|j: int| 0 <= j < results[i].processes.len() implies process_readable(
            results[i].port,
            #[trigger] results[i].processes[j],
            opts.status_shown(),
            table,
        ) by {
            let row = results[i].processes[j];
            let cells = row_shown(results[i].port, row, opts.status_shown());
            assert(grid(results[i], opts)->rows[j] == cells);
            lemma_number_fits(results[i].port as nat);
            lemma_number_fits(row.pid as nat);
            assert(cells[0].text == dec(results[i].port as nat));
            assert(cells[1].text == dec(row.pid as nat));
            assert(cells[2].text == sanitized(row.name));
            assert(cells[3].text == user_shown(row));
            assert(cells[4].text == details_shown(row));
            if opts.status_shown() {
                assert(cells[5].text == status_shown(row));
            }
        }
    }
    table
}

/// Text without a reset in it is not changed inside.
proof fn lemma_resumed_plain(text: Seq<char>, start: Seq<char>)
    requires
        !occurs(text, reset()),
    ensures
        resumed(text, start) == text,
    decreases text.len(),
{
    if text.len() > 0 && reset().len() > 0 {
        if starts_with(text, reset()) {
            assert(text.subrange(0, reset().len() as int) =~= text.take(reset().len() as int));
            assert(occurs_at(text, reset(), 0));
        }
        let rest = text.skip(1);
        if occurs(rest, reset()) {
            let i = choose|i: int| occurs_at(rest, reset(), i);
            assert(text.subrange(i + 1, i + 1 + reset().len()) =~= rest.subrange(
                i,
                i + reset().len(),
            ));
            assert(occurs_at(text, reset(), i + 1));
        }
        lemma_resumed_plain(rest, start);
        assert(seq![text[0]] + rest =~= text);
    }
}

/// Text without a reset in it can be read, in colour or not.
pub proof fn lemma_tinted_occurs(text: Seq<char>, tint: Tint, out: Seq<char>)
    requires
        tinted(text, tint, out),
        !occurs(text, reset()),
    ensures
        occurs(out, text),
{
    if out == text {
        assert(out.subrange(0, text.len() as int) =~= text);
        assert(occurs_at(out, text, 0));
    } else {
        lemma_resumed_plain(text, tint.start());
        let n = tint.start().len() as int;
        assert(out.subrange(n, n + text.len()) =~= text);
        assert(occurs_at(out, text, n));
    }
}

/// What is shown of a port stands in the document.
pub proof fn lemma_piece_in_document(
    results: Seq<PortResultView>,
    opts: TableOptions,
    i: int,
    m: int,
) -> (k: int)
    requires
        0 <= i < results.len(),
        0 <= m < port_pieces(results[i], opts).len(),
    ensures
        0 <= k < all_pieces(results, opts).len(),
        all_pieces(results, opts)[k] == port_pieces(results[i], opts)[m],
    decreases results.len(),
{
    let before = all_pieces(results.drop_last(), opts);
    if i == results.len() - 1 {
        before.len() as int + m
    } else {
        let k = lemma_piece_in_document(results.drop_last(), opts, i, m);
        assert(all_pieces(results, opts)[k] == before[k]);
        k
    }
}

/// In the human view it can be read of every port that could not be inspected that
/// it could not, and why, unless the reason itself tells the terminal to reset.
pub proof fn law_every_error_is_shown(
    results: Seq<PortResultView>,
    opts: TableOptions,
    out: Seq<char>,
    i: int,
    reason: Seq<char>,
)
    requires
        drawn(document(results, opts), out),
        0 <= i < results.len(),
        results[i].error == Some(reason),
        !occurs(
            "could not inspect port "@ + dec(results[i].port as nat) + ": "@ + reason,
            reset(),
        ),
    ensures
        occurs(out, "could not inspect port "@ + dec(results[i].port as nat) + ": "@ + reason),
{
    let text = "could not inspect port "@ + dec(results[i].port as nat) + ": "@ + reason;
    let piece = Piece::Tinted { text, tint: Tint::Yellow };
    assert(port_pieces(results[i], opts)[1] == piece);
    let k = lemma_piece_in_document(results, opts, i, 1);
    assert(document(results, opts)[k] == piece);
    let part = lemma_piece_is_drawn(document(results, opts), out, k);
    lemma_tinted_occurs(text, Tint::Yellow, part);
    lemma_occurs_within(out, part, text);
}

/// A command or a directory takes at most 64 characters, all of them on one line.
pub proof fn law_details_fit(text: Seq<char>)
    ensures
        truncated(sanitized(text), DETAILS_MAX_WIDTH as nat).len() <= DETAILS_MAX_WIDTH,
        fits(truncated(sanitized(text), DETAILS_MAX_WIDTH as nat)),
        text.len() <= DETAILS_MAX_WIDTH ==> truncated(
            sanitized(text),
            DETAILS_MAX_WIDTH as nat,
        ) == sanitized(text),
{
    reveal_strlit("…");
    let shown = truncated(sanitized(text), DETAILS_MAX_WIDTH as nat);
    assert forall|i: int| 0 <= i < shown.len() implies shown[i] != '\n' by {
        if i < text.len() && i < shown.len() - 1 {
            assert(control('\n'));
        }
    }
}

/// No control character is left in a text that was sanitized, and a text without
/// any is left as it is.
pub proof fn law_sanitized(text: Seq<char>)
    ensures
        sanitized(text).len() == text.len(),
        forall|i: int| 0 <= i < text.len() ==> !control(#[trigger] sanitized(text)[i]),
        (forall|i: int| 0 <= i < text.len() ==> !control(#[trigger] text[i])) ==> sanitized(text)
            == text,
{
    if forall|i: int| 0 <= i < text.len() ==> !control(#[trigger] text[i]) {
        assert(sanitized(text) =~= text);
    }
}

/// What is drawn of some pieces and some more is what is drawn of both, one after the
/// other.
pub proof fn law_drawings_join(a: Seq<Piece>, b: Seq<Piece>, out: Seq<char>)
    ensures
        drawn(a + b, out) <==> exists|n: int|
            0 <= n <= out.len() && drawn(a, #[trigger] out.take(n)) && drawn(b, out.skip(n)),
    decreases b.len(),
{
    if b.len() == 0 {
        assert(a + b =~= a);
        assert(out.take(out.len() as int) =~= out);
        if drawn(a, out) {
            assert(out.skip(out.len() as int).len() == 0);
            assert(drawn(a, out.take(out.len() as int)));
        }
        if exists|n: int|
            0 <= n <= out.len() && drawn(a, #[trigger] out.take(n)) && drawn(b, out.skip(n)) {
            let n = choose|n: int|
                0 <= n <= out.len() && drawn(a, #[trigger] out.take(n)) && drawn(b, out.skip(n));
            assert(n == out.len());
        }
    } else {
        let front = b.drop_last();
        assert((a + b).drop_last() =~= a + front);
        assert((a + b).last() == b.last());
        if drawn(a + b, out) {
            let m = choose|m: int|
                0 <= m <= out.len() && drawn((a + b).drop_last(), #[trigger] out.take(m)) && draws(
                    (a + b).last(),
                    out.skip(m),
                );
            law_drawings_join(a, front, out.take(m));
            let n = choose|n: int|
                0 <= n <= m && drawn(a, #[trigger] out.take(m).take(n)) && drawn(
                    front,
                    out.take(m).skip(n),
                );
            assert(out.take(m).take(n) =~= out.take(n));
            let rest = out.skip(n);
            assert(rest.take(m - n) =~= out.take(m).skip(n));
            assert(rest.skip(m - n) =~= out.skip(m));
            assert(drawn(b.drop_last(), rest.take(m - n)));
            assert(drawn(b, rest));
        }
        if exists|n: int|
            0 <= n <= out.len() && drawn(a, #[trigger] out.take(n)) && drawn(b, out.skip(n)) {
            let n = choose|n: int|
                0 <= n <= out.len() && drawn(a, #[trigger] out.take(n)) && drawn(b, out.skip(n));
            let rest = out.skip(n);
            let k = choose|k: int|
                0 <= k <= rest.len() && drawn(b.drop_last(), #[trigger] rest.take(k)) && draws(
                    b.last(),
                    rest.skip(k),
                );
            let m = n + k;
            assert(out.take(m).take(n) =~= out.take(n));
            assert(out.take(m).skip(n) =~= rest.take(k));
            assert(out.skip(m) =~= rest.skip(k));
            assert(drawn(a, out.take(m).take(n)));
            law_drawings_join(a, front, out.take(m));
            assert(drawn((a + b).drop_last(), out.take(m)));
        }
    }
}

proof fn lemma_pieces_join(a: Seq<PortResultView>, b: Seq<PortResultView>, opts: TableOptions)
    ensures
        all_pieces(a + b, opts) == all_pieces(a, opts) + all_pieces(b, opts),
    decreases b.len(),
{
    if b.len() == 0 {
        assert(a + b =~= a);
        assert(all_pieces(a, opts) + all_pieces(b, opts) =~= all_pieces(a, opts));
    } else {
        lemma_pieces_join(a, b.drop_last(), opts);
        assert((a + b).drop_last() =~= a + b.drop_last());
        assert((a + b).last() == b.last());
        assert(all_pieces(a + b, opts) =~= all_pieces(a, opts) + all_pieces(b, opts));
    }
}

proof fn lemma_tables_join(a: Seq<PortResultView>, b: Seq<PortResultView>)
    ensures
        any_table(a + b) == (any_table(a) || any_table(b)),
{
    let both = a + b;
    if any_table(a) {
        let i = choose|i: int|
            0 <= i < a.len() && !(#[trigger] a[i]).is_error() && !a[i].is_free();
        assert(both[i] == a[i]);
    }
    if any_table(b) {
        let i = choose|i: int|
            0 <= i < b.len() && !(#[trigger] b[i]).is_error() && !b[i].is_free();
        assert(both[a.len() + i] == b[i]);
    }
    if any_table(both) {
        let i = choose|i: int|
            0 <= i < both.len() && !(#[trigger] both[i]).is_error() && !both[i].is_free();
        if i < a.len() {
            assert(a[i] == both[i]);
        } else {
            assert(b[i - a.len()] == both[i]);
        }
    }
}

/// The human view of two lists is the view of the one followed by that of the other,
/// and that of no ports is empty. A dry run and an aborted run end with one line
/// more, if, and only if, there is a table in either list.
pub proof fn law_views_join(
    a: Seq<PortResultView>,
    b: Seq<PortResultView>,
    opts: TableOptions,
)
    ensures
        document(a + b, opts) == all_pieces(a, opts) + all_pieces(b, opts) + footer_pieces(
            a + b,
            opts.mode,
        ),
        footer_pieces(a + b, opts.mode).len() == if (opts.mode == RunMode::DryRun || opts.mode
            == RunMode::Aborted) && (any_table(a) || any_table(b)) {
            1int
        } else {
            0int
        },
        opts.mode != RunMode::DryRun && opts.mode != RunMode::Aborted ==> {
            &&& document(a, opts) == all_pieces(a, opts)
            &&& document(b, opts) == all_pieces(b, opts)
            &&& document(a + b, opts) == document(a, opts) + document(b, opts)
        },
        document(Seq::empty(), opts) == Seq::<Piece>::empty(),
{
    lemma_pieces_join(a, b, opts);
    lemma_tables_join(a, b);
    assert(all_pieces(a, opts) + Seq::<Piece>::empty() =~= all_pieces(a, opts));
    assert(all_pieces(b, opts) + Seq::<Piece>::empty() =~= all_pieces(b, opts));
    assert(all_pieces(a + b, opts) + Seq::<Piece>::empty() =~= all_pieces(a + b, opts));
    assert(document(Seq::empty(), opts) =~= Seq::<Piece>::empty());
}

/// Whatever is written for two lists, when it is neither a dry run nor an aborted
/// run, is what can be written for the one followed by what can be written for the
/// other, and the other way round.
pub proof fn law_outputs_join(
    a: Seq<PortResultView>,
    b: Seq<PortResultView>,
    opts: TableOptions,
    out: Seq<char>,
)
    requires
        opts.mode != RunMode::DryRun,
        opts.mode != RunMode::Aborted,
    ensures
        drawn(document(a + b, opts), out) <==> exists|n: int|
            0 <= n <= out.len() && drawn(document(a, opts), #[trigger] out.take(n)) && drawn(
                document(b, opts),
                out.skip(n),
            ),
        drawn(document(Seq::empty(), opts), out) <==> out.len() == 0,
{
    law_views_join(a, b, opts);
    law_drawings_join(document(a, opts), document(b, opts), out);
}

} // verus!
