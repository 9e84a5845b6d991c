//! Drawing: coloured text and tables.
//!
//! Whether colours are used depends on where the output goes, so of each drawing it
//! is said what can come out.

use colored::Colorize;
use vstd::prelude::*;

use crate::text::{occurs, starts_with, trim_end};

verus! {

// ---------------------------------------------------------------------------
// Coloured text
// ---------------------------------------------------------------------------

/// The colours of text.
#[derive(Debug, Clone, Copy, PartialEq, Eq, Structural)]
pub enum Tint {
    Yellow,
    Red,
    GreenBold,
    CyanBold,
}

impl Tint {
    /// What a terminal is told at the beginning of the text.
    pub open spec fn start(self) -> Seq<char> {
        match self {
            Tint::Yellow => "\x1b[33m"@,
            Tint::Red => "\x1b[31m"@,
            Tint::GreenBold => "\x1b[1;32m"@,
            Tint::CyanBold => "\x1b[1;36m"@,
        }
    }
}

/// What a terminal is told at the end of the text.
pub open spec fn reset() -> Seq<char> {
    "\x1b[0m"@
}

/// The text with `start` after every reset in it.
pub open spec fn resumed(text: Seq<char>, start: Seq<char>) -> Seq<char>
    decreases text.len(),
{
    if text.len() == 0 || reset().len() == 0 {
        text
    } else if starts_with(text, reset()) {
        reset() + start + resumed(text.skip(reset().len() as int), start)
    } else {
        seq![text[0]] + resumed(text.skip(1), start)
    }
}

/// The text in colour.
pub open spec fn in_colour(text: Seq<char>, tint: Tint) -> Seq<char> {
    tint.start() + resumed(text, tint.start()) + reset()
}

/// Whether `out` is the text, in colour or not.
pub open spec fn tinted(text: Seq<char>, tint: Tint, out: Seq<char>) -> bool {
    out == text || out == in_colour(text, tint)
}

/// `colored::Colorize::yellow`, written out: the text as it is, or, if colours are
/// on, the text between the codes for yellow and for the end of a colour.
#[verifier::external_body]
pub(crate) fn yellow(text: &str) -> (out: String)
    ensures
        tinted(text@, Tint::Yellow, out@),
{
    text.yellow().to_string()
}

/// `colored::Colorize::red`, written out: the text as it is, or, if colours are on,
/// the text between the codes for red and for the end of a colour.
#[verifier::external_body]
pub(crate) fn red(text: &str) -> (out: String)
    ensures
        tinted(text@, Tint::Red, out@),
{
    text.red().to_string()
}

/// `colored::Colorize::green` and `bold`, written out: the text as it is, or, if
/// colours are on, the text between the codes for bold green and for the end of a
/// colour.
#[verifier::external_body]
pub(crate) fn green_bold(text: &str) -> (out: String)
    ensures
        tinted(text@, Tint::GreenBold, out@),
{
    text.green().bold().to_string()
}

/// `colored::Colorize::cyan` and `bold`, written out: the text as it is, or, if
/// colours are on, the text between the codes for bold cyan and for the end of a
/// colour.
#[verifier::external_body]
pub(crate) fn cyan_bold(text: &str) -> (out: String)
    ensures
        tinted(text@, Tint::CyanBold, out@),
{
    text.cyan().bold().to_string()
}

// ---------------------------------------------------------------------------
// Tables
// ---------------------------------------------------------------------------

/// The colours of table cells.
pub enum CellColor {
    Cyan,
    Yellow,
    Green,
    Grey,
    White,
    Red,
}

/// What a table cell holds, and how it is drawn.
#[verifier::ext_equal]
pub struct CellView {
    pub text: Seq<char>,
    pub color: Option<CellColor>,
    pub bold: bool,
    pub right: bool,
}

impl CellView {
    /// A cell with the given text and colour.
    pub open spec fn of(text: Seq<char>, color: CellColor) -> CellView {
        CellView { text, color: Some(color), bold: false, right: false }
    }

    /// The cell, drawn in bold.
    pub open spec fn in_bold(self) -> CellView {
        CellView { bold: true, ..self }
    }

    /// The cell, with its text at the right.
    pub open spec fn at_right(self) -> CellView {
        CellView { right: true, ..self }
    }
}

/// `comfy_table::Cell`: a text and how it is drawn.
#[verifier::external_type_specification]
#[verifier::external_body]
pub struct ExCell(comfy_table::Cell);

/// What a `comfy_table::Cell` holds, and how it is drawn.
pub uninterp spec fn cell_view(cell: comfy_table::Cell) -> CellView;

/// What the cells of a row hold.
pub open spec fn cell_views(cells: Seq<comfy_table::Cell>) -> Seq<CellView> {
    cells.map_values(|c: comfy_table::Cell| cell_view(c))
}

/// What the cells of several rows hold.
pub open spec fn row_views(rows: Seq<Vec<comfy_table::Cell>>) -> Seq<Seq<CellView>> {
    rows.map_values(|r: Vec<comfy_table::Cell>| cell_views(r@))
}

/// `comfy_table::Cell::new`: a cell with this text, without colour, at the left.
#[verifier::external_body]
pub(crate) fn cell(text: &str) -> (c: comfy_table::Cell)
    ensures
        cell_view(c) == (CellView { text: text@, color: None, bold: false, right: false }),
{
    comfy_table::Cell::new(text)
}

/// `comfy_table::Cell::fg` with the colour cyan: nothing but the colour changes.
#[verifier::external_body]
pub(crate) fn cyan(c: comfy_table::Cell) -> (r: comfy_table::Cell)
    ensures
        cell_view(r) == (CellView { color: Some(CellColor::Cyan), ..cell_view(c) }),
{
    c.fg(comfy_table::Color::Cyan)
}

/// `comfy_table::Cell::fg` with the colour yellow: nothing but the colour changes.
#[verifier::external_body]
pub(crate) fn yellow_cell(c: comfy_table::Cell) -> (r: comfy_table::Cell)
    ensures
        cell_view(r) == (CellView { color: Some(CellColor::Yellow), ..cell_view(c) }),
{
    c.fg(comfy_table::Color::Yellow)
}

/// `comfy_table::Cell::fg` with the colour green: nothing but the colour changes.
#[verifier::external_body]
pub(crate) fn green(c: comfy_table::Cell) -> (r: comfy_table::Cell)
    ensures
        cell_view(r) == (CellView { color: Some(CellColor::Green), ..cell_view(c) }),
{
    c.fg(comfy_table::Color::Green)
}

/// `comfy_table::Cell::fg` with the colour grey: nothing but the colour changes.
#[verifier::external_body]
pub(crate) fn grey(c: comfy_table::Cell) -> (r: comfy_table::Cell)
    ensures
        cell_view(r) == (CellView { color: Some(CellColor::Grey), ..cell_view(c) }),
{
    c.fg(comfy_table::Color::Grey)
}

/// `comfy_table::Cell::fg` with the colour white: nothing but the colour changes.
#[verifier::external_body]
pub(crate) fn white(c: comfy_table::Cell) -> (r: comfy_table::Cell)
    ensures
        cell_view(r) == (CellView { color: Some(CellColor::White), ..cell_view(c) }),
{
    c.fg(comfy_table::Color::White)
}

/// `comfy_table::Cell::fg` with the colour red: nothing but the colour changes.
#[verifier::external_body]
pub(crate) fn red_cell(c: comfy_table::Cell) -> (r: comfy_table::Cell)
    ensures
        cell_view(r) == (CellView { color: Some(CellColor::Red), ..cell_view(c) }),
{
    c.fg(comfy_table::Color::Red)
}

/// `comfy_table::Cell::add_attribute` with the attribute bold: on a cell that is not
/// bold, nothing else changes.
#[verifier::external_body]
pub(crate) fn bold(c: comfy_table::Cell) -> (r: comfy_table::Cell)
    requires
        !cell_view(c).bold,
    ensures
        cell_view(r) == cell_view(c).in_bold(),
{
    c.add_attribute(comfy_table::Attribute::Bold)
}

/// `comfy_table::Cell::set_alignment` to the right: nothing but the alignment
/// changes.
#[verifier::external_body]
pub(crate) fn at_right(c: comfy_table::Cell) -> (r: comfy_table::Cell)
    ensures
        cell_view(r) == cell_view(c).at_right(),
{
    c.set_alignment(comfy_table::CellAlignment::Right)
}

/// The text that `comfy_table` draws for a table without borders, whose lines have
/// no white space at their ends. `terminal` stands for what the drawing depends on
/// besides the cells: whether the output goes to a terminal, and which codes that
/// is to be sent.
pub uninterp spec fn table_text(
    header: Seq<CellView>,
    rows: Seq<Seq<CellView>>,
    terminal: int,
) -> Seq<char>;

/// Whether a text is drawn on one line of a table: it has no line feed, and is not
/// so long that it would be broken up.
pub open spec fn fits(text: Seq<char>) -> bool {
    text.len() <= 20000 && forall|i: int| 0 <= i < text.len() ==> text[i] != '\n'
}

/// Whether the text of each of the cells can be read in `out`, but for white space
/// at its end.
pub open spec fn all_readable(cells: Seq<CellView>, out: Seq<char>) -> bool {
    forall|i: int|
        0 <= i < cells.len() && fits((#[trigger] cells[i]).text) ==> occurs(
            out,
            trim_end(cells[i].text),
        )
}

/// Whether nothing can be read: there are at most empty lines.
pub open spec fn blank(out: Seq<char>) -> bool {
    forall|i: int| 0 <= i < out.len() ==> out[i] == '\n'
}

/// Whether each of the cells has a colour.
pub open spec fn coloured(cells: Seq<CellView>) -> bool {
    forall|i: int| 0 <= i < cells.len() ==> (#[trigger] cells[i]).color is Some
}

/// Whether the text of each cell of the table can be read in `out`.
pub open spec fn table_readable(
    header: Seq<CellView>,
    rows: Seq<Seq<CellView>>,
    out: Seq<char>,
) -> bool {
    &&& all_readable(header, out)
    &&& forall|i: int| 0 <= i < rows.len() ==> all_readable(#[trigger] rows[i], out)
}

/// Whether `out` is a drawing of the table.
pub open spec fn tabled(header: Seq<CellView>, rows: Seq<Seq<CellView>>, out: Seq<char>) -> bool {
    &&& exists|terminal: int| out == table_text(header, rows, terminal)
    &&& blank(out) || table_readable(header, rows, out)
}

/// `comfy_table::Table::trim_fmt` on a table with the style `NOTHING`, all of whose
/// cells have a colour: a drawing of the cells in columns.
///
/// How wide the columns are, and where the codes for colours stand, is left unsaid:
/// the widths are those of Unicode, and the codes depend on the terminal. What is
/// said is that the drawing depends on nothing but the cells and the terminal, and
/// that each text on a line of its own stands in it unbroken. The exception is a
/// console of Windows that knows no codes for colours: there a cell with a colour is
/// drawn as nothing at all, and only empty lines are left of the table.
#[verifier::external_body]
pub(crate) fn draw(header: Vec<comfy_table::Cell>, rows: Vec<Vec<comfy_table::Cell>>) -> (out:
    String)
    requires
        coloured(cell_views(header@)),
        forall|i: int| 0 <= i < rows@.len() ==> coloured(#[trigger] row_views(rows@)[i]),
    ensures
        exists|terminal: int|
            out@ == table_text(cell_views(header@), row_views(rows@), terminal),
        blank(out@) || table_readable(cell_views(header@), row_views(rows@), out@),
{
    let mut table = comfy_table::Table::new();
    table.load_style(comfy_table::presets::NOTHING);
    table.set_header(header);
    table.add_rows(rows);
    table.trim_fmt()
}

} // verus!
