//! What the messages say.

use vstd::prelude::*;

use crate::error::AppErrorView;
use crate::text::laws::law_part_occurs;
use crate::text::{dec, occurs};

verus! {

proof fn lemma_second(a: Seq<char>, b: Seq<char>, c: Seq<char>, d: Seq<char>)
    ensures
        occurs(a + b + c + d, b),
        occurs(a + b + c + d, d),
        occurs(a + b + c + d, a),
{
    law_part_occurs(a, b, c + d);
    assert(a + b + c + d =~= a + b + (c + d));
    law_part_occurs(a + b + c, d, Seq::empty());
    assert(a + b + c + d + Seq::<char>::empty() =~= a + b + c + d);
    law_part_occurs(Seq::empty(), a, b + c + d);
    assert(Seq::<char>::empty() + a + (b + c + d) =~= a + b + c + d);
}

/// The message about a port that is none quotes what was written, and says what is wrong
/// with it.
pub proof fn law_invalid_port_text(raw: Seq<char>, reason: Seq<char>)
    ensures
        occurs((AppErrorView::InvalidPort { raw, reason }).text(), raw),
        occurs((AppErrorView::InvalidPort { raw, reason }).text(), reason),
        occurs((AppErrorView::InvalidPort { raw, reason }).text(), "invalid port `"@),
{
    lemma_second("invalid port `"@, raw, "`: "@, reason);
}

/// The message about a port that may not be looked at names it, and what to try.
pub proof fn law_access_denied_text(port: u16)
    ensures
        occurs((AppErrorView::AccessDenied { port }).text(), "port "@ + dec(port as nat)),
        occurs((AppErrorView::AccessDenied { port }).text(), "requires elevated privileges"@),
        occurs((AppErrorView::AccessDenied { port }).text(), "sudo"@),
{
    let text = (AppErrorView::AccessDenied { port }).text();
    let head = "port "@ + dec(port as nat);
    let tail =
        " requires elevated privileges to inspect or is protected by the system. Try running `pk` with `sudo` (on macOS/Linux)."@;
    law_part_occurs(Seq::empty(), head, tail);
    assert(Seq::<char>::empty() + head + tail =~= text);
    lemma_denied_tail(tail);
    law_part_occurs(head + tail.take(1), "requires elevated privileges"@, tail.skip(29));
    assert(head + tail.take(1) + "requires elevated privileges"@ + tail.skip(29) =~= text);
    law_part_occurs(head + tail.take(95), "sudo"@, tail.skip(99));
    assert(head + tail.take(95) + "sudo"@ + tail.skip(99) =~= text);
}

proof fn lemma_denied_tail(tail: Seq<char>)
    requires
        tail
            == " requires elevated privileges to inspect or is protected by the system. Try running `pk` with `sudo` (on macOS/Linux)."@,
    ensures
        tail == tail.take(1) + "requires elevated privileges"@ + tail.skip(29),
        tail == tail.take(95) + "sudo"@ + tail.skip(99),
{
    reveal_strlit(
        " requires elevated privileges to inspect or is protected by the system. Try running `pk` with `sudo` (on macOS/Linux).",
    );
    reveal_strlit("requires elevated privileges");
    reveal_strlit("sudo");
    assert(tail =~= tail.take(1) + "requires elevated privileges"@ + tail.skip(29));
    assert(tail =~= tail.take(95) + "sudo"@ + tail.skip(99));
}

/// The message about a command that failed names it, and says what it said.
pub proof fn law_command_failed_text(command: Seq<char>, message: Seq<char>)
    ensures
        occurs((AppErrorView::OsCommandFailed { command, message }).text(), command),
        occurs((AppErrorView::OsCommandFailed { command, message }).text(), message),
{
    lemma_second("the system command `"@, command, "` failed: "@, message);
}

/// The message about what could not be understood names the port, and says why.
pub proof fn law_unparseable_text(port: u16, reason: Seq<char>)
    ensures
        occurs((AppErrorView::UnparseableOutput { port, reason }).text(), dec(port as nat)),
        occurs((AppErrorView::UnparseableOutput { port, reason }).text(), reason),
{
    lemma_second(
        "failed to interpret operating-system output for port "@,
        dec(port as nat),
        ": "@,
        reason,
    );
}

/// The message about a file that could not be read names it, and the cause.
pub proof fn law_io_text(path: Seq<char>, source: Seq<char>)
    ensures
        occurs((AppErrorView::Io { path, source }).text(), path),
        occurs((AppErrorView::Io { path, source }).text(), source),
        occurs((AppErrorView::Io { path, source }).text(), "could not read "@),
{
    lemma_second("could not read "@, path, ": "@, source);
}

/// The other messages are told whole.
pub proof fn law_other_texts(message: Seq<char>)
    ensures
        (AppErrorView::KillFailed { message }).text() == message,
        (AppErrorView::Internal { message }).text() == message,
        occurs((AppErrorView::OsApi { message }).text(), message),
{
    let head = "operating-system API error: "@;
    law_part_occurs(head, message, Seq::empty());
    assert(head + message + Seq::<char>::empty() =~= head + message);
}

} // verus!
