//! What holds of every platform.

use vstd::prelude::*;

use crate::error::{AppError, AppErrorView};
use crate::platform::{absent, command_output, first_of_each, gone, listed, CommandReply};
use crate::process::{ProcessInfo, ProcessInfoView};
use crate::text::laws::law_part_occurs;
use crate::text::{decoded, occurs, trim};

verus! {

/// A process has gone from a port that is free, and from one that only others hold; from
/// no other. What goes wrong is told.
pub proof fn law_gone(
    free: Result<bool, AppError>,
    occupants: Vec<ProcessInfo>,
    e: AppError,
    pid: u32,
)
    ensures
        gone(Ok(true), Ok(occupants), pid) == Ok::<bool, AppError>(true),
        gone(Ok(true), Err(e), pid) == Ok::<bool, AppError>(true),
        gone(Err(e), Ok(occupants), pid) == Err::<bool, AppError>(e),
        gone(Ok(false), Err(e), pid) == Err::<bool, AppError>(e),
        gone(Ok(false), Ok(occupants), pid) == Ok::<bool, AppError>(
            !exists|i: int|
                0 <= i < occupants@.len() && (#[trigger] occupants@[i]).pid == pid,
        ),
{
    if exists|i: int| 0 <= i < occupants@.len() && (#[trigger] occupants@[i]).pid == pid {
        assert(!absent(occupants@, pid));
    } else {
        assert(absent(occupants@, pid));
    }
}

/// A process that holds a port has not gone, whoever else holds it, and in whatever order
/// they are found.
pub proof fn law_holder_has_not_gone(occupants: Vec<ProcessInfo>, i: int)
    requires
        0 <= i < occupants@.len(),
    ensures
        gone(Ok(false), Ok(occupants), occupants@[i].pid) == Ok::<bool, AppError>(false),
{
    assert(!absent(occupants@, occupants@[i].pid));
}

/// What is kept stands in the order in which it came.
pub proof fn law_dedup_keeps_order(processes: Seq<ProcessInfoView>, i: int, j: int) -> (at: (
    int,
    int,
))
    requires
        0 <= i < j < first_of_each(processes).len(),
    ensures
        0 <= at.0 < at.1 < processes.len(),
        processes[at.0] == first_of_each(processes)[i],
        processes[at.1] == first_of_each(processes)[j],
    decreases processes.len(),
{
    let front = processes.drop_last();
    let before = first_of_each(front);
    if j < before.len() {
        law_dedup_keeps_order(front, i, j)
    } else {
        let a = lemma_kept(front, i);
        (a, processes.len() - 1)
    }
}

proof fn lemma_kept(processes: Seq<ProcessInfoView>, i: int) -> (at: int)
    requires
        0 <= i < first_of_each(processes).len(),
    ensures
        0 <= at < processes.len(),
        processes[at] == first_of_each(processes)[i],
    decreases processes.len(),
{
    let front = processes.drop_last();
    if i < first_of_each(front).len() {
        lemma_kept(front, i)
    } else {
        processes.len() - 1
    }
}

/// A list in which each number stands once is kept as it is.
pub proof fn law_dedup_of_distinct(processes: Seq<ProcessInfoView>)
    requires
        forall|i: int, j: int|
            0 <= i < j < processes.len() ==> (#[trigger] processes[i]).pid != (
            #[trigger] processes[j]).pid,
    ensures
        first_of_each(processes) == processes,
    decreases processes.len(),
{
    if processes.len() > 0 {
        let front = processes.drop_last();
        assert forall|i: int, j: int| 0 <= i < j < front.len() implies (#[trigger] front[i]).pid
            != (#[trigger] front[j]).pid by {
            assert(front[i] == processes[i] && front[j] == processes[j]);
        }
        law_dedup_of_distinct(front);
        let last = processes[processes.len() - 1];
        assert(!listed(front, last.pid)) by {
            assert forall|i: int| 0 <= i < front.len() implies (#[trigger] front[i]).pid
                != last.pid by {
                assert(front[i] == processes[i]);
            }
        }
        assert(front.push(last) =~= processes);
    }
}

/// Each process that is kept is one of those that were given.
pub proof fn law_dedup_adds_none(processes: Seq<ProcessInfoView>, i: int)
    requires
        0 <= i < first_of_each(processes).len(),
    ensures
        processes.contains(first_of_each(processes)[i]),
{
    let at = lemma_kept(processes, i);
}

/// What a command wrote counts if it ended with exit code 0, and is told in full. With
/// any other exit code, or none, it failed, and what it wrote to its error output is told;
/// but where exit code 1 says that there was nothing to show, that is what it says. A
/// command that was not started failed too, and the message names it and the cause.
pub proof fn law_command_output(
    command: Seq<char>,
    detail: String,
    code: Option<i32>,
    stdout: Vec<u8>,
    stderr: Vec<u8>,
    one_is_empty: bool,
)
    ensures
        command_output(
            command,
            CommandReply::Ended { code: Some(0), stdout, stderr },
            one_is_empty,
        ) == Ok::<Seq<char>, AppErrorView>(decoded(stdout@)),
        command_output(command, CommandReply::Ended { code: Some(1), stdout, stderr }, true) == Ok::<
            Seq<char>,
            AppErrorView,
        >(Seq::empty()),
        code != Some(0i32) && (code != Some(1i32) || !one_is_empty) ==> command_output(
            command,
            CommandReply::Ended { code, stdout, stderr },
            one_is_empty,
        ) == Err::<Seq<char>, AppErrorView>(
            AppErrorView::OsCommandFailed { command, message: trim(decoded(stderr@)) },
        ),
        command_output(command, CommandReply::NotStarted { detail }, one_is_empty) matches Err(
            AppErrorView::OsCommandFailed { command: named, message },
        ) && named == command && occurs(message, command) && occurs(message, detail@),
{
    let head = "could not spawn `"@;
    let mid = "`: "@;
    let message = head + command + mid + detail@;
    law_part_occurs(head, command, mid + detail@);
    assert(message =~= head + command + (mid + detail@));
    law_part_occurs(head + command + mid, detail@, Seq::empty());
    assert(message =~= head + command + mid + detail@ + Seq::<char>::empty());
}

} // verus!
