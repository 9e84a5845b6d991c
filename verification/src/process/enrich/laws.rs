//! What enrichment fills in.

use vstd::prelude::*;

use crate::process::enrich::{
    all_enriched, enriched, facts_about, ProcessFacts, ProcessFactsView,
};
use crate::process::{infos, placeholder, ProcessInfo, ProcessInfoView};
use crate::text::laws::{
    is_blank, is_word, law_decimal_is_injective, law_trim, law_trimmed_ends,
};
use crate::text::{dec, join, trim, white};

verus! {

/// The first entry about a process is what is known of it.
pub proof fn law_first_entry_counts(facts: Seq<ProcessFactsView>, i: int)
    requires
        0 <= i < facts.len(),
        forall|j: int| 0 <= j < i ==> (#[trigger] facts[j]).pid != facts[i].pid,
    ensures
        facts_about(facts, facts[i].pid) == Some(facts[i]),
    decreases facts.len(),
{
    if i > 0 {
        assert(facts[0].pid != facts[i].pid);
        let rest = facts.skip(1);
        assert(rest[i - 1] == facts[i]);
        assert forall|j: int| 0 <= j < i - 1 implies (#[trigger] rest[j]).pid != rest[i - 1].pid by {
            assert(rest[j] == facts[j + 1]);
        }
        law_first_entry_counts(rest, i - 1);
    }
}

/// Each field that is missing is filled on its own, whatever the others hold: the user and
/// the run time with what the entry says, the command with the arguments joined by spaces,
/// trimmed, if they are not blank. A placeholder for the name gives way to a name.
pub proof fn law_gaps_are_filled(facts: Seq<ProcessFactsView>, p: ProcessInfoView, i: int)
    requires
        0 <= i < facts.len(),
        facts[i].pid == p.pid,
        forall|j: int| 0 <= j < i ==> (#[trigger] facts[j]).pid != p.pid,
    ensures
        ({
            let after = enriched(facts, p);
            let line = join(facts[i].cmd, seq![' ']);
            &&& p.user is None ==> after.user == facts[i].user
            &&& p.uptime_secs is None ==> after.uptime_secs == Some(facts[i].run_time)
            &&& p.command is None && !is_blank(line) ==> after.command == Some(trim(line))
            &&& p.command is None && is_blank(line) ==> after.command is None
            &&& p.name == "pid-"@ + dec(p.pid as nat) && facts[i].name.len() > 0 ==> after.name
                == facts[i].name
            &&& facts[i].name.len() == 0 ==> after.name == p.name
        }),
{
    law_first_entry_counts(facts, i);
    let line = join(facts[i].cmd, seq![' ']);
    law_trimmed_ends(line);
    if is_blank(line) {
        law_trim(line, Seq::empty(), Seq::empty());
        assert(line + Seq::<char>::empty() + Seq::<char>::empty() =~= line);
    }
}

/// Arguments without white space make a command line that holds them, one space between
/// each two.
pub proof fn law_command_line(facts: Seq<ProcessFactsView>, p: ProcessInfoView, i: int)
    requires
        0 <= i < facts.len(),
        facts[i].pid == p.pid,
        forall|j: int| 0 <= j < i ==> (#[trigger] facts[j]).pid != p.pid,
        p.command is None,
        facts[i].cmd.len() > 0,
        forall|j: int| 0 <= j < facts[i].cmd.len() ==> is_word(#[trigger] facts[i].cmd[j]),
    ensures
        enriched(facts, p).command == Some(join(facts[i].cmd, seq![' '])),
{
    law_gaps_are_filled(facts, p, i);
    let line = join(facts[i].cmd, seq![' ']);
    lemma_join_ends(facts[i].cmd);
    assert(!is_blank(line)) by {
        assert(!white(line[0]));
    }
    law_trim(Seq::empty(), line, Seq::empty());
    assert(Seq::<char>::empty() + line + Seq::<char>::empty() =~= line);
}

/// Words joined by spaces begin and end without white space.
pub proof fn lemma_join_ends(args: Seq<Seq<char>>)
    requires
        args.len() > 0,
        forall|i: int| 0 <= i < args.len() ==> is_word(#[trigger] args[i]),
    ensures
        join(args, seq![' ']).len() > 0,
        !white(join(args, seq![' '])[0]),
        !white(join(args, seq![' ']).last()),
    decreases args.len(),
{
    let last = args[args.len() - 1];
    assert(is_word(last));
    assert(!white(last[last.len() - 1]));
    if args.len() == 1 {
        assert(!white(args[0][0]));
    } else {
        let front = args.drop_last();
        assert forall|i: int| 0 <= i < front.len() implies is_word(#[trigger] front[i]) by {
            assert(front[i] == args[i]);
        }
        lemma_join_ends(front);
    }
}

/// A process of which no entry tells is left as it is.
pub proof fn law_unknown_is_kept(facts: Seq<ProcessFactsView>, p: ProcessInfoView)
    requires
        forall|j: int| 0 <= j < facts.len() ==> (#[trigger] facts[j]).pid != p.pid,
    ensures
        enriched(facts, p) == p,
    decreases facts.len(),
{
    if facts.len() > 0 {
        assert(facts[0].pid != p.pid);
        let rest = facts.skip(1);
        assert forall|j: int| 0 <= j < rest.len() implies (#[trigger] rest[j]).pid != p.pid by {
            assert(rest[j] == facts[j + 1]);
        }
        law_unknown_is_kept(rest, p);
    }
}

/// What the snapshot says of other processes does not count.
pub proof fn law_others_do_not_count(
    f: ProcessFactsView,
    facts: Seq<ProcessFactsView>,
    p: ProcessInfoView,
)
    requires
        f.pid != p.pid,
    ensures
        enriched(seq![f] + facts, p) == enriched(facts, p),
{
    assert((seq![f] + facts).skip(1) =~= facts);
}

/// To enrich a second time from the same snapshot changes nothing.
pub proof fn law_once_is_enough(facts: Seq<ProcessFactsView>, p: ProcessInfoView)
    ensures
        enriched(facts, enriched(facts, p)) == enriched(facts, p),
{
}

/// A batch keeps its order, and each process is enriched on its own.
pub proof fn law_batch(
    facts: Seq<ProcessFactsView>,
    processes: Seq<ProcessInfoView>,
    i: int,
)
    requires
        0 <= i < processes.len(),
    ensures
        all_enriched(facts, processes).len() == processes.len(),
        all_enriched(facts, processes)[i] == enriched(facts, processes[i]),
        all_enriched(facts, processes)[i].pid == processes[i].pid,
{
}

/// The view of a process tells each of its fields.
pub proof fn law_process_view(p: ProcessInfo, text: String)
    ensures
        p@.pid == p.pid,
        p@.name == p.name@,
        p.command == Some(text) ==> p@.command == Some(text@),
        p.command is None ==> p@.command is None,
        p.user == Some(text) ==> p@.user == Some(text@),
        p.user is None ==> p@.user is None,
        p@.uptime_secs == p.uptime_secs,
        p.cwd == Some(text) ==> p@.cwd == Some(text@),
        p.cwd is None ==> p@.cwd is None,
{
}

/// The view of an entry tells each of its fields.
pub proof fn law_facts_view(f: ProcessFacts, text: String, i: int)
    ensures
        f@.pid == f.pid,
        f@.name == f.name@,
        f@.cmd.len() == f.cmd@.len(),
        0 <= i < f.cmd@.len() ==> f@.cmd[i] == f.cmd@[i]@,
        f.user == Some(text) ==> f@.user == Some(text@),
        f.user is None ==> f@.user is None,
        f@.run_time == f.run_time,
{
}

/// The view of a list tells each process, in order.
pub proof fn law_list_view(processes: Seq<ProcessInfo>, i: int)
    requires
        0 <= i < processes.len(),
    ensures
        infos(processes).len() == processes.len(),
        infos(processes)[i] == processes[i]@,
{
}

/// A placeholder names the process: two processes do not share one.
pub proof fn law_placeholder(a: u32, b: u32)
    ensures
        placeholder(a) == "pid-"@ + dec(a as nat),
        placeholder(a) == placeholder(b) ==> a == b,
{
    reveal_strlit("pid-");
    let da = dec(a as nat);
    let db = dec(b as nat);
    assert(placeholder(a).skip(4) =~= da);
    assert(placeholder(b).skip(4) =~= db);
    if placeholder(a) == placeholder(b) {
        law_decimal_is_injective(a as nat, b as nat);
    }
}

} // verus!
