//! Completing what is known of a process from a snapshot of the system.
//!
//! Enrichment is best-effort and additive: it never overwrites what the platform
//! already supplied, and it never fails.

use vstd::prelude::*;

use crate::process::{
    clone_text, infos, opt_text, placeholder, placeholder_name, ProcessInfo, ProcessInfoView,
};
use crate::text::{chars_of, join, join_spaced, same_text, text_of, texts, trim, trimmed, views};

pub mod laws;

verus! {

/// What a snapshot of the system knows of one process.
#[derive(Debug, Clone, PartialEq, Eq)]
pub struct ProcessFacts {
    /// The process that the facts are about.
    pub pid: u32,
    /// The name of the program that it runs.
    pub name: String,
    /// The command line, one string per argument.
    pub cmd: Vec<String>,
    /// The name of the user that the process runs as, if there is one.
    pub user: Option<String>,
    /// How long the process has been running, in seconds.
    pub run_time: u64,
}

/// What a [`ProcessFacts`] holds, as mathematical text.
#[verifier::ext_equal]
pub struct ProcessFactsView {
    pub pid: u32,
    pub name: Seq<char>,
    pub cmd: Seq<Seq<char>>,
    pub user: Option<Seq<char>>,
    pub run_time: u64,
}

impl View for ProcessFacts {
    type V = ProcessFactsView;

    open spec fn view(&self) -> ProcessFactsView {
        ProcessFactsView {
            pid: self.pid,
            name: self.name@,
            cmd: texts(self.cmd@),
            user: opt_text(self.user),
            run_time: self.run_time,
        }
    }
}

impl ProcessFactsView {
    /// The arguments joined by spaces, without white space at either end.
    pub open spec fn command_line(self) -> Seq<char> {
        trim(join(self.cmd, seq![' ']))
    }
}

/// A snapshot of the system, shared by all the processes of one inspection.
#[derive(Debug, Clone, PartialEq, Eq)]
pub struct ProcessEnricher {
    /// What is known, one entry per process.
    pub facts: Vec<ProcessFacts>,
}

impl View for ProcessEnricher {
    type V = Seq<ProcessFactsView>;

    open spec fn view(&self) -> Seq<ProcessFactsView> {
        self.facts@.map_values(|f: ProcessFacts| f@)
    }
}

/// The first entry about `pid`, if there is one.
pub open spec fn facts_about(facts: Seq<ProcessFactsView>, pid: u32) -> Option<ProcessFactsView>
    decreases facts.len(),
{
    if facts.len() == 0 {
        None
    } else if facts[0].pid == pid {
        Some(facts[0])
    } else {
        facts_about(facts.skip(1), pid)
    }
}

/// A process with the gaps in its metadata filled from what the snapshot knows
/// of it, and a name in place of a placeholder. A process that the snapshot does
/// not know is left as it is.
pub open spec fn enriched(facts: Seq<ProcessFactsView>, p: ProcessInfoView) -> ProcessInfoView {
    match facts_about(facts, p.pid) {
        None => p,
        Some(f) => ProcessInfoView {
            name: if p.name == placeholder(p.pid) && f.name.len() > 0 {
                f.name
            } else {
                p.name
            },
            command: if p.command is None && f.command_line().len() > 0 {
                Some(f.command_line())
            } else {
                p.command
            },
            user: if p.user is None {
                f.user
            } else {
                p.user
            },
            uptime_secs: if p.uptime_secs is None {
                Some(f.run_time)
            } else {
                p.uptime_secs
            },
            ..p
        },
    }
}

/// The processes, each with the gaps in its metadata filled, in order.
pub open spec fn all_enriched(
    facts: Seq<ProcessFactsView>,
    processes: Seq<ProcessInfoView>,
) -> Seq<ProcessInfoView> {
    processes.map_values(|p: ProcessInfoView| enriched(facts, p))
}

/// The arguments joined by spaces, without white space at either end, unless
/// nothing is left.
fn command_line(cmd: &Vec<String>) -> (out: Option<String>)
    ensures
        ({
            let line = trim(join(texts(cmd@), seq![' ']));
            opt_text(out) == if line.len() > 0 {
                Some(line)
            } else {
                None
            }
        }),
{
    let mut owned: Vec<Vec<char>> = Vec::new();
    let mut i: usize = 0;
    while i < cmd.len()
        invariant
            i <= cmd@.len(),
            owned@.len() == i,
            forall|j: int| 0 <= j < i ==> (#[trigger] owned@[j])@ == cmd@[j]@,
        decreases cmd@.len() - i,
    {
        owned.push(chars_of(cmd[i].as_str()));
        i += 1;
    }
    let mut parts: Vec<&[char]> = Vec::new();
    let mut k: usize = 0;
    while k < owned.len()
        invariant
            k <= owned@.len(),
            owned@.len() == cmd@.len(),
            forall|j: int| 0 <= j < owned@.len() ==> (#[trigger] owned@[j])@ == cmd@[j]@,
            parts@.len() == k,
            forall|j: int| 0 <= j < k ==> (#[trigger] parts@[j])@ == cmd@[j]@,
        decreases owned@.len() - k,
    {
        parts.push(owned[k].as_slice());
        k += 1;
    }
    let joined = join_spaced(parts.as_slice(), 0, parts.len());
    proof {
        assert(views(parts@) =~= texts(cmd@));
        assert(views(parts@).subrange(0, parts@.len() as int) =~= views(parts@));
    }
    let chars = chars_of(joined.as_str());
    let line = trimmed(chars.as_slice());
    if line.len() > 0 {
        Some(text_of(line))
    } else {
        None
    }
}

impl ProcessEnricher {
    /// An enricher over the given snapshot.
    pub fn new(facts: Vec<ProcessFacts>) -> (r: ProcessEnricher)
        ensures
            r@ == facts@.map_values(|f: ProcessFacts| f@),
    {
        ProcessEnricher { facts }
    }

    /// What the snapshot knows of `pid`.
    fn lookup(&self, pid: u32) -> (r: Option<&ProcessFacts>)
        ensures
            (match r {
                Some(f) => Some(f@),
                None => None,
            }) == facts_about(self@, pid),
    {
        let mut i: usize = 0;
        assert(self@.skip(0) == self@);
        while i < self.facts.len()
            invariant
                i <= self.facts@.len(),
                facts_about(self@, pid) == facts_about(self@.skip(i as int), pid),
            decreases self.facts@.len() - i,
        {
            assert(self@.skip(i as int)[0] == self.facts@[i as int]@);
            if self.facts[i].pid == pid {
                return Some(&self.facts[i]);
            }
            assert(self@.skip(i as int).skip(1) == self@.skip(i + 1));
            i += 1;
        }
        assert(self@.skip(i as int).len() == 0);
        None
    }

    /// The process with the gaps in its metadata filled.
    pub fn enrich(&self, process: ProcessInfo) -> (r: ProcessInfo)
        ensures
            r@ == enriched(self@, process@),
    {
        let mut process = process;
        if let Some(facts) = self.lookup(process.pid) {
            let name = chars_of(process.name.as_str());
            let known = chars_of(facts.name.as_str());
            if known.len() > 0 && same_text(
                name.as_slice(),
                placeholder_name(process.pid).as_str(),
            ) {
                process.name = facts.name.clone();
            }
            if process.command.is_none() {
                process.command = command_line(&facts.cmd);
            }
            if process.user.is_none() {
                process.user = clone_text(&facts.user);
            }
            if process.uptime_secs.is_none() {
                process.uptime_secs = Some(facts.run_time);
            }
        }
        process
    }

    /// The processes, each with the gaps in its metadata filled, in order.
    pub fn enrich_each(&self, processes: &Vec<ProcessInfo>) -> (r: Vec<ProcessInfo>)
        ensures
            infos(r@) == all_enriched(self@, infos(processes@)),
    {
        let mut out: Vec<ProcessInfo> = Vec::new();
        let mut i: usize = 0;
        while i < processes.len()
            invariant
                i <= processes@.len(),
                out@.len() == i,
                forall|j: int|
                    0 <= j < i ==> (#[trigger] out@[j])@ == enriched(self@, processes@[j]@),
            decreases processes@.len() - i,
        {
            out.push(self.enrich(processes[i].clone()));
            i += 1;
        }
        out
    }

    /// A whole batch of processes, each enriched, in order.
    pub fn enrich_all(&self, processes: Vec<ProcessInfo>) -> (r: Vec<ProcessInfo>)
        ensures
            infos(r@) == all_enriched(self@, infos(processes@)),
    {
        self.enrich_each(&processes)
    }
}

/// What was known of a process stays as it was; only what was missing, and a
/// placeholder for the name, can change.
pub proof fn law_enrichment_only_adds(facts: Seq<ProcessFactsView>, p: ProcessInfoView)
    ensures
        ({
            let after = enriched(facts, p);
            &&& after.pid == p.pid
            &&& p.name != placeholder(p.pid) ==> after.name == p.name
            &&& p.command is Some ==> after.command == p.command
            &&& p.user is Some ==> after.user == p.user
            &&& p.uptime_secs is Some ==> after.uptime_secs == p.uptime_secs
            &&& after.cwd == p.cwd
        }),
{
}

} // verus!
