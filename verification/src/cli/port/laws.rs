//! What port specifications mean, as they are written.

use vstd::prelude::*;

use crate::cli::port::{
    ascending, bound, covered, covers, first_error, interval, law_port_reads_back,
    law_range_reads_back,
};
use crate::error::AppErrorView;
use crate::text::laws::{is_blank, law_parse, law_parse_refuses, law_trim};
use crate::text::{dec, digit, find, lemma_find, lemma_trim, white};

verus! {

/// Whether the text has something in it, and no white space at either end.
pub open spec fn is_bare(s: Seq<char>) -> bool {
    s.len() > 0 && !white(s[0]) && !white(s.last())
}

/// White space around a specification does not count.
pub proof fn law_white_space_does_not_count(
    before: Seq<char>,
    spec: Seq<char>,
    after: Seq<char>,
)
    requires
        is_blank(before),
        is_blank(after),
        is_bare(spec),
    ensures
        interval(before + spec + after) == interval(spec),
{
    law_trim(before, spec, after);
    lemma_trim(spec);
}

/// A specification of white space alone names nothing, and is an error.
pub proof fn law_blank_is_refused(blank: Seq<char>)
    requires
        is_blank(blank),
    ensures
        interval(blank) == Err::<(u16, u16), AppErrorView>(
            AppErrorView::InvalidPort { raw: Seq::empty(), reason: "empty port spec"@ },
        ),
{
    law_trim(blank, Seq::empty(), Seq::empty());
    assert(blank + Seq::<char>::empty() + Seq::<char>::empty() =~= blank);
}

/// What a number in decimal means as a port: itself, if it is one from 1 to 65535; an error
/// that names it otherwise.
pub proof fn law_number_as_port(n: nat)
    ensures
        1 <= n <= 65535 ==> bound(dec(n)) == Ok::<u16, AppErrorView>(n as u16),
        n == 0 || 65535 < n <= 0xffff_ffff ==> bound(dec(n)) == Err::<u16, AppErrorView>(
            AppErrorView::InvalidPort { raw: dec(n), reason: "port must be between 1 and 65535"@ },
        ),
        n > 0xffff_ffff ==> bound(dec(n)) == Err::<u16, AppErrorView>(
            AppErrorView::InvalidPort { raw: dec(n), reason: "not a number"@ },
        ),
{
    law_parse(Seq::empty(), n, u32::MAX as nat, 10);
}

/// What is no number is no port, and the error names it.
pub proof fn law_no_number(raw: Seq<char>, i: int)
    requires
        0 <= i < raw.len(),
        !('0' <= raw[i] <= '9'),
        i > 0 || raw[0] != '+',
    ensures
        bound(raw) == Err::<u16, AppErrorView>(
            AppErrorView::InvalidPort { raw, reason: "not a number"@ },
        ),
        bound(Seq::empty()) == Err::<u16, AppErrorView>(
            AppErrorView::InvalidPort { raw: Seq::empty(), reason: "not a number"@ },
        ),
{
    assert(digit(raw[i]) >= 10);
    law_parse_refuses(raw, i, 10, u32::MAX as nat);
    law_parse(Seq::empty(), 0, u32::MAX as nat, 10);
}

/// Without a dash, a specification is one port: it names that, or the same is wrong with
/// it.
pub proof fn law_single_port(spec: Seq<char>)
    requires
        is_bare(spec),
        forall|i: int| 0 <= i < spec.len() ==> spec[i] != '-',
    ensures
        interval(spec) == match bound(spec) {
            Ok(port) => Ok::<(u16, u16), AppErrorView>((port, port)),
            Err(e) => Err(e),
        },
{
    lemma_trim(spec);
    lemma_find(spec, '-');
}

/// With a dash, it is a range from what stands before the first dash to what stands after
/// it. What is wrong with the start counts before what is wrong with the end.
pub proof fn law_range(low: Seq<char>, high: Seq<char>)
    requires
        is_bare(low + seq!['-'] + high),
        forall|i: int| 0 <= i < low.len() ==> low[i] != '-',
    ensures
        ({
            let spec = low + seq!['-'] + high;
            let r = interval(spec);
            &&& low.len() == 0 || high.len() == 0 ==> r == Err::<(u16, u16), AppErrorView>(
                AppErrorView::InvalidPort {
                    raw: spec,
                    reason: "a range needs both a start and an end"@,
                },
            )
            &&& low.len() > 0 && high.len() > 0 ==> match (bound(low), bound(high)) {
                (Err(e), _) => r == Err::<(u16, u16), AppErrorView>(e),
                (Ok(_), Err(e)) => r == Err::<(u16, u16), AppErrorView>(e),
                (Ok(first), Ok(last)) => {
                    &&& first <= last ==> r == Ok::<(u16, u16), AppErrorView>((first, last))
                    &&& first > last ==> r == Err::<(u16, u16), AppErrorView>(
                        AppErrorView::InvalidPort {
                            raw: spec,
                            reason: "range start is greater than its end"@,
                        },
                    )
                },
            }
        }),
{
    let spec = low + seq!['-'] + high;
    lemma_trim(spec);
    lemma_find(spec, '-');
    let dash = find(spec, '-') as int;
    assert(spec[low.len() as int] == '-');
    if dash < low.len() {
        assert(spec[dash] == low[dash]);
    }
    assert(dash == low.len());
    assert(spec.take(dash) =~= low);
    assert(spec.skip(dash + 1) =~= high);
}

/// A port written in decimal names that port and no other; two with a dash between them
/// name those from the one to the other, and no other.
pub proof fn law_what_is_named(low: u16, high: u16, port: u16)
    requires
        1 <= low <= high,
    ensures
        covered(seq![dec(low as nat)], port) <==> port == low,
        covered(seq![dec(low as nat) + seq!['-'] + dec(high as nat)], port) <==> low <= port
            <= high,
{
    law_port_reads_back(low);
    law_range_reads_back(low, high);
    let single = seq![dec(low as nat)];
    let range = seq![dec(low as nat) + seq!['-'] + dec(high as nat)];
    assert(covers(single[0], port) <==> port == low);
    assert(covers(range[0], port) <==> low <= port <= high);
    if covered(single, port) {
        let i = choose|i: int| 0 <= i < single.len() && covers(#[trigger] single[i], port);
        assert(i == 0);
    }
    if covered(range, port) {
        let i = choose|i: int| 0 <= i < range.len() && covers(#[trigger] range[i], port);
        assert(i == 0);
    }
}

/// What two lists of specifications name together is what one or the other names.
pub proof fn law_lists_add_up(a: Seq<Seq<char>>, b: Seq<Seq<char>>, port: u16)
    ensures
        covered(a + b, port) <==> covered(a, port) || covered(b, port),
        !covered(Seq::empty(), port),
{
    let all = a + b;
    if covered(a, port) {
        let i = choose|i: int| 0 <= i < a.len() && covers(#[trigger] a[i], port);
        assert(covers(all[i], port));
    }
    if covered(b, port) {
        let i = choose|i: int| 0 <= i < b.len() && covers(#[trigger] b[i], port);
        assert(covers(all[a.len() + i], port));
    }
    if covered(all, port) {
        let i = choose|i: int| 0 <= i < all.len() && covers(#[trigger] all[i], port);
        if i < a.len() {
            assert(covers(a[i], port));
        } else {
            assert(covers(b[i - a.len()], port));
        }
    }
}

/// The first specification that something is wrong with decides; if nothing is wrong with
/// any, nothing is wrong.
pub proof fn law_first_error(specs: Seq<Seq<char>>, i: int)
    requires
        0 <= i <= specs.len(),
        forall|j: int| 0 <= j < i ==> interval(#[trigger] specs[j]) is Ok,
        i < specs.len() ==> interval(specs[i]) is Err,
    ensures
        i == specs.len() ==> first_error(specs) is None,
        i < specs.len() ==> first_error(specs) == Some(interval(specs[i])->Err_0),
    decreases specs.len(),
{
    if specs.len() > 0 {
        let front = specs.drop_last();
        if i < front.len() {
            law_first_error(front, i);
        } else {
            law_first_error(front, front.len() as int);
            assert(interval(specs[specs.len() - 1]) is Ok || i == front.len());
        }
    }
}

/// What it means that ports ascend.
pub proof fn law_ascending(ports: Seq<u16>, i: int, j: int)
    ensures
        ascending(ports) && 0 <= i < j < ports.len() ==> ports[i] < ports[j],
        0 <= i < j < ports.len() && ports[i] >= ports[j] ==> !ascending(ports),
        ports.len() <= 1 ==> ascending(ports),
{
}

} // verus!
