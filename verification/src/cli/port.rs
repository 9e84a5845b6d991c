//! Port specifications: single ports and ranges, as the user writes them.

use vstd::prelude::*;
use vstd::slice::slice_subrange;

use crate::error::{AppError, AppErrorView};
use crate::text::{
    chars_of, dec, digit, find, find_char, law_decimal_round_trip, lemma_dec, lemma_find,
    lemma_trim, parse, parse_number, text_of, texts, trim, trimmed,
};

pub mod laws;

verus! {

/// A port as it is written: a number from 1 to 65535.
pub open spec fn bound(raw: Seq<char>) -> Result<u16, AppErrorView> {
    match parse(raw, 10, u32::MAX as nat) {
        None => Err(AppErrorView::InvalidPort { raw, reason: "not a number"@ }),
        Some(value) => if 1 <= value <= 65535 {
            Ok(value as u16)
        } else {
            Err(
                AppErrorView::InvalidPort { raw, reason: "port must be between 1 and 65535"@ },
            )
        },
    }
}

/// What is wrong with a specification as a whole.
pub open spec fn bad_spec(raw: Seq<char>, reason: Seq<char>) -> Result<(u16, u16), AppErrorView> {
    Err(AppErrorView::InvalidPort { raw, reason })
}

/// The first and the last port that a specification names. White space around it
/// does not count.
pub open spec fn interval(written: Seq<char>) -> Result<(u16, u16), AppErrorView> {
    let spec = trim(written);
    let dash = find(spec, '-') as int;
    if spec.len() == 0 {
        bad_spec(spec, "empty port spec"@)
    } else if dash >= spec.len() {
        match bound(spec) {
            Err(e) => Err(e),
            Ok(port) => Ok((port, port)),
        }
    } else if dash == 0 || dash + 1 == spec.len() {
        bad_spec(spec, "a range needs both a start and an end"@)
    } else {
        match (bound(spec.take(dash)), bound(spec.skip(dash + 1))) {
            (Err(e), _) => Err(e),
            (_, Err(e)) => Err(e),
            (Ok(low), Ok(high)) => if low > high {
                bad_spec(spec, "range start is greater than its end"@)
            } else {
                Ok((low, high))
            },
        }
    }
}

/// Whether a specification names `port`.
pub open spec fn covers(spec: Seq<char>, port: u16) -> bool {
    interval(spec) matches Ok((low, high)) && low <= port <= high
}

/// Whether one of the specifications names `port`.
pub open spec fn covered(specs: Seq<Seq<char>>, port: u16) -> bool {
    exists|i: int| 0 <= i < specs.len() && covers(#[trigger] specs[i], port)
}

/// What is wrong with the first specification that something is wrong with.
pub open spec fn first_error(specs: Seq<Seq<char>>) -> Option<AppErrorView>
    decreases specs.len(),
{
    if specs.len() == 0 {
        None
    } else {
        match (first_error(specs.drop_last()), interval(specs.last())) {
            (Some(e), _) => Some(e),
            (None, Err(e)) => Some(e),
            (None, Ok(_)) => None,
        }
    }
}

/// Whether each port is greater than the one before it.
pub open spec fn ascending(ports: Seq<u16>) -> bool {
    forall|i: int, j: int| 0 <= i < j < ports.len() ==> ports[i] < ports[j]
}

fn invalid(raw: &[char], reason: &str) -> (r: AppError)
    ensures
        r@ == (AppErrorView::InvalidPort { raw: raw@, reason: reason@ }),
{
    AppError::InvalidPort { raw: text_of(raw), reason: reason.to_string() }
}

/// The port that `raw` writes down.
pub fn parse_bound(raw: &[char]) -> (r: Result<u16, AppError>)
    ensures
        match r {
            Ok(port) => bound(raw@) == Ok::<u16, AppErrorView>(port),
            Err(e) => bound(raw@) == Err::<u16, AppErrorView>(e@),
        },
{
    match parse_number(raw, 10, 0xffff_ffff) {
        None => Err(invalid(raw, "not a number")),
        Some(value) => {
            if value == 0 || value > 65535 {
                Err(invalid(raw, "port must be between 1 and 65535"))
            } else {
                Ok(value as u16)
            }
        },
    }
}

/// The first and the last port that a specification names.
pub fn parse_spec(written: &str) -> (r: Result<(u16, u16), AppError>)
    ensures
        match r {
            Ok(ports) => interval(written@) == Ok::<(u16, u16), AppErrorView>(ports),
            Err(e) => interval(written@) == Err::<(u16, u16), AppErrorView>(e@),
        },
{
    let chars = chars_of(written);
    let spec = trimmed(chars.as_slice());
    if spec.len() == 0 {
        return Err(invalid(spec, "empty port spec"));
    }
    let dash = find_char(spec, '-');
    proof {
        lemma_find(spec@, '-');
    }
    if dash >= spec.len() {
        return match parse_bound(spec) {
            Err(e) => Err(e),
            Ok(port) => Ok((port, port)),
        };
    }
    if dash == 0 || dash + 1 == spec.len() {
        return Err(invalid(spec, "a range needs both a start and an end"));
    }
    assert(spec@.subrange(0, dash as int) == spec@.take(dash as int));
    assert(spec@.subrange(dash + 1, spec@.len() as int) == spec@.skip(dash + 1));
    let low = match parse_bound(slice_subrange(spec, 0, dash)) {
        Err(e) => {
            return Err(e);
        },
        Ok(low) => low,
    };
    let high = match parse_bound(slice_subrange(spec, dash + 1, spec.len())) {
        Err(e) => {
            return Err(e);
        },
        Ok(high) => high,
    };
    if low > high {
        Err(invalid(spec, "range start is greater than its end"))
    } else {
        Ok((low, high))
    }
}

/// The ports that the specifications name, each once, in ascending order. The
/// first specification that something is wrong with makes it all an error.
pub fn resolve_ports(specs: &[String]) -> (r: Result<Vec<u16>, AppError>)
    ensures
        match r {
            Ok(ports) => {
                &&& first_error(texts(specs@)) is None
                &&& ascending(ports@)
                &&& forall|port: u16|
                    #![trigger ports@.contains(port)]
                    ports@.contains(port) <==> covered(texts(specs@), port)
            },
            Err(e) => first_error(texts(specs@)) == Some(e@),
        },
{
    let ghost all = texts(specs@);
    let mut named: Vec<bool> = Vec::new();
    while named.len() < 65536
        invariant
            named@.len() <= 65536,
            forall|p: int| 0 <= p < named@.len() ==> !(#[trigger] named@[p]),
        decreases 65536 - named@.len(),
    {
        named.push(false);
    }
    let mut i: usize = 0;
    proof {
        assert(all.take(0) == Seq::<Seq<char>>::empty());
    }
    while i < specs.len()
        invariant
            i <= specs@.len(),
            all == texts(specs@),
            named@.len() == 65536,
            first_error(all.take(i as int)) is None,
            forall|p: u16| #[trigger] named@[p as int] <==> covered(all.take(i as int), p),
        decreases specs@.len() - i,
    {
        let ghost before = all.take(i as int);
        let ghost next = all.take(i + 1);
        proof {
            assert(next.drop_last() == before);
            assert(next.last() == specs@[i as int]@);
        }
        match parse_spec(specs[i].as_str()) {
            Err(e) => {
                proof {
                    lemma_first_error(all, i + 1);
                }
                return Err(e);
            },
            Ok((low, high)) => {
                let ghost old_named = named@;
                let mut p: usize = low as usize;
                while p <= high as usize
                    invariant
                        low <= p <= high + 1,
                        named@.len() == 65536,
                        forall|q: u16| #[trigger] named@[q as int] <==> (old_named[q as int] || low
                            <= q < p),
                    decreases high + 1 - p,
                {
                    named.set(p, true);
                    p += 1;
                }
                proof {
                    assert forall|q: u16| #[trigger] named@[q as int] <==> covered(next, q) by {
                        lemma_covered(next, q);
                    }
                }
            },
        }
        i += 1;
    }
    assert(all.take(all.len() as int) == all);
    let mut out: Vec<u16> = Vec::new();
    let mut p: usize = 0;
    while p < 65536
        invariant
            p <= 65536,
            named@.len() == 65536,
            ascending(out@),
            forall|i: int| 0 <= i < out@.len() ==> #[trigger] out@[i] < p,
            forall|q: u16| q < p ==> (#[trigger] named@[q as int] <==> out@.contains(q)),
            forall|q: u16| #[trigger] out@.contains(q) ==> q < p,
        decreases 65536 - p,
    {
        if named[p] {
            let ghost before = out@;
            out.push(p as u16);
            proof {
                assert forall|q: u16| #[trigger] out@.contains(q) <==> (before.contains(q) || q
                    == p) by {
                    if before.contains(q) {
                        let k = choose|k: int| 0 <= k < before.len() && before[k] == q;
                        assert(out@[k] == q);
                    }
                    if q == p {
                        assert(out@[before.len() as int] == q);
                    }
                }
            }
        }
        p += 1;
    }
    proof {
        assert forall|port: u16|
            #![trigger out@.contains(port)]
            out@.contains(port) <==> covered(all, port) by {
            assert(named@[port as int] <==> out@.contains(port));
        }
    }
    Ok(out)
}

proof fn lemma_first_error(specs: Seq<Seq<char>>, n: int)
    requires
        0 <= n <= specs.len(),
        first_error(specs.take(n)) is Some,
    ensures
        first_error(specs) == first_error(specs.take(n)),
    decreases specs.len() - n,
{
    if n < specs.len() {
        assert(specs.take(n + 1).drop_last() == specs.take(n));
        lemma_first_error(specs, n + 1);
    } else {
        assert(specs.take(n) == specs);
    }
}

proof fn lemma_covered(specs: Seq<Seq<char>>, port: u16)
    requires
        specs.len() > 0,
    ensures
        covered(specs, port) <==> covered(specs.drop_last(), port) || covers(specs.last(), port),
{
    let front = specs.drop_last();
    if covered(front, port) {
        let i = choose|i: int| 0 <= i < front.len() && covers(#[trigger] front[i], port);
        assert(covers(specs[i], port));
    }
    if covered(specs, port) {
        let i = choose|i: int| 0 <= i < specs.len() && covers(#[trigger] specs[i], port);
        if i < front.len() {
            assert(covers(front[i], port));
        }
    }
}

/// No specification names port 0.
pub proof fn law_ports_are_valid(specs: Seq<Seq<char>>, port: u16)
    requires
        covered(specs, port),
    ensures
        1 <= port,
{
    let i = choose|i: int| 0 <= i < specs.len() && covers(#[trigger] specs[i], port);
    assert(interval(specs[i]) is Ok);
}

/// Two lists of specifications that name the same ports resolve to the same list:
/// neither order nor repetition nor overlap counts.
pub proof fn law_same_ports_same_list(
    specs: Seq<Seq<char>>,
    others: Seq<Seq<char>>,
    ports: Seq<u16>,
    other_ports: Seq<u16>,
)
    requires
        forall|port: u16| covered(specs, port) <==> covered(others, port),
        ascending(ports),
        ascending(other_ports),
        forall|port: u16|
            #![trigger ports.contains(port)]
            ports.contains(port) <==> covered(specs, port),
        forall|port: u16|
            #![trigger other_ports.contains(port)]
            other_ports.contains(port) <==> covered(others, port),
    ensures
        ports == other_ports,
{
    assert forall|port: u16| ports.contains(port) <==> other_ports.contains(port) by {
        assert(covered(specs, port) <==> covered(others, port));
    }
    lemma_ascending_unique(ports, other_ports);
}

proof fn lemma_ascending_unique(a: Seq<u16>, b: Seq<u16>)
    requires
        ascending(a),
        ascending(b),
        forall|port: u16| a.contains(port) <==> b.contains(port),
    ensures
        a == b,
    decreases a.len(),
{
    if a.len() == 0 {
        if b.len() > 0 {
            assert(b.contains(b[0]));
        }
        assert(a =~= b);
    } else if b.len() == 0 {
        assert(a.contains(a[0]));
    } else {
        let (x, y) = (a.last(), b.last());
        assert(a.contains(x) && b.contains(y));
        let i = choose|i: int| 0 <= i < b.len() && b[i] == x;
        let j = choose|j: int| 0 <= j < a.len() && a[j] == y;
        assert(x == y);
        let (front_a, front_b) = (a.drop_last(), b.drop_last());
        assert forall|port: u16| front_a.contains(port) <==> front_b.contains(port) by {
            if front_a.contains(port) {
                let k = choose|k: int| 0 <= k < front_a.len() && front_a[k] == port;
                assert(a[k] == port);
                assert(b.contains(port));
                let m = choose|m: int| 0 <= m < b.len() && b[m] == port;
                assert(front_b[m] == port);
            }
            if front_b.contains(port) {
                let k = choose|k: int| 0 <= k < front_b.len() && front_b[k] == port;
                assert(b[k] == port);
                assert(a.contains(port));
                let m = choose|m: int| 0 <= m < a.len() && a[m] == port;
                assert(front_a[m] == port);
            }
        }
        lemma_ascending_unique(front_a, front_b);
        assert(a =~= front_a.push(x));
        assert(b =~= front_b.push(y));
    }
}

/// A port written in decimal names that port alone.
pub proof fn law_port_reads_back(port: u16)
    requires
        port >= 1,
    ensures
        interval(dec(port as nat)) == Ok::<(u16, u16), AppErrorView>((port, port)),
{
    let s = dec(port as nat);
    lemma_dec(port as nat);
    assert(digit(s[0]) < 10 && digit(s.last()) < 10);
    lemma_trim(s);
    lemma_find(s, '-');
    if find(s, '-') < s.len() {
        assert(digit(s[find(s, '-') as int]) < 10);
    }
    law_decimal_round_trip(port as nat, u32::MAX as nat);
}

/// Two ports in decimal with a dash between them name the ports from the one to
/// the other.
pub proof fn law_range_reads_back(low: u16, high: u16)
    requires
        1 <= low <= high,
    ensures
        interval(dec(low as nat) + seq!['-'] + dec(high as nat)) == Ok::<
            (u16, u16),
            AppErrorView,
        >((low, high)),
{
    let a = dec(low as nat);
    let b = dec(high as nat);
    let s = a + seq!['-'] + b;
    lemma_dec(low as nat);
    lemma_dec(high as nat);
    assert(digit(a[0]) < 10 && digit(b.last()) < 10);
    assert(s[0] == a[0] && s.last() == b.last());
    lemma_trim(s);
    lemma_find(s, '-');
    assert(s[a.len() as int] == '-');
    let dash = find(s, '-') as int;
    if dash < a.len() {
        assert(s[dash] == a[dash]);
        assert(digit(a[dash]) < 10);
    }
    assert(dash == a.len());
    assert(s.take(dash) =~= a);
    assert(s.skip(dash + 1) =~= b);
    law_decimal_round_trip(low as nat, u32::MAX as nat);
    law_decimal_round_trip(high as nat, u32::MAX as nat);
}

} // verus!
