//! Character-level text handling.
//!
//! Text is modelled as a sequence of characters. The executable functions work
//! on character slices, so every position is a character position.

use vstd::prelude::*;
use vstd::slice::slice_subrange;
use vstd::string::StringExecFns;
use vstd::utf8::{decode_utf8, valid_utf8};

pub mod laws;

verus! {

// ---------------------------------------------------------------------------
// Between strings and characters
// ---------------------------------------------------------------------------

/// `String::push` appends one character at the end of the string.
pub assume_specification[ String::push ](s: &mut String, c: char)
    ensures
        final(s)@ == old(s)@.push(c),
;

/// The characters of `s`, in order.
pub fn chars_of(s: &str) -> (out: Vec<char>)
    ensures
        out@ == s@,
{
    let mut out: Vec<char> = Vec::new();
    for c in it: s.chars()
        invariant
            it.seq() == s@,
            out@ == s@.take(it.index()),
    {
        out.push(c);
        assert(s@.take(it.index() + 1) == s@.take(it.index()).push(s@[it.index()]));
    }
    assert(s@.take(s@.len() as int) == s@);
    out
}

/// The string made of `chars`, in order.
pub fn text_of(chars: &[char]) -> (out: String)
    ensures
        out@ == chars@,
{
    let mut out = String::new();
    let mut i: usize = 0;
    while i < chars.len()
        invariant
            i <= chars@.len(),
            out@ == chars@.take(i as int),
        decreases chars@.len() - i,
    {
        out.push(chars[i]);
        assert(chars@.take(i + 1) == chars@.take(i as int).push(chars@[i as int]));
        i += 1;
    }
    assert(chars@.take(chars@.len() as int) == chars@);
    out
}

/// The text that `String::from_utf8_lossy` makes of some bytes.
pub uninterp spec fn utf8_lossy(bytes: Seq<u8>) -> Seq<char>;

/// `String::from_utf8_lossy` reads the bytes as UTF-8. Bytes that are valid UTF-8
/// give the text that they encode; of other bytes it is only said that the same
/// bytes give the same text.
#[verifier::external_body]
fn lossy(bytes: &[u8]) -> (out: String)
    ensures
        out@ == utf8_lossy(bytes@),
        valid_utf8(bytes@) ==> out@ == decode_utf8(bytes@),
{
    String::from_utf8_lossy(bytes).into_owned()
}

/// The text that some bytes encode in UTF-8; for bytes that are not valid UTF-8,
/// what `String::from_utf8_lossy` makes of them.
pub open spec fn decoded(bytes: Seq<u8>) -> Seq<char> {
    if valid_utf8(bytes) {
        decode_utf8(bytes)
    } else {
        utf8_lossy(bytes)
    }
}

/// The text that some bytes encode in UTF-8, as well as it can be told.
pub fn decode(bytes: &[u8]) -> (out: String)
    ensures
        out@ == decoded(bytes@),
{
    lossy(bytes)
}

/// The texts of a list of strings.
pub open spec fn texts(strings: Seq<String>) -> Seq<Seq<char>> {
    strings.map_values(|s: String| s@)
}

// ---------------------------------------------------------------------------
// Character classes
// ---------------------------------------------------------------------------

/// The characters with Unicode's `White_Space` property.
pub open spec fn white(c: char) -> bool {
    let u = c as u32;
    ||| 0x09 <= u <= 0x0d
    ||| u == 0x20
    ||| u == 0x85
    ||| u == 0xa0
    ||| u == 0x1680
    ||| 0x2000 <= u <= 0x200a
    ||| u == 0x2028
    ||| u == 0x2029
    ||| u == 0x202f
    ||| u == 0x205f
    ||| u == 0x3000
}

/// Whether `c` is white space.
pub fn is_white(c: char) -> (r: bool)
    ensures
        r == white(c),
{
    let u: u32 = c as u32;
    (0x09 <= u && u <= 0x0d) || u == 0x20 || u == 0x85 || u == 0xa0 || u == 0x1680
        || (0x2000 <= u && u <= 0x200a) || u == 0x2028 || u == 0x2029 || u == 0x202f || u == 0x205f
        || u == 0x3000
}

/// The characters of Unicode's general category `Cc` (control characters).
pub open spec fn control(c: char) -> bool {
    let u = c as u32;
    u <= 0x1f || 0x7f <= u <= 0x9f
}

/// Whether `c` is a control character.
pub fn is_control(c: char) -> (r: bool)
    ensures
        r == control(c),
{
    let u: u32 = c as u32;
    u <= 0x1f || (0x7f <= u && u <= 0x9f)
}

/// An ASCII letter in lower case; every other character as it is.
pub open spec fn lower(c: char) -> char {
    if 'A' <= c <= 'Z' {
        ((c as u8) + 32) as u8 as char
    } else {
        c
    }
}

/// `c` with an ASCII upper-case letter turned into lower case.
pub fn to_lower(c: char) -> (r: char)
    ensures
        r == lower(c),
{
    if 'A' <= c && c <= 'Z' {
        ((c as u8) + 32) as char
    } else {
        c
    }
}

/// `s` with every ASCII upper-case letter turned into lower case.
pub open spec fn lowered(s: Seq<char>) -> Seq<char> {
    s.map_values(|c: char| lower(c))
}

// ---------------------------------------------------------------------------
// Comparing and searching
// ---------------------------------------------------------------------------

/// Whether two character slices hold the same characters.
pub fn same(a: &[char], b: &[char]) -> (r: bool)
    ensures
        r == (a@ == b@),
{
    if a.len() != b.len() {
        return false;
    }
    let mut i: usize = 0;
    while i < a.len()
        invariant
            i <= a@.len(),
            a@.len() == b@.len(),
            a@.take(i as int) == b@.take(i as int),
        decreases a@.len() - i,
    {
        if a[i] != b[i] {
            assert(a@[i as int] != b@[i as int]);
            return false;
        }
        assert(a@.take(i + 1) == a@.take(i as int).push(a@[i as int]));
        assert(b@.take(i + 1) == b@.take(i as int).push(b@[i as int]));
        i += 1;
    }
    assert(a@.take(a@.len() as int) == a@);
    assert(b@.take(b@.len() as int) == b@);
    true
}

/// Whether `a` holds the characters of the string `b`.
pub fn same_text(a: &[char], b: &str) -> (r: bool)
    ensures
        r == (a@ == b@),
{
    let other = chars_of(b);
    same(a, other.as_slice())
}

/// Whether `s` begins with `prefix`.
pub open spec fn starts_with(s: Seq<char>, prefix: Seq<char>) -> bool {
    prefix.len() <= s.len() && s.take(prefix.len() as int) == prefix
}

/// Whether `s` ends with `suffix`.
pub open spec fn ends_with(s: Seq<char>, suffix: Seq<char>) -> bool {
    suffix.len() <= s.len() && s.skip(s.len() - suffix.len()) == suffix
}

/// Whether `part` occurs in `s` at position `i`.
pub open spec fn occurs_at(s: Seq<char>, part: Seq<char>, i: int) -> bool {
    0 <= i && i + part.len() <= s.len() && s.subrange(i, i + part.len()) == part
}

/// Whether `part` occurs somewhere in `s`.
pub open spec fn occurs(s: Seq<char>, part: Seq<char>) -> bool {
    exists|i: int| occurs_at(s, part, i)
}

/// What occurs in a part of a text occurs in the text.
pub proof fn lemma_occurs_within(s: Seq<char>, part: Seq<char>, piece: Seq<char>)
    requires
        occurs(s, part),
        occurs(part, piece),
    ensures
        occurs(s, piece),
{
    let i = choose|i: int| occurs_at(s, part, i);
    let j = choose|j: int| occurs_at(part, piece, j);
    assert(s.subrange(i + j, i + j + piece.len()) =~= s.subrange(i, i + part.len()).subrange(
        j,
        j + piece.len(),
    ));
    assert(occurs_at(s, piece, i + j));
}

/// Whether `s` begins with the characters of `prefix`.
pub fn has_prefix(s: &[char], prefix: &str) -> (r: bool)
    ensures
        r == starts_with(s@, prefix@),
{
    let p = chars_of(prefix);
    if p.len() > s.len() {
        return false;
    }
    same(slice_subrange(s, 0, p.len()), p.as_slice())
}

/// Whether `s` ends with `suffix`.
pub fn has_suffix(s: &[char], suffix: &[char]) -> (r: bool)
    ensures
        r == ends_with(s@, suffix@),
{
    if suffix.len() > s.len() {
        return false;
    }
    assert(s@.skip(s@.len() - suffix@.len()) == s@.subrange(
        s@.len() - suffix@.len(),
        s@.len() as int,
    ));
    same(slice_subrange(s, s.len() - suffix.len(), s.len()), suffix)
}

/// Whether `part` occurs in `s`.
pub fn has_part(s: &[char], part: &[char]) -> (r: bool)
    ensures
        r == occurs(s@, part@),
{
    if part.len() > s.len() {
        return false;
    }
    let whole = s.len();
    let last = whole - part.len();
    let mut i: usize = 0;
    loop
        invariant
            whole == s@.len(),
            part@.len() <= s@.len(),
            last == s@.len() - part@.len(),
            i <= last,
            forall|j: int| 0 <= j < i ==> !occurs_at(s@, part@, j),
        decreases last - i,
    {
        if same(slice_subrange(s, i, i + part.len()), part) {
            assert(occurs_at(s@, part@, i as int));
            return true;
        }
        if i == last {
            return false;
        }
        i += 1;
    }
}

/// The position of the first `c` in `s`, or the length of `s` if there is none.
pub open spec fn find(s: Seq<char>, c: char) -> nat
    decreases s.len(),
{
    if s.len() == 0 || s[0] == c {
        0
    } else {
        1 + find(s.skip(1), c)
    }
}

/// `find` is the one position with no `c` before it and either `c` or the end at it.
pub proof fn lemma_find(s: Seq<char>, c: char)
    ensures
        find(s, c) <= s.len(),
        forall|i: int| 0 <= i < find(s, c) ==> s[i] != c,
        find(s, c) < s.len() ==> s[find(s, c) as int] == c,
    decreases s.len(),
{
    if s.len() > 0 && s[0] != c {
        let t = s.skip(1);
        lemma_find(t, c);
        assert forall|i: int| 0 <= i < find(s, c) implies s[i] != c by {
            if i > 0 {
                assert(s[i] == t[i - 1]);
            }
        }
    }
}

/// The position of the first `c` in `s`, or the length of `s` if there is none.
pub fn find_char(s: &[char], c: char) -> (n: usize)
    ensures
        n == find(s@, c),
{
    let mut i: usize = 0;
    while i < s.len() && s[i] != c
        invariant
            i <= s@.len(),
            forall|j: int| 0 <= j < i ==> s@[j] != c,
        decreases s@.len() - i,
    {
        i += 1;
    }
    proof {
        lemma_find(s@, c);
    }
    i
}

/// What follows the last `c` in `s`; all of `s` if there is no `c`.
pub open spec fn after_last(s: Seq<char>, c: char) -> Seq<char>
    decreases s.len(),
{
    if s.len() == 0 || s.last() == c {
        Seq::empty()
    } else {
        after_last(s.drop_last(), c).push(s.last())
    }
}

/// The part of `s` after the last `c`; all of `s` if there is no `c`.
pub fn rest_after_last(s: &[char], c: char) -> (r: &[char])
    ensures
        r@ == after_last(s@, c),
{
    let mut i: usize = s.len();
    assert(s@.take(s@.len() as int) == s@);
    while i > 0 && s[i - 1] != c
        invariant
            i <= s@.len(),
            after_last(s@, c) == after_last(s@.take(i as int), c) + s@.skip(i as int),
        decreases i,
    {
        assert(s@.take(i as int).drop_last() == s@.take(i - 1));
        assert(s@.skip(i - 1) == seq![s@[i - 1]] + s@.skip(i as int));
        i -= 1;
    }
    assert(s@.subrange(i as int, s@.len() as int) == s@.skip(i as int));
    slice_subrange(s, i, s.len())
}

// ---------------------------------------------------------------------------
// White space: trimming and words
// ---------------------------------------------------------------------------

/// The length of the longest prefix of `s` that is all white space (`blank`) or
/// free of white space (`!blank`).
pub open spec fn run(s: Seq<char>, blank: bool) -> nat
    decreases s.len(),
{
    if s.len() == 0 || white(s[0]) != blank {
        0
    } else {
        1 + run(s.skip(1), blank)
    }
}

/// `run` stops at the first character of the other kind, or at the end.
pub proof fn lemma_run(s: Seq<char>, blank: bool)
    ensures
        run(s, blank) <= s.len(),
        forall|i: int| 0 <= i < run(s, blank) ==> white(#[trigger] s[i]) == blank,
        run(s, blank) < s.len() ==> white(s[run(s, blank) as int]) != blank,
    decreases s.len(),
{
    if s.len() > 0 && white(s[0]) == blank {
        let t = s.skip(1);
        lemma_run(t, blank);
        assert forall|i: int| 0 <= i < run(s, blank) implies white(#[trigger] s[i]) == blank by {
            if i > 0 {
                assert(s[i] == t[i - 1]);
            }
        }
    }
}

/// `s` without the white space at its beginning.
pub open spec fn trim_start(s: Seq<char>) -> Seq<char> {
    s.skip(run(s, true) as int)
}

/// `s` without the white space at its end.
pub open spec fn trim_end(s: Seq<char>) -> Seq<char>
    decreases s.len(),
{
    if s.len() > 0 && white(s.last()) {
        trim_end(s.drop_last())
    } else {
        s
    }
}

/// `s` without the white space at either end.
pub open spec fn trim(s: Seq<char>) -> Seq<char> {
    trim_end(trim_start(s))
}

/// The length of the run of white space (or of other characters) that `s`
/// begins with, counted from position `from`.
fn run_from(s: &[char], from: usize, blank: bool) -> (n: usize)
    requires
        from <= s@.len(),
    ensures
        n == run(s@.skip(from as int), blank),
        from + n <= s@.len(),
{
    let mut i: usize = from;
    let ghost t = s@.skip(from as int);
    while i < s.len() && is_white(s[i]) == blank
        invariant
            from <= i <= s@.len(),
            t == s@.skip(from as int),
            forall|j: int| 0 <= j < i - from ==> white(#[trigger] t[j]) == blank,
        decreases s@.len() - i,
    {
        assert(t[i - from] == s@[i as int]);
        i += 1;
    }
    proof {
        lemma_run(t, blank);
        if i < s@.len() {
            assert(t[i - from] == s@[i as int]);
        }
        if run(t, blank) < i - from {
            assert(white(t[run(t, blank) as int]) != blank);
        }
        if i - from < run(t, blank) {
            assert(white(t[i - from]) == blank);
        }
    }
    i - from
}

/// `s` without the white space at its end.
pub fn trimmed_end(s: &[char]) -> (r: &[char])
    ensures
        r@ == trim_end(s@),
{
    let mut end: usize = s.len();
    assert(s@.take(s@.len() as int) == s@);
    while end > 0 && is_white(s[end - 1])
        invariant
            end <= s@.len(),
            trim_end(s@) == trim_end(s@.take(end as int)),
        decreases end,
    {
        assert(s@.take(end as int).last() == s@[end - 1]);
        assert(s@.take(end as int).drop_last() == s@.take(end - 1));
        end -= 1;
    }
    proof {
        if end > 0 {
            assert(s@.take(end as int).last() == s@[end - 1]);
        }
        assert(s@.subrange(0, end as int) == s@.take(end as int));
    }
    slice_subrange(s, 0, end)
}

/// `s` without the white space at either end.
pub fn trimmed(s: &[char]) -> (r: &[char])
    ensures
        r@ == trim(s@),
{
    assert(s@.skip(0) == s@);
    let start = run_from(s, 0, true);
    assert(s@.subrange(start as int, s@.len() as int) == s@.skip(start as int));
    trimmed_end(slice_subrange(s, start, s.len()))
}

/// What has no white space at either end is left as it is by `trim`.
pub proof fn lemma_trim(s: Seq<char>)
    requires
        s.len() > 0,
        !white(s[0]),
        !white(s.last()),
    ensures
        trim(s) == s,
{
    assert(run(s, true) == 0);
    assert(trim_start(s) =~= s);
}

/// The maximal stretches of `s` without white space, in order.
pub open spec fn words(s: Seq<char>) -> Seq<Seq<char>>
    decreases s.len(),
{
    let t = trim_start(s);
    if t.len() == 0 {
        Seq::empty()
    } else {
        proof {
            lemma_run(s, true);
            lemma_run(t, false);
            assert(run(t, false) > 0);
        }
        let n = run(t, false) as int;
        seq![t.take(n)] + words(t.skip(n))
    }
}

/// The character sequences that a list of slices holds.
pub open spec fn views(parts: Seq<&[char]>) -> Seq<Seq<char>> {
    parts.map_values(|p: &[char]| p@)
}

/// The words of `s`: what stands between its white space.
pub fn split_words(s: &[char]) -> (out: Vec<&[char]>)
    ensures
        views(out@) == words(s@),
{
    let mut out: Vec<&[char]> = Vec::new();
    let mut at: usize = 0;
    assert(s@.skip(0) == s@);
    assert(views(out@) + words(s@.skip(0)) == words(s@));
    while at < s.len()
        invariant
            at <= s@.len(),
            views(out@) + words(s@.skip(at as int)) == words(s@),
        decreases s@.len() - at,
    {
        let ghost rest = s@.skip(at as int);
        let ghost before = views(out@);
        let blanks = run_from(s, at, true);
        let start = at + blanks;
        proof {
            lemma_run(rest, true);
            assert(trim_start(rest) == s@.skip(start as int));
        }
        if start >= s.len() {
            assert(words(rest) == Seq::<Seq<char>>::empty());
            assert(before + words(rest) == before);
            return out;
        }
        let n = run_from(s, start, false);
        let word = slice_subrange(s, start, start + n);
        proof {
            let t = s@.skip(start as int);
            lemma_run(t, false);
            assert(t.take(n as int) == word@);
            assert(t.skip(n as int) == s@.skip(start + n));
            assert(words(rest) == seq![word@] + words(s@.skip(start + n)));
        }
        out.push(word);
        proof {
            assert(views(out@) == before.push(word@));
            assert(before + (seq![word@] + words(s@.skip(start + n))) == before.push(word@) + words(
                s@.skip(start + n),
            ));
        }
        at = start + n;
    }
    assert(s@.skip(at as int) == Seq::<char>::empty());
    assert(words(Seq::<char>::empty()) == Seq::<Seq<char>>::empty());
    assert(views(out@) + Seq::<Seq<char>>::empty() == views(out@));
    out
}

// ---------------------------------------------------------------------------
// Lines
// ---------------------------------------------------------------------------

/// `s` without one carriage return at its end, if it has one.
pub open spec fn drop_cr(s: Seq<char>) -> Seq<char> {
    if s.len() > 0 && s.last() == '\r' {
        s.drop_last()
    } else {
        s
    }
}

/// The lines of `s`. A line ends with a line feed or with a carriage return and a
/// line feed; the line end of the last line may be missing.
pub open spec fn lines(s: Seq<char>) -> Seq<Seq<char>>
    decreases s.len(),
{
    let n = find(s, '\n') as int;
    if s.len() == 0 {
        Seq::empty()
    } else if n >= s.len() {
        seq![s]
    } else {
        seq![drop_cr(s.take(n))] + lines(s.skip(n + 1))
    }
}

/// The lines of `s`, without their line ends.
pub fn split_lines(s: &[char]) -> (out: Vec<&[char]>)
    ensures
        views(out@) == lines(s@),
{
    let mut out: Vec<&[char]> = Vec::new();
    let mut at: usize = 0;
    assert(s@.skip(0) == s@);
    assert(views(out@) + lines(s@.skip(0)) == lines(s@));
    while at < s.len()
        invariant
            at <= s@.len(),
            views(out@) + lines(s@.skip(at as int)) == lines(s@),
        decreases s@.len() - at,
    {
        let ghost rest = s@.skip(at as int);
        let ghost before = views(out@);
        let tail = slice_subrange(s, at, s.len());
        assert(tail@ == rest);
        let n = find_char(tail, '\n');
        proof {
            lemma_find(rest, '\n');
        }
        if n >= tail.len() {
            out.push(tail);
            assert(views(out@) == before.push(rest));
            assert(before + seq![rest] == before.push(rest));
            return out;
        }
        let end = if n > 0 && tail[n - 1] == '\r' {
            n - 1
        } else {
            n
        };
        let line = slice_subrange(tail, 0, end);
        proof {
            assert(rest.take(n as int).len() == n);
            if n > 0 {
                assert(rest.take(n as int).last() == rest[n - 1]);
            }
            assert(line@ == drop_cr(rest.take(n as int)));
            assert(rest.skip(n + 1) == s@.skip(at + n + 1));
        }
        out.push(line);
        proof {
            assert(views(out@) == before.push(line@));
            assert(before + (seq![line@] + lines(s@.skip(at + n + 1))) == before.push(line@)
                + lines(s@.skip(at + n + 1)));
        }
        at = at + n + 1;
    }
    assert(s@.skip(at as int) == Seq::<char>::empty());
    assert(views(out@) + Seq::<Seq<char>>::empty() == views(out@));
    out
}

// ---------------------------------------------------------------------------
// Joining
// ---------------------------------------------------------------------------

/// The parts in order, with `sep` between each two.
pub open spec fn join(parts: Seq<Seq<char>>, sep: Seq<char>) -> Seq<char>
    decreases parts.len(),
{
    if parts.len() == 0 {
        Seq::empty()
    } else if parts.len() == 1 {
        parts[0]
    } else {
        join(parts.drop_last(), sep) + sep + parts.last()
    }
}

/// The parts `from..to` of `parts`, joined by single spaces.
pub fn join_spaced(parts: &[&[char]], from: usize, to: usize) -> (out: String)
    requires
        from <= to <= parts@.len(),
    ensures
        out@ == join(views(parts@).subrange(from as int, to as int), seq![' ']),
{
    let mut out = String::new();
    let mut i: usize = from;
    let ghost all = views(parts@);
    assert(all.subrange(from as int, from as int) == Seq::<Seq<char>>::empty());
    while i < to
        invariant
            from <= i <= to <= parts@.len(),
            all == views(parts@),
            out@ == join(all.subrange(from as int, i as int), seq![' ']),
        decreases to - i,
    {
        proof {
            let next = all.subrange(from as int, i + 1);
            assert(next.drop_last() == all.subrange(from as int, i as int));
            assert(next.last() == parts@[i as int]@);
            if i == from {
                assert(Seq::<char>::empty() + parts@[i as int]@ == parts@[i as int]@);
            } else {
                assert(join(next, seq![' ']) == out@ + seq![' '] + parts@[i as int]@);
                assert(out@.push(' ') == out@ + seq![' ']);
            }
        }
        if i > from {
            out.push(' ');
        }
        out.append(text_of(parts[i]).as_str());
        i += 1;
    }
    out
}

// ---------------------------------------------------------------------------
// Numbers
// ---------------------------------------------------------------------------

/// The value of a decimal or hexadecimal digit; a value over every radix in use
/// for any other character.
pub open spec fn digit(c: char) -> nat {
    if '0' <= c <= '9' {
        (c as nat - '0' as nat) as nat
    } else if 'a' <= c <= 'f' {
        (c as nat - 'a' as nat + 10) as nat
    } else if 'A' <= c <= 'F' {
        (c as nat - 'A' as nat + 10) as nat
    } else {
        99
    }
}

/// The value of a digit character (99 for a character that is none).
pub fn digit_of(c: char) -> (d: u8)
    ensures
        d == digit(c),
{
    if '0' <= c && c <= '9' {
        (c as u8) - ('0' as u8)
    } else if 'a' <= c && c <= 'f' {
        (c as u8) - ('a' as u8) + 10
    } else if 'A' <= c && c <= 'F' {
        (c as u8) - ('A' as u8) + 10
    } else {
        99
    }
}

/// Whether `s` consists of digits of the given radix.
pub open spec fn all_digits(s: Seq<char>, radix: nat) -> bool {
    forall|i: int| 0 <= i < s.len() ==> digit(#[trigger] s[i]) < radix
}

/// The number that a sequence of digits denotes, most significant first.
pub open spec fn number(s: Seq<char>, radix: nat) -> nat
    decreases s.len(),
{
    if s.len() == 0 {
        0
    } else {
        number(s.drop_last(), radix) * radix + digit(s.last())
    }
}

/// `s` without one plus sign at its beginning, if it has one.
pub open spec fn unsigned(s: Seq<char>) -> Seq<char> {
    if s.len() > 0 && s[0] == '+' {
        s.skip(1)
    } else {
        s
    }
}

/// The number that `s` denotes: one digit or more, with or without a plus sign
/// before them, and a value that is at most `max`.
pub open spec fn parse(s: Seq<char>, radix: nat, max: nat) -> Option<nat> {
    let digits = unsigned(s);
    if digits.len() > 0 && all_digits(digits, radix) && number(digits, radix) <= max {
        Some(number(digits, radix))
    } else {
        None
    }
}

/// A longer sequence of digits never denotes a smaller number.
proof fn lemma_number_grows(s: Seq<char>, radix: nat, n: int)
    requires
        0 <= n <= s.len(),
        radix >= 1,
    ensures
        number(s.take(n), radix) <= number(s, radix),
    decreases s.len() - n,
{
    if n < s.len() {
        let t = s.take(n + 1);
        assert(t.drop_last() == s.take(n));
        let a = number(s.take(n), radix);
        assert(a * radix >= a) by (nonlinear_arith)
            requires
                radix >= 1,
        ;
        lemma_number_grows(s, radix, n + 1);
    } else {
        assert(s.take(n) == s);
    }
}

/// The number that `s` denotes in the given radix, if it denotes one up to `max`.
pub fn parse_number(s: &[char], radix: u8, max: u64) -> (r: Option<u64>)
    requires
        radix == 10 || radix == 16,
    ensures
        r is Some <==> parse(s@, radix as nat, max as nat) is Some,
        r is Some ==> r->0 as nat == parse(s@, radix as nat, max as nat)->0,
{
    let digits = if s.len() > 0 && s[0] == '+' {
        assert(s@.subrange(1, s@.len() as int) == s@.skip(1));
        slice_subrange(s, 1, s.len())
    } else {
        s
    };
    assert(digits@ == unsigned(s@));
    if digits.len() == 0 {
        return None;
    }
    let mut acc: u128 = 0;
    let mut i: usize = 0;
    while i < digits.len()
        invariant
            radix == 10 || radix == 16,
            i <= digits@.len(),
            digits@ == unsigned(s@),
            all_digits(digits@.take(i as int), radix as nat),
            acc == number(digits@.take(i as int), radix as nat),
            acc <= max,
        decreases digits@.len() - i,
    {
        let d = digit_of(digits[i]);
        if d >= radix {
            assert(!all_digits(digits@, radix as nat));
            return None;
        }
        proof {
            let t = digits@.take(i + 1);
            assert(t.drop_last() == digits@.take(i as int));
            assert(t.last() == digits@[i as int]);
            assert(all_digits(t, radix as nat)) by {
                assert forall|j: int| 0 <= j < t.len() implies digit(#[trigger] t[j])
                    < radix as nat by {
                    if j < i {
                        assert(t[j] == digits@.take(i as int)[j]);
                    }
                }
            }
            assert(acc * radix + d <= 0x1_0000_0000_0000_0000 * 16 + 16) by (nonlinear_arith)
                requires
                    acc <= 0x1_0000_0000_0000_0000,
                    radix <= 16,
                    d <= 16,
            ;
        }
        acc = acc * (radix as u128) + (d as u128);
        if acc > max as u128 {
            proof {
                lemma_number_grows(digits@, radix as nat, i + 1);
            }
            return None;
        }
        i += 1;
    }
    assert(digits@.take(digits@.len() as int) == digits@);
    Some(acc as u64)
}

/// The decimal digits of `n`, without leading zeros.
pub open spec fn dec(n: nat) -> Seq<char>
    decreases n,
{
    if n < 10 {
        seq![digit_char(n)]
    } else {
        dec(n / 10).push(digit_char(n % 10))
    }
}

/// The character of a decimal digit.
pub open spec fn digit_char(d: nat) -> char {
    ('0' as u8 + d) as u8 as char
}

/// `n` in decimal.
pub fn decimal(n: u64) -> (out: String)
    ensures
        out@ == dec(n as nat),
    decreases n,
{
    let last: char = (('0' as u8) + ((n % 10) as u8)) as char;
    if n < 10 {
        let mut out = String::new();
        out.push(last);
        assert(out@ == seq![digit_char(n as nat)]);
        out
    } else {
        let mut out = decimal(n / 10);
        out.push(last);
        out
    }
}

/// Reading back what was written in decimal gives the same number.
pub proof fn law_decimal_round_trip(n: nat, max: nat)
    requires
        n <= max,
    ensures
        parse(dec(n), 10, max) == Some(n),
{
    lemma_dec(n);
}

/// `dec` writes digits that denote the number written.
pub proof fn lemma_dec(n: nat)
    ensures
        dec(n).len() > 0,
        all_digits(dec(n), 10),
        number(dec(n), 10) == n,
        dec(n)[0] != '+',
    decreases n,
{
    if n < 10 {
        let d = dec(n);
        assert(d.drop_last() == Seq::<char>::empty());
        assert(d.last() == digit_char(n));
        assert(number(d, 10) == n) by {
            reveal_with_fuel(number, 2);
        }
    } else {
        lemma_dec(n / 10);
        let d = dec(n);
        let front = dec(n / 10);
        assert(d.drop_last() == front);
        assert forall|i: int| 0 <= i < d.len() implies digit(#[trigger] d[i]) < 10 by {
            if i < front.len() {
                assert(d[i] == front[i]);
            }
        }
        assert(d[0] == front[0]);
    }
}

} // verus!
