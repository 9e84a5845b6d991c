//! What holds of characters, words, lines and numbers.

use vstd::prelude::*;
use vstd::utf8::{encode_utf8, encode_utf8_decode_utf8, encode_utf8_valid_utf8};

use crate::text::{
    after_last, all_digits, control, dec, decoded, digit, ends_with, find, join, lemma_dec,
    lemma_find, lemma_run, lines, lower, number, occurs, occurs_at, parse, run, starts_with, trim,
    trim_end, trim_start, white, words,
};

verus! {

// ---------------------------------------------------------------------------
// Characters
// ---------------------------------------------------------------------------

/// Which characters are white space.
pub proof fn law_white(c: char)
    ensures
        white(c) <==> {
            ||| c == ' '
            ||| '\t' <= c <= '\r'
            ||| c == '\u{85}'
            ||| c == '\u{a0}'
            ||| c == '\u{1680}'
            ||| '\u{2000}' <= c <= '\u{200a}'
            ||| c == '\u{2028}'
            ||| c == '\u{2029}'
            ||| c == '\u{202f}'
            ||| c == '\u{205f}'
            ||| c == '\u{3000}'
        },
{
}

/// Which characters are control characters: those before the space, and those from
/// delete up to the last before the no-break space.
pub proof fn law_control(c: char)
    ensures
        control(c) <==> c < ' ' || ('~' < c && c < '\u{a0}'),
{
}

/// Two characters are the same in lower case exactly when they are the same, or the
/// two cases of one ASCII letter.
pub proof fn law_lower(a: char, b: char)
    ensures
        lower(a) == lower(b) <==> {
            ||| a == b
            ||| 'A' <= a <= 'Z' && b as int == a as int + 32
            ||| 'A' <= b <= 'Z' && a as int == b as int + 32
        },
        !('A' <= lower(a) <= 'Z'),
{
}

/// A part of a text occurs in it.
pub proof fn law_part_occurs(before: Seq<char>, part: Seq<char>, after: Seq<char>)
    ensures
        occurs(before + part + after, part),
{
    let all = before + part + after;
    let at = before.len() as int;
    assert(all.subrange(at, at + part.len()) =~= part);
    assert(occurs_at(all, part, at));
}

/// What a text begins and ends with.
pub proof fn law_beginnings_and_ends(a: Seq<char>, b: Seq<char>, s: Seq<char>)
    ensures
        starts_with(a + b, a),
        ends_with(a + b, b),
        starts_with(s, a) ==> s == a + s.skip(a.len() as int),
        ends_with(s, b) ==> b.len() <= s.len() && s == s.take(s.len() - b.len()) + b,
{
    assert((a + b).take(a.len() as int) =~= a);
    assert((a + b).skip((a + b).len() - b.len()) =~= b);
    if starts_with(s, a) {
        assert(s =~= s.take(a.len() as int) + s.skip(a.len() as int));
    }
    if ends_with(s, b) {
        assert(s =~= s.take(s.len() - b.len()) + s.skip(s.len() - b.len()));
    }
}

/// What occurs in a text parts it in two.
pub proof fn law_occurs_between(s: Seq<char>, part: Seq<char>)
    requires
        occurs(s, part),
    ensures
        exists|before: Seq<char>, after: Seq<char>| s == #[trigger] (before + part + after),
{
    let i = choose|i: int| occurs_at(s, part, i);
    let before = s.take(i);
    let after = s.skip(i + part.len());
    assert(s =~= before + s.subrange(i, i + part.len()) + after);
    assert(s == before + part + after);
}

/// A text that was encoded as UTF-8 is read back.
pub proof fn law_decoded(s: Seq<char>)
    ensures
        decoded(encode_utf8(s)) == s,
{
    encode_utf8_valid_utf8(s);
    encode_utf8_decode_utf8(s);
}

// ---------------------------------------------------------------------------
// White space
// ---------------------------------------------------------------------------

/// Whether all of the text is white space.
pub open spec fn is_blank(s: Seq<char>) -> bool {
    forall|i: int| 0 <= i < s.len() ==> white(#[trigger] s[i])
}

/// Whether the text is a word: not empty, and without white space.
pub open spec fn is_word(s: Seq<char>) -> bool {
    s.len() > 0 && forall|i: int| 0 <= i < s.len() ==> !white(#[trigger] s[i])
}

/// A stretch of one kind ends where the other kind begins, or at the end.
proof fn lemma_run_is(s: Seq<char>, blank: bool, n: int)
    requires
        0 <= n <= s.len(),
        forall|i: int| 0 <= i < n ==> white(#[trigger] s[i]) == blank,
        n < s.len() ==> white(s[n]) != blank,
    ensures
        run(s, blank) == n,
{
    lemma_run(s, blank);
    let m = run(s, blank) as int;
    if m < n {
        assert(white(s[m]) == blank);
    } else if n < m {
        assert(white(s[n]) == blank);
    }
}

/// White space around a text does not count, and nothing else is trimmed.
pub proof fn law_trim(before: Seq<char>, s: Seq<char>, after: Seq<char>)
    requires
        is_blank(before),
        is_blank(after),
        s.len() > 0 ==> !white(s[0]) && !white(s.last()),
    ensures
        trim(before + s + after) == s,
    decreases after.len(),
{
    let all = before + s + after;
    if s.len() == 0 {
        assert forall|i: int| 0 <= i < all.len() implies white(#[trigger] all[i]) == true by {
            if i < before.len() {
                assert(all[i] == before[i]);
            } else {
                assert(all[i] == after[i - before.len()]);
            }
        }
        lemma_run_is(all, true, all.len() as int);
        assert(trim_start(all).len() == 0);
        assert(trim(all) =~= s);
    } else {
        let n = before.len() as int;
        assert forall|i: int| 0 <= i < n implies white(#[trigger] all[i]) == true by {
            assert(all[i] == before[i]);
        }
        assert(all[n] == s[0]);
        lemma_run_is(all, true, n);
        assert(trim_start(all) =~= s + after);
        lemma_trim_end(s, after);
    }
}

proof fn lemma_trim_end(s: Seq<char>, after: Seq<char>)
    requires
        is_blank(after),
        s.len() > 0,
        !white(s.last()),
    ensures
        trim_end(s + after) == s,
    decreases after.len(),
{
    let all = s + after;
    if after.len() == 0 {
        assert(all =~= s);
    } else {
        let front = after.drop_last();
        assert(all.last() == after[after.len() - 1]);
        assert(all.drop_last() =~= s + front);
        assert forall|i: int| 0 <= i < front.len() implies white(#[trigger] front[i]) by {
            assert(front[i] == after[i]);
        }
        lemma_trim_end(s, front);
    }
}

/// What is trimmed begins and ends without white space.
pub proof fn law_trimmed_ends(s: Seq<char>)
    ensures
        trim(s).len() > 0 ==> !white(trim(s)[0]) && !white(trim(s).last()),
        trim(s).len() == 0 ==> is_blank(s),
{
    lemma_run(s, true);
    let t = trim_start(s);
    lemma_trim_end_prefix(t);
    if t.len() > 0 {
        assert(t[0] == s[run(s, true) as int]);
        if trim_end(t).len() == 0 {
            assert(white(t[0]));
        }
    }
    if trim(s).len() == 0 {
        assert(t.len() == 0);
        assert(run(s, true) == s.len());
    }
}

proof fn lemma_trim_end_prefix(s: Seq<char>)
    ensures
        trim_end(s).len() <= s.len(),
        trim_end(s) == s.take(trim_end(s).len() as int),
        trim_end(s).len() > 0 ==> !white(trim_end(s).last()),
        forall|i: int| trim_end(s).len() <= i < s.len() ==> white(#[trigger] s[i]),
    decreases s.len(),
{
    if s.len() > 0 && white(s.last()) {
        let front = s.drop_last();
        lemma_trim_end_prefix(front);
        assert(front.take(trim_end(s).len() as int) =~= s.take(trim_end(s).len() as int));
        assert forall|i: int| trim_end(s).len() <= i < s.len() implies white(#[trigger] s[i]) by {
            if i < front.len() {
                assert(front[i] == s[i]);
            }
        }
    } else {
        assert(s.take(s.len() as int) =~= s);
    }
}

/// A text that is all white space has no words, and a word is its own only one.
pub proof fn law_single_words(blank: Seq<char>, word: Seq<char>)
    requires
        is_blank(blank),
        is_word(word),
    ensures
        words(blank) == Seq::<Seq<char>>::empty(),
        words(word) == seq![word],
{
    lemma_run_is(blank, true, blank.len() as int);
    assert(trim_start(blank).len() == 0);
    lemma_run_is(word, true, 0);
    assert(trim_start(word) =~= word);
    lemma_run_is(word, false, word.len() as int);
    assert(word.take(word.len() as int) =~= word);
    let rest = word.skip(word.len() as int);
    lemma_run_is(rest, true, 0);
    assert(trim_start(rest).len() == 0);
    assert(words(rest) =~= Seq::<Seq<char>>::empty());
    assert(words(word) =~= seq![word]);
}

/// The words of two texts that white space parts are the words of the one and the words
/// of the other.
pub proof fn law_words_of_both(a: Seq<char>, b: Seq<char>)
    requires
        a.len() == 0 || b.len() == 0 || white(a.last()) || white(b[0]),
    ensures
        words(a + b) == words(a) + words(b),
    decreases a.len(),
{
    let all = a + b;
    let blanks = run(a, true) as int;
    lemma_run(a, true);
    lemma_run(b, true);
    let t = trim_start(a);
    if t.len() == 0 {
        let m = run(b, true) as int;
        assert forall|i: int| 0 <= i < a.len() + m implies white(#[trigger] all[i]) == true by {
            if i < a.len() {
                assert(all[i] == a[i]);
            } else {
                assert(all[i] == b[i - a.len()]);
            }
        }
        if a.len() + m < all.len() {
            assert(all[a.len() + m] == b[m]);
        }
        lemma_run_is(all, true, a.len() + m);
        assert(trim_start(all) =~= trim_start(b));
        assert(words(a) =~= Seq::<Seq<char>>::empty());
        assert(words(all) =~= words(b));
        assert(words(a) + words(b) =~= words(b));
    } else {
        assert forall|i: int| 0 <= i < blanks implies white(#[trigger] all[i]) == true by {
            assert(all[i] == a[i]);
        }
        assert(all[blanks] == a[blanks]);
        lemma_run_is(all, true, blanks);
        assert(trim_start(all) =~= t + b);
        let n = run(t, false) as int;
        lemma_run(t, false);
        let both = t + b;
        assert forall|i: int| 0 <= i < n implies white(#[trigger] both[i]) == false by {
            assert(both[i] == t[i]);
        }
        if n < t.len() {
            assert(both[n] == t[n]);
        } else if b.len() > 0 {
            assert(t.last() == a.last());
            assert(!white(t[n - 1]));
            assert(both[n] == b[0]);
        }
        lemma_run_is(both, false, n);
        assert(both.take(n) =~= t.take(n));
        let rest = t.skip(n);
        assert(both.skip(n) =~= rest + b);
        if rest.len() > 0 {
            assert(rest.last() == a.last());
        }
        assert(n > 0) by {
            assert(t[0] == a[blanks]);
        }
        law_words_of_both(rest, b);
        assert(words(a) == seq![t.take(n)] + words(rest));
        assert(words(all) == seq![t.take(n)] + words(rest + b));
        assert(words(all) =~= words(a) + words(b));
    }
}

/// Words joined by spaces read back.
pub proof fn law_words_read_back(ws: Seq<Seq<char>>)
    requires
        forall|i: int| 0 <= i < ws.len() ==> is_word(#[trigger] ws[i]),
    ensures
        words(join(ws, seq![' '])) == ws,
    decreases ws.len(),
{
    let space = seq![' '];
    assert(is_blank(space));
    if ws.len() == 0 {
        assert(trim_start(Seq::<char>::empty()).len() == 0);
        assert(words(join(ws, space)) =~= ws);
    } else if ws.len() == 1 {
        law_single_words(space, ws[0]);
        assert(seq![ws[0]] =~= ws);
    } else {
        let front = ws.drop_last();
        assert forall|i: int| 0 <= i < front.len() implies is_word(#[trigger] front[i]) by {
            assert(front[i] == ws[i]);
        }
        law_words_read_back(front);
        let head = join(front, space);
        let last = ws[ws.len() - 1];
        law_single_words(space, last);
        law_words_of_both(head, space);
        law_words_of_both(head + space, last);
        assert(words(head + space) =~= front);
        assert(front + seq![last] =~= ws);
    }
}

/// How texts are joined.
pub proof fn law_join(parts: Seq<Seq<char>>, last: Seq<char>, sep: Seq<char>)
    ensures
        join(Seq::empty(), sep) == Seq::<char>::empty(),
        join(seq![last], sep) == last,
        parts.len() > 0 ==> join(parts.push(last), sep) == join(parts, sep) + sep + last,
{
    assert(parts.push(last).drop_last() =~= parts);
}

// ---------------------------------------------------------------------------
// Lines
// ---------------------------------------------------------------------------

/// Whether the text has no line feed.
pub open spec fn is_line(s: Seq<char>) -> bool {
    forall|i: int| 0 <= i < s.len() ==> s[i] != '\n'
}

proof fn lemma_find_is(s: Seq<char>, c: char, n: int)
    requires
        0 <= n <= s.len(),
        forall|i: int| 0 <= i < n ==> s[i] != c,
        n < s.len() ==> s[n] == c,
    ensures
        find(s, c) == n,
{
    lemma_find(s, c);
    let m = find(s, c) as int;
    if m < n {
        assert(s[m] == c);
    } else if n < m {
        assert(s[n] != c);
    }
}

/// A line is followed by the lines of what stands after its end, be that a line feed or
/// a carriage return and a line feed.
pub proof fn law_lines(line: Seq<char>, rest: Seq<char>)
    requires
        is_line(line),
    ensures
        lines(line + seq!['\r', '\n'] + rest) == seq![line] + lines(rest),
        line.len() == 0 || line.last() != '\r' ==> lines(line + seq!['\n'] + rest) == seq![line]
            + lines(rest),
        line.len() > 0 ==> lines(line) == seq![line],
        lines(Seq::empty()) == Seq::<Seq<char>>::empty(),
{
    let n = line.len() as int;
    let with_cr = line + seq!['\r', '\n'] + rest;
    assert forall|i: int| 0 <= i < n + 1 implies with_cr[i] != '\n' by {
        if i < n {
            assert(with_cr[i] == line[i]);
        }
    }
    lemma_find_is(with_cr, '\n', n + 1);
    assert(with_cr.take(n + 1) =~= line.push('\r'));
    assert(line.push('\r').drop_last() =~= line);
    assert(with_cr.skip(n + 2) =~= rest);
    let without = line + seq!['\n'] + rest;
    assert forall|i: int| 0 <= i < n implies without[i] != '\n' by {
        assert(without[i] == line[i]);
    }
    lemma_find_is(without, '\n', n);
    assert(without.take(n) =~= line);
    assert(without.skip(n + 1) =~= rest);
    if n > 0 {
        lemma_find_is(line, '\n', n);
    }
}

// ---------------------------------------------------------------------------
// Numbers
// ---------------------------------------------------------------------------

/// A digit and its value, in either case.
pub proof fn law_digit(c: char)
    ensures
        '0' <= c <= '9' ==> digit(c) == c as int - '0' as int,
        'a' <= c <= 'f' ==> digit(c) == c as int - 'a' as int + 10,
        'A' <= c <= 'F' ==> digit(c) == c as int - 'A' as int + 10,
        !('0' <= c <= '9') && !('a' <= c <= 'f') && !('A' <= c <= 'F') ==> digit(c) >= 16,
{
}

/// One more digit at the end multiplies by the radix and adds its value.
pub proof fn law_number(digits: Seq<char>, last: char, radix: nat)
    ensures
        number(Seq::empty(), radix) == 0,
        number(digits.push(last), radix) == number(digits, radix) * radix + digit(last),
{
    assert(digits.push(last).drop_last() =~= digits);
}

/// How a number is written: without leading zeros, most significant digit first.
pub proof fn law_decimal_digits(n: nat, d: nat)
    requires
        d < 10,
    ensures
        dec(d).len() == 1 && dec(d)[0] as int == '0' as int + d,
        n > 0 ==> dec(10 * n + d) == dec(n) + dec(d),
{
    if n > 0 {
        assert((10 * n + d) / 10 == n);
        assert((10 * n + d) % 10 == d);
        assert(dec(10 * n + d) =~= dec(n) + dec(d));
    }
}

/// Two numbers that are written alike are the same.
pub proof fn law_decimal_is_injective(a: nat, b: nat)
    requires
        dec(a) == dec(b),
    ensures
        a == b,
{
    lemma_dec(a);
    lemma_dec(b);
}

/// Zeros before a number do not count.
proof fn lemma_leading_zero(digits: Seq<char>, radix: nat)
    ensures
        number(seq!['0'] + digits, radix) == number(digits, radix),
    decreases digits.len(),
{
    let all = seq!['0'] + digits;
    if digits.len() == 0 {
        assert(all.drop_last() =~= Seq::<char>::empty());
        reveal_with_fuel(number, 2);
        assert(number(Seq::<char>::empty(), radix) * radix == 0) by (nonlinear_arith)
            requires
                number(Seq::<char>::empty(), radix) == 0,
        ;
    } else {
        assert(all.drop_last() =~= seq!['0'] + digits.drop_last());
        assert(all.last() == digits.last());
        lemma_leading_zero(digits.drop_last(), radix);
    }
}

/// What is read as a number: digits, one at least, with or without a plus sign before
/// them, of any number of zeros; and nothing over the greatest that is asked for.
pub proof fn law_parse(digits: Seq<char>, n: nat, max: nat, radix: nat)
    requires
        radix == 10 || radix == 16,
    ensures
        parse(dec(n), 10, max) == if n <= max {
            Some(n)
        } else {
            None
        },
        digits.len() > 0 && all_digits(digits, radix) ==> {
            &&& parse(seq!['+'] + digits, radix, max) == parse(digits, radix, max)
            &&& parse(seq!['0'] + digits, radix, max) == parse(digits, radix, max)
            &&& parse(digits, radix, max) is Some <==> number(digits, radix) <= max
        },
        parse(Seq::empty(), radix, max) is None,
        parse(seq!['+'], radix, max) is None,
{
    lemma_dec(n);
    if digits.len() > 0 && all_digits(digits, radix) {
        assert(digit(digits[0]) < radix);
        assert((seq!['+'] + digits).skip(1) =~= digits);
        let zeroed = seq!['0'] + digits;
        assert forall|i: int| 0 <= i < zeroed.len() implies digit(#[trigger] zeroed[i]) < radix by {
            if i > 0 {
                assert(zeroed[i] == digits[i - 1]);
            }
        }
        lemma_leading_zero(digits, radix);
    }
    assert(seq!['+'].skip(1).len() == 0);
}

/// What is no digit, other than a plus sign at the beginning, makes it no number.
pub proof fn law_parse_refuses(s: Seq<char>, i: int, radix: nat, max: nat)
    requires
        0 <= i < s.len(),
        digit(s[i]) >= radix,
        i > 0 || s[0] != '+',
    ensures
        parse(s, radix, max) is None,
{
    if s[0] == '+' {
        let rest = s.skip(1);
        assert(rest[i - 1] == s[i]);
        assert(!all_digits(rest, radix));
    } else {
        assert(!all_digits(s, radix));
    }
}

/// What follows the last of a character, if it does not occur in what follows.
pub proof fn law_after_last(before: Seq<char>, c: char, after: Seq<char>)
    requires
        forall|i: int| 0 <= i < after.len() ==> after[i] != c,
    ensures
        after_last(before + seq![c] + after, c) == after,
        after_last(after, c) == after,
    decreases after.len(),
{
    let all = before + seq![c] + after;
    if after.len() == 0 {
        assert(all.last() == c);
        assert(after_last(all, c) =~= after);
    } else {
        let front = after.drop_last();
        assert forall|i: int| 0 <= i < front.len() implies front[i] != c by {
            assert(front[i] == after[i]);
        }
        law_after_last(before, c, front);
        assert(after[after.len() - 1] != c);
        assert(all.last() == after.last());
        assert(all.drop_last() =~= before + seq![c] + front);
        assert(front.push(after.last()) =~= after);
    }
}

} // verus!
