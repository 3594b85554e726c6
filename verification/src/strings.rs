//! Texts as sequences of characters: conversion, comparison, numbers in
//! base ten, and replacement of every occurrence of a pattern.

use vstd::prelude::*;

verus! {

/// Appending one character to a `String` appends it to the string's view
/// (`String::push` of the standard library).
pub assume_specification[ String::push ](s: &mut String, c: char)
    ensures
        final(s)@ == old(s)@.push(c),
;

/// The characters of `s`, in order.
pub fn chars_of(s: &str) -> (r: Vec<char>)
    ensures
        r@ == s@,
{
    let mut out: Vec<char> = Vec::new();
    for c in it: s.chars()
        invariant
            out@ == it.seq().take(it.index() as int),
            it.seq() == s@,
    {
        out.push(c);
    }
    out
}

/// The string made of the characters of `v`, in order.
pub fn string_of(v: &Vec<char>) -> (r: String)
    ensures
        r@ == v@,
{
    let mut out = String::new();
    let mut i: usize = 0;
    while i < v.len()
        invariant
            i <= v.len(),
            out@ == v@.take(i as int),
        decreases v.len() - i,
    {
        out.push(v[i]);
        i += 1;
    }
    out
}

/// Whether `a` and `b` hold the same text.
pub fn same_text(a: &str, b: &str) -> (r: bool)
    ensures
        r == (a@ == b@),
{
    String::from_str(a) == String::from_str(b)
}

/// `o`, or the empty text where there is none.
pub open spec fn or_empty(o: Option<Seq<char>>) -> Seq<char> {
    match o {
        Some(t) => t,
        None => Seq::empty(),
    }
}

/// The text that `o` holds, or the empty string where it holds none.
pub fn text_or_empty(o: Option<String>) -> (r: String)
    ensures
        r@ == or_empty(o.deep_view()),
{
    match o {
        Some(t) => t,
        None => String::new(),
    }
}

/// The character that stands for the digit `d`.
pub open spec fn digit_char(d: nat) -> char {
    if d == 0 {
        '0'
    } else if d == 1 {
        '1'
    } else if d == 2 {
        '2'
    } else if d == 3 {
        '3'
    } else if d == 4 {
        '4'
    } else if d == 5 {
        '5'
    } else if d == 6 {
        '6'
    } else if d == 7 {
        '7'
    } else if d == 8 {
        '8'
    } else {
        '9'
    }
}

/// `n` written in base ten, without leading zeros.
pub open spec fn decimal(n: nat) -> Seq<char>
    decreases n,
{
    if n < 10 {
        seq![digit_char(n)]
    } else {
        decimal(n / 10).push(digit_char(n % 10))
    }
}

fn digit(d: u64) -> (r: char)
    requires
        d < 10,
    ensures
        r == digit_char(d as nat),
{
    match d {
        0 => '0',
        1 => '1',
        2 => '2',
        3 => '3',
        4 => '4',
        5 => '5',
        6 => '6',
        7 => '7',
        8 => '8',
        _ => '9',
    }
}

fn decimal_chars(n: u64) -> (r: Vec<char>)
    ensures
        r@ == decimal(n as nat),
    decreases n,
{
    if n < 10 {
        let mut out: Vec<char> = Vec::new();
        out.push(digit(n));
        out
    } else {
        let mut out = decimal_chars(n / 10);
        out.push(digit(n % 10));
        out
    }
}

/// Writes `n` in base ten.
pub fn decimal_string(n: u64) -> (r: String)
    ensures
        r@ == decimal(n as nat),
{
    string_of(&decimal_chars(n))
}

/// Whether `pat` stands in `s` at position `at`.
pub open spec fn occurs_at(s: Seq<char>, pat: Seq<char>, at: int) -> bool {
    &&& 0 <= at
    &&& at + pat.len() <= s.len()
    &&& s.subrange(at, at + pat.len()) == pat
}

/// Whether `pat` stands somewhere in `s`.
pub open spec fn occurs_in(s: Seq<char>, pat: Seq<char>) -> bool {
    exists|i: int| occurs_at(s, pat, i)
}

/// Whether `a` and `b` have no character in common.
pub open spec fn disjoint(a: Seq<char>, b: Seq<char>) -> bool {
    forall|i: int, j: int| 0 <= i < a.len() && 0 <= j < b.len() ==> a[i] != b[j]
}

/// `s` with every occurrence of `pat` replaced by `to`. Occurrences are found
/// from the left and do not overlap; what a replacement puts in is not
/// searched again. An empty `pat` replaces nothing.
pub open spec fn replace_all(s: Seq<char>, pat: Seq<char>, to: Seq<char>) -> Seq<char>
    decreases s.len(),
{
    if pat.len() == 0 || s.len() < pat.len() {
        s
    } else if occurs_at(s, pat, 0) {
        to + replace_all(s.skip(pat.len() as int), pat, to)
    } else {
        seq![s[0]] + replace_all(s.skip(1), pat, to)
    }
}

/// Whether `pat` stands in `text` at index `at`.
fn matches_at(text: &Vec<char>, pat: &Vec<char>, at: usize) -> (r: bool)
    requires
        at <= text.len(),
    ensures
        r == occurs_at(text@, pat@, at as int),
{
    if pat.len() > text.len() - at {
        return false;
    }
    let mut k: usize = 0;
    while k < pat.len()
        invariant
            k <= pat.len(),
            at + pat.len() <= text.len(),
            forall|j: int| 0 <= j < k ==> text@[at + j] == pat@[j],
        decreases pat.len() - k,
    {
        if text[at + k] != pat[k] {
            proof {
                assert(text@.subrange(at as int, at + pat.len())[k as int] == text@[at + k]);
            }
            return false;
        }
        k += 1;
    }
    proof {
        assert(text@.subrange(at as int, at + pat.len()) =~= pat@);
    }
    true
}

/// Replaces every occurrence of `pat` in `text` by `to`, as `str::replace`
/// does for a pattern that is not empty.
pub fn replace(text: &Vec<char>, pat: &Vec<char>, to: &Vec<char>) -> (r: Vec<char>)
    ensures
        r@ == replace_all(text@, pat@, to@),
{
    if pat.len() == 0 {
        return text.clone();
    }
    let mut out: Vec<char> = Vec::new();
    let mut i: usize = 0;
    proof {
        assert(text@.skip(0) =~= text@);
        assert(out@ + replace_all(text@, pat@, to@) =~= replace_all(text@, pat@, to@));
    }
    while i < text.len()
        invariant
            i <= text.len(),
            pat.len() > 0,
            out@ + replace_all(text@.skip(i as int), pat@, to@) == replace_all(
                text@,
                pat@,
                to@,
            ),
        decreases text.len() - i,
    {
        let ghost rest = text@.skip(i as int);
        proof {
            assert(occurs_at(text@, pat@, i as int) == occurs_at(rest, pat@, 0)) by {
                if i + pat.len() <= text.len() {
                    assert(text@.subrange(i as int, i + pat.len()) =~= rest.subrange(
                        0,
                        pat.len() as int,
                    ));
                }
            }
        }
        if matches_at(text, pat, i) {
            let mut k: usize = 0;
            let ghost before = out@;
            while k < to.len()
                invariant
                    k <= to.len(),
                    out@ == before + to@.take(k as int),
                decreases to.len() - k,
            {
                out.push(to[k]);
                k += 1;
            }
            proof {
                assert(to@.take(to.len() as int) =~= to@);
                assert(rest.skip(pat.len() as int) =~= text@.skip(i + pat.len()));
                assert((before + to@) + replace_all(text@.skip(i + pat.len()), pat@, to@)
                    =~= before + (to@ + replace_all(rest.skip(pat.len() as int), pat@, to@)));
            }
            i += pat.len();
        } else {
            let ghost before = out@;
            out.push(text[i]);
            proof {
                assert(rest.skip(1) =~= text@.skip(i + 1));
                if rest.len() < pat.len() {
                    assert(rest =~= seq![rest[0]] + rest.skip(1));
                    lemma_replace_all_short(rest.skip(1), pat@, to@);
                }
                assert(before.push(text@[i as int]) + replace_all(
                    text@.skip(i + 1),
                    pat@,
                    to@,
                ) =~= before + (seq![rest[0]] + replace_all(rest.skip(1), pat@, to@)));
            }
            i += 1;
        }
    }
    proof {
        assert(text@.skip(text.len() as int) =~= Seq::<char>::empty());
        assert(out@ + Seq::<char>::empty() =~= out@);
    }
    out
}

/// A text shorter than the pattern holds no occurrence of it.
pub proof fn lemma_replace_all_short(s: Seq<char>, pat: Seq<char>, to: Seq<char>)
    requires
        s.len() < pat.len(),
    ensures
        replace_all(s, pat, to) == s,
{
}

/// A text in which the pattern stands nowhere is left as it is.
pub proof fn lemma_replace_all_absent(s: Seq<char>, pat: Seq<char>, to: Seq<char>)
    requires
        !occurs_in(s, pat),
    ensures
        replace_all(s, pat, to) == s,
    decreases s.len(),
{
    if pat.len() == 0 || s.len() < pat.len() {
    } else {
        assert(!occurs_at(s, pat, 0));
        let rest = s.skip(1);
        assert forall|i: int| !occurs_at(rest, pat, i) by {
            if occurs_at(rest, pat, i) {
                assert(s.subrange(i + 1, i + 1 + pat.len()) =~= rest.subrange(i, i + pat.len()));
                assert(occurs_at(s, pat, i + 1));
            }
        }
        lemma_replace_all_absent(rest, pat, to);
        assert(seq![s[0]] + rest =~= s);
    }
}

/// If `q` opens the text after a replacement whose substitute is not empty
/// and shares no character with `q`, then `q` opened the text before it.
proof fn lemma_replace_all_prefix(s: Seq<char>, pat: Seq<char>, to: Seq<char>, q: Seq<char>)
    requires
        to.len() > 0,
        disjoint(to, q),
        occurs_at(replace_all(s, pat, to), q, 0),
    ensures
        occurs_at(s, q, 0),
    decreases s.len(),
{
    let out = replace_all(s, pat, to);
    if q.len() == 0 {
        assert(s.subrange(0, 0) =~= q);
    } else if pat.len() == 0 || s.len() < pat.len() {
    } else if occurs_at(s, pat, 0) {
        assert(out.subrange(0, q.len() as int)[0] == out[0]);
        assert(out[0] == to[0]);
        assert(q[0] == to[0]);
    } else {
        let rest = s.skip(1);
        let tail = q.skip(1);
        assert(out.subrange(0, q.len() as int)[0] == out[0]);
        assert(q[0] == s[0]);
        assert(replace_all(rest, pat, to).subrange(0, tail.len() as int) =~= out.subrange(
            0,
            q.len() as int,
        ).skip(1));
        assert(occurs_at(replace_all(rest, pat, to), tail, 0));
        assert(disjoint(to, tail)) by {
            assert forall|i: int, j: int| 0 <= i < to.len() && 0 <= j < tail.len() implies to[i]
                != tail[j] by {
                assert(tail[j] == q[j + 1]);
            }
        }
        lemma_replace_all_prefix(rest, pat, to, tail);
        assert(s.subrange(0, q.len() as int) =~= seq![s[0]] + rest.subrange(
            0,
            tail.len() as int,
        ));
        assert(seq![q[0]] + tail =~= q);
    }
}

/// A replacement whose substitute is not empty and shares no character with
/// `q` brings forth no occurrence of `q`: where `q` stands in the text after
/// it, `q` stood in the text before it.
pub proof fn lemma_replace_all_brings_no_occurrence(
    s: Seq<char>,
    pat: Seq<char>,
    to: Seq<char>,
    q: Seq<char>,
)
    requires
        to.len() > 0,
        q.len() > 0,
        disjoint(to, q),
        occurs_in(replace_all(s, pat, to), q),
    ensures
        occurs_in(s, q),
    decreases s.len(),
{
    let out = replace_all(s, pat, to);
    let i = choose|i: int| occurs_at(out, q, i);
    if pat.len() == 0 || s.len() < pat.len() {
        assert(occurs_at(s, q, i));
    } else if occurs_at(s, pat, 0) {
        let m = pat.len() as int;
        let rest = s.skip(m);
        let inner = replace_all(rest, pat, to);
        if i < to.len() {
            assert(out.subrange(i, i + q.len())[0] == out[i]);
            assert(out[i] == to[i]);
            assert(q[0] == to[i]);
        } else {
            assert(inner.subrange(i - to.len(), i - to.len() + q.len()) =~= out.subrange(
                i,
                i + q.len(),
            ));
            assert(occurs_at(inner, q, i - to.len()));
            lemma_replace_all_brings_no_occurrence(rest, pat, to, q);
            let j = choose|j: int| occurs_at(rest, q, j);
            assert(s.subrange(j + m, j + m + q.len()) =~= rest.subrange(j, j + q.len()));
            assert(occurs_at(s, q, j + m));
        }
    } else {
        let rest = s.skip(1);
        let inner = replace_all(rest, pat, to);
        if i == 0 {
            lemma_replace_all_prefix(s, pat, to, q);
        } else {
            assert(inner.subrange(i - 1, i - 1 + q.len()) =~= out.subrange(i, i + q.len()));
            assert(occurs_at(inner, q, i - 1));
            lemma_replace_all_brings_no_occurrence(rest, pat, to, q);
            let j = choose|j: int| occurs_at(rest, q, j);
            assert(s.subrange(j + 1, j + 1 + q.len()) =~= rest.subrange(j, j + q.len()));
            assert(occurs_at(s, q, j + 1));
        }
    }
}

} // verus!
