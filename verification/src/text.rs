//! Character-level text tools: conversion between strings and character
//! vectors, decimal numbers, and literal search and replacement.

use vstd::prelude::*;
use vstd::std_specs::iter::IteratorSpec;

verus! {

/// `String::push` appends one character at the end of the string and leaves
/// what was there before untouched.
pub assume_specification[ std::string::String::push ](s: &mut std::string::String, ch: char)
    ensures
        final(s)@ == old(s)@.push(ch),
;

/// The characters of a string, in order.
pub fn chars_of(s: &str) -> (v: Vec<char>)
    ensures
        v@ == s@,
{
    let mut v: Vec<char> = Vec::new();
    let mut it = s.chars();
    proof {
        vstd::string::axiom_spec_iter(s);
    }
    loop
        invariant
            it.obeys_prophetic_iter_laws(),
            it.decrease() is Some,
            v@ + it.remaining() == s@,
        decreases it.decrease()->0,
    {
        let ghost before = it;
        let next = it.next();
        proof {
            vstd::string::next_postcondition(&before, &it, next);
        }
        match next {
            Some(c) => {
                v.push(c);
                assert(v@ + it.remaining() =~= s@);
            },
            None => {
                assert(v@ =~= s@);
                return v;
            },
        }
    }
}

/// The string made of the given characters, in order.
pub fn string_of(v: &Vec<char>) -> (s: String)
    ensures
        s@ == v@,
{
    let mut s = String::new();
    let mut i: usize = 0;
    while i < v.len()
        invariant
            i <= v.len(),
            s@ == v@.take(i as int),
        decreases v.len() - i,
    {
        s.push(v[i]);
        i = i + 1;
        assert(s@ =~= v@.take(i as int));
    }
    assert(v@.take(v.len() as int) =~= v@);
    s
}

/// Whether `pat` stands in `s` at position `at`.
pub open spec fn occurs_at(s: Seq<char>, pat: Seq<char>, at: int) -> bool {
    &&& 0 <= at
    &&& at + pat.len() <= s.len()
    &&& s.subrange(at, at + pat.len()) == pat
}

/// The number of occurrences of `pat` in `s`, found from left to right
/// without overlap. The empty pattern occurs before every character and at
/// the end.
pub open spec fn count_matches(s: Seq<char>, pat: Seq<char>) -> nat
    decreases s.len(),
{
    if occurs_at(s, pat, 0) {
        if s.len() == 0 {
            1
        } else if pat.len() == 0 {
            1 + count_matches(s.skip(1), pat)
        } else {
            1 + count_matches(s.skip(pat.len() as int), pat)
        }
    } else if s.len() == 0 {
        0
    } else {
        count_matches(s.skip(1), pat)
    }
}

/// `s` with its first `limit` occurrences of `pat`, found from left to right
/// without overlap, replaced by `with`; everything else stays as it is.
pub open spec fn replace_first(s: Seq<char>, pat: Seq<char>, with: Seq<char>, limit: nat) -> Seq<
    char,
>
    decreases s.len(),
{
    if limit == 0 {
        s
    } else if occurs_at(s, pat, 0) {
        if s.len() == 0 {
            with
        } else if pat.len() == 0 {
            with + seq![s[0]] + replace_first(s.skip(1), pat, with, (limit - 1) as nat)
        } else {
            with + replace_first(s.skip(pat.len() as int), pat, with, (limit - 1) as nat)
        }
    } else if s.len() == 0 {
        s
    } else {
        seq![s[0]] + replace_first(s.skip(1), pat, with, limit)
    }
}

/// `s` with every occurrence of `pat` replaced by `with`.
pub open spec fn replace_all(s: Seq<char>, pat: Seq<char>, with: Seq<char>) -> Seq<char> {
    replace_first(s, pat, with, count_matches(s, pat))
}

/// Where the first `limit` occurrences of `pat` in `s` end: the position
/// just behind the last of them, or behind the character that follows it
/// where the pattern is empty.
pub open spec fn cut_after(s: Seq<char>, pat: Seq<char>, limit: nat) -> int
    decreases s.len(),
{
    if limit == 0 {
        0
    } else if occurs_at(s, pat, 0) {
        if s.len() == 0 {
            0
        } else if pat.len() == 0 {
            1 + cut_after(s.skip(1), pat, (limit - 1) as nat)
        } else {
            pat.len() + cut_after(s.skip(pat.len() as int), pat, (limit - 1) as nat)
        }
    } else if s.len() == 0 {
        0
    } else {
        1 + cut_after(s.skip(1), pat, limit)
    }
}

/// A limited replacement works on the beginning of the text only: what
/// stands behind the last replaced occurrence is left as it is, further
/// occurrences of the pattern included.
pub proof fn replace_first_keeps_rest(s: Seq<char>, pat: Seq<char>, with: Seq<char>, limit: nat)
    ensures
        0 <= cut_after(s, pat, limit) <= s.len(),
        replace_first(s, pat, with, limit) == replace_first(
            s.take(cut_after(s, pat, limit)),
            pat,
            with,
            limit,
        ) + s.skip(cut_after(s, pat, limit)),
    decreases s.len(),
{
    let cut = cut_after(s, pat, limit);
    let head = s.take(cut);
    if limit == 0 {
        assert(head + s.skip(0) =~= s);
    } else if occurs_at(s, pat, 0) {
        if s.len() == 0 {
            assert(head =~= s);
            assert(with + s.skip(0) =~= with);
        } else if pat.len() == 0 {
            let rest = s.skip(1);
            let less = (limit - 1) as nat;
            replace_first_keeps_rest(rest, pat, with, less);
            let inner = cut_after(rest, pat, less);
            assert(head.subrange(0, 0) =~= pat);
            assert(head.skip(1) =~= rest.take(inner));
            assert(s.skip(cut) =~= rest.skip(inner));
            assert(head[0] == s[0]);
            assert(replace_first(s, pat, with, limit) =~= replace_first(head, pat, with, limit)
                + s.skip(cut));
        } else {
            let m = pat.len() as int;
            let rest = s.skip(m);
            let less = (limit - 1) as nat;
            replace_first_keeps_rest(rest, pat, with, less);
            let inner = cut_after(rest, pat, less);
            assert(head.subrange(0, m) =~= s.subrange(0, m));
            assert(head.skip(m) =~= rest.take(inner));
            assert(s.skip(cut) =~= rest.skip(inner));
            assert(replace_first(s, pat, with, limit) =~= replace_first(head, pat, with, limit)
                + s.skip(cut));
        }
    } else if s.len() == 0 {
        assert(head =~= s);
        assert(s + s.skip(0) =~= s);
    } else {
        let rest = s.skip(1);
        replace_first_keeps_rest(rest, pat, with, limit);
        let inner = cut_after(rest, pat, limit);
        if pat.len() <= head.len() {
            assert(head.subrange(0, pat.len() as int) =~= s.subrange(0, pat.len() as int));
        }
        assert(!occurs_at(head, pat, 0));
        assert(head.skip(1) =~= rest.take(inner));
        assert(s.skip(cut) =~= rest.skip(inner));
        assert(head[0] == s[0]);
        assert(replace_first(s, pat, with, limit) =~= replace_first(head, pat, with, limit)
            + s.skip(cut));
    }
}

/// A limited replacement of at most as many occurrences as the text holds
/// replaces exactly that many: the text loses the pattern and gains the
/// substitute once for each.
pub proof fn replace_first_replaces_exactly(
    s: Seq<char>,
    pat: Seq<char>,
    with: Seq<char>,
    limit: nat,
)
    requires
        limit <= count_matches(s, pat),
    ensures
        replace_first(s, pat, with, limit).len() + limit * pat.len() == s.len() + limit
            * with.len(),
    decreases s.len(),
{
    if limit == 0 {
        assert(0 * pat.len() == 0) by (nonlinear_arith);
        assert(0 * with.len() == 0) by (nonlinear_arith);
    } else {
        let less = (limit - 1) as nat;
        assert(limit * pat.len() == less * pat.len() + pat.len()) by (nonlinear_arith)
            requires
                limit == less + 1,
        ;
        assert(limit * with.len() == less * with.len() + with.len()) by (nonlinear_arith)
            requires
                limit == less + 1,
        ;
        if occurs_at(s, pat, 0) {
            if s.len() == 0 {
                assert(count_matches(s, pat) == 1);
                assert(less == 0);
                assert(0 * pat.len() == 0) by (nonlinear_arith);
                assert(0 * with.len() == 0) by (nonlinear_arith);
            } else if pat.len() == 0 {
                replace_first_replaces_exactly(s.skip(1), pat, with, less);
            } else {
                replace_first_replaces_exactly(s.skip(pat.len() as int), pat, with, less);
            }
        } else if s.len() > 0 {
            replace_first_replaces_exactly(s.skip(1), pat, with, limit);
        }
    }
}

/// Whether `pat` stands in `s` at position `at`.
pub fn matches_at(s: &Vec<char>, pat: &Vec<char>, at: usize) -> (b: bool)
    requires
        at <= s.len(),
    ensures
        b == occurs_at(s@.skip(at as int), pat@, 0),
{
    if pat.len() > s.len() - at {
        return false;
    }
    let mut k: usize = 0;
    while k < pat.len()
        invariant
            at <= s.len(),
            pat.len() <= s.len() - at,
            k <= pat.len(),
            forall|j: int| 0 <= j < k ==> s@[at + j] == pat@[j],
        decreases pat.len() - k,
    {
        if s[at + k] != pat[k] {
            proof {
                let sub = s@.skip(at as int).subrange(0, pat@.len() as int);
                assert(sub[k as int] == s@[at + k]);
            }
            return false;
        }
        k = k + 1;
    }
    assert(s@.skip(at as int).subrange(0, pat@.len() as int) =~= pat@);
    true
}

/// Appends to `out` the characters of `src` from position `from` on.
pub fn append_from(out: &mut Vec<char>, src: &Vec<char>, from: usize)
    requires
        from <= src.len(),
    ensures
        final(out)@ == old(out)@ + src@.skip(from as int),
{
    let mut k: usize = from;
    while k < src.len()
        invariant
            from <= k <= src.len(),
            out@ == old(out)@ + src@.subrange(from as int, k as int),
        decreases src.len() - k,
    {
        out.push(src[k]);
        k = k + 1;
        assert(out@ =~= old(out)@ + src@.subrange(from as int, k as int));
    }
    assert(src@.subrange(from as int, src.len() as int) =~= src@.skip(from as int));
}

/// The number of occurrences of `pat` in `s`, counted no further than `cap`.
pub fn occurrences_up_to(s: &Vec<char>, pat: &Vec<char>, cap: u64) -> (n: u64)
    ensures
        n == if count_matches(s@, pat@) <= cap {
            count_matches(s@, pat@)
        } else {
            cap as nat
        },
{
    let mut found: u64 = 0;
    let mut i: usize = 0;
    assert(s@.skip(0) =~= s@);
    while i < s.len() && found < cap
        invariant
            i <= s.len(),
            found <= cap,
            count_matches(s@, pat@) == found + count_matches(s@.skip(i as int), pat@),
        decreases s.len() - i,
    {
        let ghost rest = s@.skip(i as int);
        if matches_at(s, pat, i) {
            found = found + 1;
            if pat.len() == 0 {
                assert(rest.skip(1) =~= s@.skip(i + 1));
                i = i + 1;
            } else {
                assert(rest.skip(pat.len() as int) =~= s@.skip(i + pat.len()));
                i = i + pat.len();
            }
        } else {
            assert(rest.skip(1) =~= s@.skip(i + 1));
            i = i + 1;
        }
    }
    if i == s.len() && found < cap && pat.len() == 0 {
        assert(s@.skip(i as int).subrange(0, 0) =~= pat@);
        found = found + 1;
    }
    found
}

/// `s` with occurrences of `pat` replaced by `with`: the first `n` of them
/// for a limit of `Some(n)`, all of them for `None`.
pub fn replace_limited(s: &Vec<char>, pat: &Vec<char>, with: &Vec<char>, limit: Option<u64>) -> (out:
    Vec<char>)
    ensures
        out@ == match limit {
            Some(n) => replace_first(s@, pat@, with@, n as nat),
            None => replace_all(s@, pat@, with@),
        },
{
    let bounded = limit.is_some();
    let mut left: u64 = match limit {
        Some(n) => n,
        None => 0,
    };
    let ghost mut budget: nat = match limit {
        Some(n) => n as nat,
        None => count_matches(s@, pat@),
    };
    let ghost target = replace_first(s@, pat@, with@, budget);
    let mut out: Vec<char> = Vec::new();
    let mut i: usize = 0;
    assert(s@.skip(0) =~= s@);
    assert(out@ + s@ =~= s@);
    while i < s.len() && (!bounded || left > 0)
        invariant
            i <= s.len(),
            bounded ==> budget == left,
            !bounded ==> budget == count_matches(s@.skip(i as int), pat@),
            target == out@ + replace_first(s@.skip(i as int), pat@, with@, budget),
        decreases s.len() - i,
    {
        let ghost rest = s@.skip(i as int);
        let ghost before = out@;
        if matches_at(s, pat, i) {
            append_from(&mut out, with, 0);
            assert(with@.skip(0) =~= with@);
            if bounded {
                left = left - 1;
            }
            proof {
                budget = (budget - 1) as nat;
            }
            if pat.len() == 0 {
                assert(rest.skip(1) =~= s@.skip(i + 1));
                out.push(s[i]);
                i = i + 1;
                assert(out@ =~= before + with@ + seq![rest[0]]);
                assert(target =~= out@ + replace_first(s@.skip(i as int), pat@, with@, budget));
            } else {
                assert(rest.skip(pat.len() as int) =~= s@.skip(i + pat.len()));
                i = i + pat.len();
                assert(target =~= out@ + replace_first(s@.skip(i as int), pat@, with@, budget));
            }
        } else {
            assert(rest.skip(1) =~= s@.skip(i + 1));
            out.push(s[i]);
            i = i + 1;
            assert(out@ =~= before + seq![rest[0]]);
            assert(target =~= out@ + replace_first(s@.skip(i as int), pat@, with@, budget));
        }
    }
    if i < s.len() {
        append_from(&mut out, s, i);
    } else if pat.len() == 0 && (!bounded || left > 0) {
        assert(s@.skip(i as int).subrange(0, 0) =~= pat@);
        append_from(&mut out, with, 0);
        assert(with@.skip(0) =~= with@);
    } else {
        assert(out@ + s@.skip(i as int) =~= out@);
    }
    out
}

/// The character that writes the digit `d`.
pub open spec fn digit_char(d: nat) -> char {
    if d == 0 {
        '0'
    } else if d == 1 {
        '1'
    } else if d == 2 {
        '2'
    } else if d == 3 {
        '3'
    } else if d == 4 {
        '4'
    } else if d == 5 {
        '5'
    } else if d == 6 {
        '6'
    } else if d == 7 {
        '7'
    } else if d == 8 {
        '8'
    } else {
        '9'
    }
}

/// Whether `c` is one of the ten digits.
pub open spec fn is_digit(c: char) -> bool {
    '0' <= c <= '9'
}

/// The digit that `c` writes.
pub open spec fn digit_value(c: char) -> nat {
    (c as nat - '0' as nat) as nat
}

/// `n` in decimal, without leading zeros.
pub open spec fn decimal(n: nat) -> Seq<char>
    decreases n,
{
    if n < 10 {
        seq![digit_char(n)]
    } else {
        decimal(n / 10).push(digit_char(n % 10))
    }
}

/// The number that a run of digits writes in decimal.
pub open spec fn digits_value(s: Seq<char>) -> nat
    decreases s.len(),
{
    if s.len() == 0 {
        0
    } else {
        digits_value(s.drop_last()) * 10 + digit_value(s.last())
    }
}

/// What is left of `s` once a single leading plus sign is taken off.
pub open spec fn unsigned_body(s: Seq<char>) -> Seq<char> {
    if s.len() > 0 && s[0] == '+' {
        s.skip(1)
    } else {
        s
    }
}

/// The unsigned 64-bit number that `s` writes: an optional plus sign, then
/// one or more digits, whose value fits. `None` for any other text.
pub open spec fn parse_u64(s: Seq<char>) -> Option<u64> {
    let body = unsigned_body(s);
    if body.len() > 0 && (forall|i: int| 0 <= i < body.len() ==> is_digit(#[trigger] body[i]))
        && digits_value(body) <= u64::MAX {
        Some(digits_value(body) as u64)
    } else {
        None
    }
}

/// The character of one digit.
pub fn digit_to_char(d: u64) -> (c: char)
    requires
        d < 10,
    ensures
        c == digit_char(d as nat),
        is_digit(c),
        digit_value(c) == d,
{
    if d == 0 {
        '0'
    } else if d == 1 {
        '1'
    } else if d == 2 {
        '2'
    } else if d == 3 {
        '3'
    } else if d == 4 {
        '4'
    } else if d == 5 {
        '5'
    } else if d == 6 {
        '6'
    } else if d == 7 {
        '7'
    } else if d == 8 {
        '8'
    } else {
        '9'
    }
}

/// The digit that a character writes, if it is one.
pub fn char_to_digit(c: char) -> (d: Option<u64>)
    ensures
        d is Some <==> is_digit(c),
        d matches Some(v) ==> v == digit_value(c) && v < 10,
{
    if '0' <= c && c <= '9' {
        Some((c as u64) - ('0' as u64))
    } else {
        None
    }
}

/// Appends `n` in decimal to `out`.
pub fn push_decimal(out: &mut Vec<char>, n: u64)
    ensures
        final(out)@ == old(out)@ + decimal(n as nat),
    decreases n,
{
    if n < 10 {
        out.push(digit_to_char(n));
        assert(out@ =~= old(out)@ + decimal(n as nat));
    } else {
        push_decimal(out, n / 10);
        out.push(digit_to_char(n % 10));
        assert(out@ =~= old(out)@ + decimal(n as nat));
    }
}

/// `n` in decimal.
pub fn decimal_string(n: u64) -> (s: String)
    ensures
        s@ == decimal(n as nat),
{
    let mut out: Vec<char> = Vec::new();
    push_decimal(&mut out, n);
    assert(out@ =~= decimal(n as nat));
    string_of(&out)
}

/// A run of digits never writes less than one of its beginnings does.
pub proof fn digits_value_grows(s: Seq<char>, k: int)
    requires
        0 <= k <= s.len(),
    ensures
        digits_value(s.take(k)) <= digits_value(s),
    decreases s.len(),
{
    if k < s.len() {
        digits_value_grows(s.drop_last(), k);
        assert(s.drop_last().take(k) =~= s.take(k));
    } else {
        assert(s.take(k) =~= s);
    }
}

/// Reads an unsigned 64-bit number: an optional plus sign, then digits.
pub fn parse_unsigned(s: &Vec<char>) -> (r: Option<u64>)
    ensures
        r == parse_u64(s@),
{
    let start: usize = if s.len() > 0 && s[0] == '+' {
        1
    } else {
        0
    };
    let ghost body = unsigned_body(s@);
    assert(body =~= s@.skip(start as int));
    if start == s.len() {
        return None;
    }
    let mut acc: u64 = 0;
    let mut i: usize = start;
    assert(body.take(0) =~= Seq::<char>::empty());
    while i < s.len()
        invariant
            start <= i <= s.len(),
            body == s@.skip(start as int),
            body == unsigned_body(s@),
            forall|j: int| 0 <= j < i - start ==> is_digit(#[trigger] body[j]),
            acc == digits_value(body.take(i - start)),
        decreases s.len() - i,
    {
        let ghost upto = body.take(i - start + 1);
        assert(upto.drop_last() =~= body.take(i - start));
        assert(upto.last() == body[i - start]);
        assert(body[i - start] == s@[i as int]);
        let d = match char_to_digit(s[i]) {
            Some(d) => d,
            None => {
                return None;
            },
        };
        proof {
            digits_value_grows(body, i - start + 1);
        }
        let tens = match acc.checked_mul(10) {
            Some(t) => t,
            None => {
                return None;
            },
        };
        acc = match tens.checked_add(d) {
            Some(a) => a,
            None => {
                return None;
            },
        };
        i = i + 1;
    }
    assert(body.take(i - start) =~= body);
    Some(acc)
}

} // verus!
