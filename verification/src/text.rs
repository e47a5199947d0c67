//! Character sequences: conversion, decimal numerals, padding and order.

use vstd::prelude::*;

verus! {

/// The characters of `s`, in order.
pub fn chars_of(s: &str) -> (r: Vec<char>)
    ensures
        r@ == s@,
{
    let mut out: Vec<char> = Vec::new();
    for c in it: s.chars()
        invariant
            it.seq() == s@,
            out@ == s@.take(it.index() as int),
    {
        out.push(c);
        proof {
            assert(s@.take(it.index() + 1) =~= s@.take(it.index() as int).push(c));
        }
    }
    proof {
        assert(s@.take(s@.len() as int) =~= s@);
    }
    out
}

/// The string made of the characters of `v`, in order.
pub fn string_of(v: &Vec<char>) -> (r: String)
    ensures
        r@ == v@,
{
    let mut out = String::new();
    let mut i: usize = 0;
    while i < v.len()
        invariant
            i <= v.len(),
            out@ == v@.take(i as int),
        decreases v.len() - i,
    {
        out.push(v[i]);
        proof {
            assert(v@.take(i + 1) =~= v@.take(i as int).push(v@[i as int]));
        }
        i = i + 1;
    }
    proof {
        assert(v@.take(v@.len() as int) =~= v@);
    }
    out
}

/// Appends the characters of `s` to `out`.
pub fn push_str(out: &mut Vec<char>, s: &str)
    ensures
        final(out)@ == old(out)@ + s@,
{
    let ghost before = out@;
    for c in it: s.chars()
        invariant
            it.seq() == s@,
            out@ == before + s@.take(it.index() as int),
    {
        out.push(c);
        proof {
            assert(s@.take(it.index() + 1) =~= s@.take(it.index() as int).push(c));
            assert(before + s@.take(it.index() + 1) =~= (before + s@.take(
                it.index() as int,
            )).push(c));
        }
    }
    proof {
        assert(s@.take(s@.len() as int) =~= s@);
    }
}

/// `n` copies of `c`.
pub open spec fn repeated(c: char, n: nat) -> Seq<char> {
    Seq::new(n, |i: int| c)
}

/// Appends `n` copies of `c` to `out`.
pub fn push_repeated(out: &mut Vec<char>, c: char, n: usize)
    ensures
        final(out)@ == old(out)@ + repeated(c, n as nat),
{
    let ghost before = out@;
    let mut i: usize = 0;
    while i < n
        invariant
            i <= n,
            out@ == before + repeated(c, i as nat),
        decreases n - i,
    {
        out.push(c);
        proof {
            assert(before + repeated(c, (i + 1) as nat) =~= (before + repeated(c, i as nat)).push(
                c,
            ));
        }
        i = i + 1;
    }
}

/// The decimal digit that stands for `d`, for `d` from 0 to 9.
pub open spec fn digit_char(d: int) -> char {
    if d == 0 {
        '0'
    } else if d == 1 {
        '1'
    } else if d == 2 {
        '2'
    } else if d == 3 {
        '3'
    } else if d == 4 {
        '4'
    } else if d == 5 {
        '5'
    } else if d == 6 {
        '6'
    } else if d == 7 {
        '7'
    } else if d == 8 {
        '8'
    } else {
        '9'
    }
}

/// The decimal numeral of `n`, without leading zeros.
pub open spec fn digits(n: nat) -> Seq<char>
    decreases n,
{
    if n < 10 {
        seq![digit_char(n as int)]
    } else {
        digits(n / 10).push(digit_char((n % 10) as int))
    }
}

/// The decimal numeral of `i`, with a leading minus sign below zero.
pub open spec fn decimal(i: int) -> Seq<char> {
    if i < 0 {
        seq!['-'] + digits((-i) as nat)
    } else {
        digits(i as nat)
    }
}

fn digit_of(d: u128) -> (c: char)
    requires
        d < 10,
    ensures
        c == digit_char(d as int),
{
    if d == 0 {
        '0'
    } else if d == 1 {
        '1'
    } else if d == 2 {
        '2'
    } else if d == 3 {
        '3'
    } else if d == 4 {
        '4'
    } else if d == 5 {
        '5'
    } else if d == 6 {
        '6'
    } else if d == 7 {
        '7'
    } else if d == 8 {
        '8'
    } else {
        '9'
    }
}

/// Appends the decimal numeral of `n` to `out`.
pub fn push_digits(out: &mut Vec<char>, n: u128)
    ensures
        final(out)@ == old(out)@ + digits(n as nat),
    decreases n,
{
    let ghost before = out@;
    if n >= 10 {
        push_digits(out, n / 10);
    }
    out.push(digit_of(n % 10));
    proof {
        if n >= 10 {
            assert(before + digits(n as nat) =~= (before + digits((n / 10) as nat)).push(
                digit_char((n % 10) as int),
            ));
        } else {
            assert(before + digits(n as nat) =~= before.push(digit_char(n as int)));
        }
    }
}

/// Appends the decimal numeral of `i` to `out`.
pub fn push_decimal(out: &mut Vec<char>, i: i128)
    ensures
        final(out)@ == old(out)@ + decimal(i as int),
{
    let ghost before = out@;
    if i < 0 {
        out.push('-');
        let magnitude: u128 = if i == i128::MIN {
            170141183460469231731687303715884105728u128
        } else {
            (-i) as u128
        };
        push_digits(out, magnitude);
        proof {
            assert(before + decimal(i as int) =~= before.push('-') + digits(magnitude as nat));
        }
    } else {
        push_digits(out, i as u128);
    }
}

/// Whether `a` comes before `b` by code point.
pub open spec fn char_before(a: char, b: char) -> bool {
    (a as int) < (b as int)
}

/// Where one text stands relative to another.
#[derive(Debug, Clone, Copy, PartialEq, Eq, Structural)]
pub enum Rank {
    Before,
    Same,
    After,
}

/// The rank of `a` against `b`, both read from position `i` on, given that
/// they agree before it.
pub open spec fn rank_from(a: Seq<char>, b: Seq<char>, i: int) -> Rank
    decreases a.len() - i,
{
    if i >= a.len() || i >= b.len() {
        if a.len() == b.len() {
            Rank::Same
        } else if a.len() < b.len() {
            Rank::Before
        } else {
            Rank::After
        }
    } else if a[i] == b[i] {
        rank_from(a, b, i + 1)
    } else if char_before(a[i], b[i]) {
        Rank::Before
    } else {
        Rank::After
    }
}

/// The rank of `a` against `b` in dictionary order by code point: the
/// first position at which they differ decides, and a text comes before
/// every longer text that starts with it.
pub open spec fn rank_of(a: Seq<char>, b: Seq<char>) -> Rank {
    rank_from(a, b, 0)
}

/// Compares two texts in dictionary order by code point.
pub fn rank(a: &Vec<char>, b: &Vec<char>) -> (r: Rank)
    ensures
        r == rank_of(a@, b@),
{
    let mut i: usize = 0;
    while i < a.len() && i < b.len()
        invariant
            i <= a.len(),
            i <= b.len(),
            rank_of(a@, b@) == rank_from(a@, b@, i as int),
        decreases a.len() - i,
    {
        if a[i] != b[i] {
            if a[i] < b[i] {
                return Rank::Before;
            } else {
                return Rank::After;
            }
        }
        i = i + 1;
    }
    if a.len() == b.len() {
        Rank::Same
    } else if a.len() < b.len() {
        Rank::Before
    } else {
        Rank::After
    }
}

/// Texts rank the same exactly when they are equal.
pub proof fn lemma_rank_same(a: Seq<char>, b: Seq<char>)
    ensures
        rank_of(a, b) == Rank::Same <==> a == b,
{
    lemma_rank_same_from(a, b, 0);
    if rank_of(a, b) == Rank::Same {
        assert(a =~= b);
    }
}

proof fn lemma_rank_same_from(a: Seq<char>, b: Seq<char>, i: int)
    requires
        0 <= i,
    ensures
        rank_from(a, b, i) == Rank::Same <==> (a.len() == b.len() && forall|k: int|
            i <= k < a.len() ==> a[k] == b[k]),
    decreases a.len() - i,
{
    if i >= a.len() || i >= b.len() {
    } else if a[i] == b[i] {
        lemma_rank_same_from(a, b, i + 1);
    } else {
    }
}

/// The order turns round with its sides: one text comes before another
/// exactly when the other comes after it.
pub proof fn law_rank_flips(a: Seq<char>, b: Seq<char>)
    ensures
        rank_of(a, b) == Rank::Before <==> rank_of(b, a) == Rank::After,
        rank_of(a, b) == Rank::Same <==> rank_of(b, a) == Rank::Same,
        rank_of(a, b) == Rank::After <==> rank_of(b, a) == Rank::Before,
{
    lemma_rank_flips_from(a, b, 0);
}

proof fn lemma_rank_flips_from(a: Seq<char>, b: Seq<char>, i: int)
    requires
        0 <= i,
    ensures
        rank_from(a, b, i) == Rank::Before <==> rank_from(b, a, i) == Rank::After,
        rank_from(a, b, i) == Rank::Same <==> rank_from(b, a, i) == Rank::Same,
        rank_from(a, b, i) == Rank::After <==> rank_from(b, a, i) == Rank::Before,
    decreases a.len() - i,
{
    if i >= a.len() || i >= b.len() {
    } else if a[i] == b[i] {
        lemma_rank_flips_from(a, b, i + 1);
    } else {
        assert(char_before(a[i], b[i]) != char_before(b[i], a[i]));
    }
}

/// The order chains: what comes before a text comes before everything
/// that the text comes before.
pub proof fn law_rank_chains(a: Seq<char>, b: Seq<char>, c: Seq<char>)
    requires
        rank_of(a, b) == Rank::Before,
        rank_of(b, c) == Rank::Before,
    ensures
        rank_of(a, c) == Rank::Before,
{
    lemma_rank_chains_from(a, b, c, 0);
}

proof fn lemma_rank_chains_from(a: Seq<char>, b: Seq<char>, c: Seq<char>, i: int)
    requires
        0 <= i,
        rank_from(a, b, i) == Rank::Before,
        rank_from(b, c, i) == Rank::Before,
    ensures
        rank_from(a, c, i) == Rank::Before,
    decreases b.len() - i,
{
    if i >= b.len() {
    } else if i >= a.len() {
    } else if i >= c.len() {
    } else if a[i] == b[i] && b[i] == c[i] {
        lemma_rank_chains_from(a, b, c, i + 1);
    } else {
    }
}

} // verus!
