//! Small verified text utilities: counting the characters of a string and
//! rendering a counter in decimal for server-assigned identifiers.

use vstd::prelude::*;
use vstd::std_specs::iter::IteratorSpec;
use vstd::string::StringExecFns;

verus! {

broadcast use vstd::string::axiom_spec_iter, vstd::string::next_postcondition;

/// Whether the number of characters in `s` lies in `lo..=hi`, computed
/// without counting past `hi`.
pub fn char_len_in_range(s: &str, lo: usize, hi: usize) -> (r: bool)
    requires
        hi < usize::MAX,
    ensures
        r == (lo <= s@.len() && s@.len() <= hi),
{
    let mut it = s.chars();
    let mut n: usize = 0;
    while n <= hi
        invariant
            hi < usize::MAX,
            it.obeys_prophetic_iter_laws(),
            it.remaining() =~= s@.skip(n as int),
            n <= s@.len(),
            n <= hi + 1,
        decreases s@.len() - n,
    {
        match it.next() {
            Some(_) => {
                proof {
                    assert(s@.skip(n as int).drop_first() =~= s@.skip(n as int + 1));
                }
                n = n + 1;
            },
            None => {
                proof {
                    assert(s@.skip(n as int).len() == 0);
                }
                return lo <= n && n <= hi;
            },
        }
    }
    false
}

/// The decimal digit characters of `n`, most significant first.
pub open spec fn spec_dec(n: nat) -> Seq<char>
    decreases n,
{
    if n < 10 {
        seq![spec_digit_char(n)]
    } else {
        spec_dec(n / 10).push(spec_digit_char(n % 10))
    }
}

/// The character for one decimal digit.
pub open spec fn spec_digit_char(d: nat) -> char {
    if d == 0 {
        '0'
    } else if d == 1 {
        '1'
    } else if d == 2 {
        '2'
    } else if d == 3 {
        '3'
    } else if d == 4 {
        '4'
    } else if d == 5 {
        '5'
    } else if d == 6 {
        '6'
    } else if d == 7 {
        '7'
    } else if d == 8 {
        '8'
    } else {
        '9'
    }
}

/// The one-character string for a decimal digit.
fn digit_str(d: u64) -> (s: &'static str)
    requires
        d < 10,
    ensures
        s@ =~= seq![spec_digit_char(d as nat)],
{
    proof {
        reveal_strlit("0");
        reveal_strlit("1");
        reveal_strlit("2");
        reveal_strlit("3");
        reveal_strlit("4");
        reveal_strlit("5");
        reveal_strlit("6");
        reveal_strlit("7");
        reveal_strlit("8");
        reveal_strlit("9");
    }
    match d {
        0 => "0",
        1 => "1",
        2 => "2",
        3 => "3",
        4 => "4",
        5 => "5",
        6 => "6",
        7 => "7",
        8 => "8",
        _ => "9",
    }
}

/// Renders `n` in decimal.
pub fn dec_string(n: u64) -> (s: String)
    ensures
        s@ == spec_dec(n as nat),
    decreases n,
{
    if n < 10 {
        let s = digit_str(n).to_owned();
        s
    } else {
        proof {
            assert(n / 10 < n) by (nonlinear_arith)
                requires
                    n >= 10,
            ;
        }
        let mut s = dec_string(n / 10);
        s.append(digit_str(n % 10));
        proof {
            assert(s@ =~= spec_dec(n as nat));
        }
        s
    }
}

/// The value of one decimal digit character.
pub open spec fn spec_digit_val(c: char) -> nat {
    if c == '0' {
        0
    } else if c == '1' {
        1
    } else if c == '2' {
        2
    } else if c == '3' {
        3
    } else if c == '4' {
        4
    } else if c == '5' {
        5
    } else if c == '6' {
        6
    } else if c == '7' {
        7
    } else if c == '8' {
        8
    } else {
        9
    }
}

/// Reads a decimal digit string back into the number it renders.
pub open spec fn spec_parse_dec(s: Seq<char>) -> nat
    decreases s.len(),
{
    if s.len() == 0 {
        0
    } else {
        spec_parse_dec(s.drop_last()) * 10 + spec_digit_val(s.last())
    }
}

/// Parsing inverts rendering: the digits of `n` read back as `n`.
pub proof fn lemma_parse_dec_round_trip(n: nat)
    ensures
        spec_parse_dec(spec_dec(n)) == n,
    decreases n,
{
    if n < 10 {
        let s = spec_dec(n);
        assert(s.drop_last() =~= Seq::<char>::empty());
        assert(spec_parse_dec(Seq::<char>::empty()) == 0);
        assert(spec_parse_dec(s) == spec_parse_dec(s.drop_last()) * 10 + spec_digit_val(s.last()));
        assert(spec_digit_val(s.last()) == n);
    } else {
        lemma_parse_dec_round_trip(n / 10);
        let s = spec_dec(n);
        assert(s.drop_last() =~= spec_dec(n / 10));
        assert(spec_parse_dec(s.drop_last()) == n / 10);
        assert(spec_digit_val(s.last()) == n % 10);
        vstd::arithmetic::div_mod::lemma_fundamental_div_mod(n as int, 10);
        assert(spec_parse_dec(s) == (n / 10) * 10 + n % 10);
    }
}

/// Rendering is injective: distinct numbers have distinct digit strings.
pub proof fn lemma_dec_injective(m: nat, n: nat)
    requires
        spec_dec(m) == spec_dec(n),
    ensures
        m == n,
{
    lemma_parse_dec_round_trip(m);
    lemma_parse_dec_round_trip(n);
}

/// Identifiers built under one prefix are injective in the counter.
pub proof fn lemma_make_id_injective(prefix: Seq<char>, m: nat, n: nat)
    requires
        spec_make_id(prefix, m) == spec_make_id(prefix, n),
    ensures
        m == n,
{
    let a = spec_make_id(prefix, m);
    let b = spec_make_id(prefix, n);
    assert(a.len() == prefix.len() + spec_dec(m).len());
    assert(b.len() == prefix.len() + spec_dec(n).len());
    assert(spec_dec(m) =~= a.subrange(prefix.len() as int, a.len() as int));
    assert(spec_dec(n) =~= b.subrange(prefix.len() as int, b.len() as int));
    lemma_dec_injective(m, n);
}

/// A fresh identifier: the given kind prefix followed by the counter in
/// decimal.
pub open spec fn spec_make_id(prefix: Seq<char>, n: nat) -> Seq<char> {
    prefix + spec_dec(n)
}

/// Builds the identifier string for counter `n` under the given prefix.
pub fn make_id(prefix: &str, n: u64) -> (s: String)
    ensures
        s@ == spec_make_id(prefix@, n as nat),
{
    let mut s = prefix.to_owned();
    let d = dec_string(n);
    s.append(d.as_str());
    s
}

} // verus!
