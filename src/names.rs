//! Decimal numerals for the names that the expansion invents.
use vstd::prelude::*;
use vstd::string::*;

use crate::args::push_char;

verus! {

pub open spec fn digit(d: nat) -> char {
    if d == 0 {
        '0'
    } else if d == 1 {
        '1'
    } else if d == 2 {
        '2'
    } else if d == 3 {
        '3'
    } else if d == 4 {
        '4'
    } else if d == 5 {
        '5'
    } else if d == 6 {
        '6'
    } else if d == 7 {
        '7'
    } else if d == 8 {
        '8'
    } else {
        '9'
    }
}

/// `n` written in decimal, without leading zeros.
pub open spec fn decimal(n: nat) -> Seq<char>
    decreases n,
{
    if n < 10 {
        seq![digit(n)]
    } else {
        decimal(n / 10) + seq![digit(n % 10)]
    }
}

proof fn lemma_decimal_len(n: nat)
    ensures
        decimal(n).len() >= 1,
        n >= 10 ==> decimal(n).len() >= 2,
    decreases n,
{
    if n >= 10 {
        lemma_decimal_len(n / 10);
    }
}

/// Different numbers have different numerals.
pub proof fn lemma_decimal_injective(a: nat, b: nat)
    requires
        decimal(a) == decimal(b),
    ensures
        a == b,
    decreases a,
{
    lemma_decimal_len(a);
    lemma_decimal_len(b);
    let da = decimal(a);
    let db = decimal(b);
    if a < 10 && b < 10 {
        assert(da[0] == digit(a));
        assert(db[0] == digit(b));
    } else if a >= 10 && b >= 10 {
        let pa = decimal(a / 10);
        let pb = decimal(b / 10);
        assert(da[da.len() - 1] == digit(a % 10));
        assert(db[db.len() - 1] == digit(b % 10));
        assert(pa =~= da.subrange(0, da.len() - 1));
        assert(pb =~= db.subrange(0, db.len() - 1));
        lemma_decimal_injective(a / 10, b / 10);
    }
}

fn digit_char(d: usize) -> (c: char)
    requires
        d < 10,
    ensures
        c == digit(d as nat),
{
    if d == 0 {
        '0'
    } else if d == 1 {
        '1'
    } else if d == 2 {
        '2'
    } else if d == 3 {
        '3'
    } else if d == 4 {
        '4'
    } else if d == 5 {
        '5'
    } else if d == 6 {
        '6'
    } else if d == 7 {
        '7'
    } else if d == 8 {
        '8'
    } else {
        '9'
    }
}

/// Appends `n` in decimal.
pub fn push_decimal(s: &mut String, n: usize)
    ensures
        final(s)@ == old(s)@ + decimal(n as nat),
    decreases n,
{
    if n >= 10 {
        push_decimal(s, n / 10);
    }
    push_char(s, digit_char(n % 10));
}

/// `prefix` followed by `n` in decimal.
pub fn numbered(prefix: &str, n: usize) -> (r: String)
    ensures
        r@ == prefix@ + decimal(n as nat),
{
    let mut s = String::from_str(prefix);
    push_decimal(&mut s, n);
    s
}

} // verus!
