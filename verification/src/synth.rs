//! Synthetic identifiers for anonymous default exports.
//!
//! An anonymous `export default class { ... }` or
//! `export default function () { ... }` has no name under which a separate
//! `exports.default = ...;` assignment could reference it, so the pass
//! synthesizes `default_N`, where `N` counts the anonymous defaults of that
//! declaration kind seen so far in the module.

use vstd::prelude::*;
use vstd::arithmetic::div_mod::lemma_fundamental_div_mod;

verus! {

/// The decimal digit character for `d`.
pub open spec fn digit_char(d: nat) -> char {
    if d == 0 {
        '0'
    } else if d == 1 {
        '1'
    } else if d == 2 {
        '2'
    } else if d == 3 {
        '3'
    } else if d == 4 {
        '4'
    } else if d == 5 {
        '5'
    } else if d == 6 {
        '6'
    } else if d == 7 {
        '7'
    } else if d == 8 {
        '8'
    } else {
        '9'
    }
}

/// The decimal digits of `n`, most significant first.
pub open spec fn spec_digits(n: nat) -> Seq<char>
    decreases n,
{
    if n < 10 {
        seq![digit_char(n)]
    } else {
        spec_digits(n / 10).push(digit_char(n % 10))
    }
}

/// The synthetic identifier `default_<n>`.
pub open spec fn synth_name(n: nat) -> Seq<char> {
    "default_"@ + spec_digits(n)
}

fn digit_str(d: usize) -> (r: &'static str)
    requires
        d < 10,
    ensures
        r@.len() == 1,
        r@[0] == digit_char(d as nat),
{
    proof {
        reveal_strlit("0");
        reveal_strlit("1");
        reveal_strlit("2");
        reveal_strlit("3");
        reveal_strlit("4");
        reveal_strlit("5");
        reveal_strlit("6");
        reveal_strlit("7");
        reveal_strlit("8");
        reveal_strlit("9");
    }
    match d {
        0 => "0",
        1 => "1",
        2 => "2",
        3 => "3",
        4 => "4",
        5 => "5",
        6 => "6",
        7 => "7",
        8 => "8",
        _ => "9",
    }
}

/// The decimal representation of `n`.
pub fn decimal_digits(n: usize) -> (s: String)
    ensures
        s@ == spec_digits(n as nat),
    decreases n,
{
    if n < 10 {
        let s = String::from_str(digit_str(n));
        proof {
            assert(s@ =~= spec_digits(n as nat));
        }
        s
    } else {
        let mut s = decimal_digits(n / 10);
        s.append(digit_str(n % 10));
        proof {
            assert(s@ =~= spec_digits(n as nat));
        }
        s
    }
}

/// The synthetic identifier `default_<n>` as a string.
pub fn synth_default_name(n: usize) -> (s: String)
    ensures
        s@ == synth_name(n as nat),
{
    let mut s = String::from_str("default_");
    let d = decimal_digits(n);
    s.append(d.as_str());
    s
}

/// Distinct digits print as distinct characters.
proof fn lemma_digit_char_injective(a: nat, b: nat)
    requires
        a < 10,
        b < 10,
        a != b,
    ensures
        digit_char(a) != digit_char(b),
{
}

/// A one-digit number prints in one character, a larger one in more.
proof fn lemma_spec_digits_len(n: nat)
    ensures
        spec_digits(n).len() >= 1,
        (n < 10) <==> (spec_digits(n).len() == 1),
    decreases n,
{
    if n >= 10 {
        lemma_spec_digits_len(n / 10);
    }
}

/// Distinct numbers have distinct decimal representations.
pub proof fn lemma_spec_digits_injective(a: nat, b: nat)
    requires
        a != b,
    ensures
        spec_digits(a) != spec_digits(b),
    decreases a + b,
{
    if a < 10 && b < 10 {
        lemma_digit_char_injective(a, b);
        assert(spec_digits(a)[0] != spec_digits(b)[0]);
    } else if a < 10 || b < 10 {
        lemma_spec_digits_len(a);
        lemma_spec_digits_len(b);
    } else {
        let da = spec_digits(a / 10);
        let db = spec_digits(b / 10);
        let ca = digit_char(a % 10);
        let cb = digit_char(b % 10);
        if a % 10 != b % 10 {
            lemma_digit_char_injective(a % 10, b % 10);
            assert(spec_digits(a).last() == ca);
            assert(spec_digits(b).last() == cb);
        } else {
            lemma_fundamental_div_mod(a as int, 10);
            lemma_fundamental_div_mod(b as int, 10);
            assert(a / 10 != b / 10);
            lemma_spec_digits_injective(a / 10, b / 10);
            if spec_digits(a) == spec_digits(b) {
                assert(da.push(ca).drop_last() =~= da);
                assert(db.push(cb).drop_last() =~= db);
                assert(da == db);
            }
        }
    }
}

/// Distinct counters give distinct synthetic identifiers.
pub proof fn lemma_synth_name_injective(a: nat, b: nat)
    requires
        a != b,
    ensures
        synth_name(a) != synth_name(b),
{
    lemma_spec_digits_injective(a, b);
    if synth_name(a) == synth_name(b) {
        let p = "default_"@;
        let da = spec_digits(a);
        let db = spec_digits(b);
        assert((p + da).len() == (p + db).len());
        assert(da.len() == db.len());
        assert(da =~= db) by {
            assert forall|i: int| 0 <= i < da.len() implies da[i] == db[i] by {
                assert((p + da)[p.len() + i] == da[i]);
                assert((p + db)[p.len() + i] == db[i]);
            }
        }
    }
}

} // verus!
