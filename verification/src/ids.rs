//! Verification identifiers.
//!
//! A verification identifier carries a material-type prefix, a timestamp,
//! and a random component. The decimal rendering is verified; the case
//! folding and the random draw come from outside and are named or left
//! unconstrained.

use vstd::prelude::*;
use vstd::string::StrSliceExecFns;
use vstd::string::StringExecFns;

verus! {

/// The decimal digit character of `d`.
pub open spec fn digit_char(d: nat) -> char {
    if d == 0 {
        '0'
    } else if d == 1 {
        '1'
    } else if d == 2 {
        '2'
    } else if d == 3 {
        '3'
    } else if d == 4 {
        '4'
    } else if d == 5 {
        '5'
    } else if d == 6 {
        '6'
    } else if d == 7 {
        '7'
    } else if d == 8 {
        '8'
    } else {
        '9'
    }
}

/// The decimal rendering of `n`, most significant digit first.
pub open spec fn dec_rep(n: nat) -> Seq<char>
    decreases n,
{
    if n < 10 {
        seq![digit_char(n)]
    } else {
        dec_rep(n / 10).push(digit_char(n % 10))
    }
}

/// The decimal rendering of `n` padded with zeros to four digits.
pub open spec fn pad4(n: nat) -> Seq<char> {
    if n < 10 {
        seq!['0', '0', '0'] + dec_rep(n)
    } else if n < 100 {
        seq!['0', '0'] + dec_rep(n)
    } else if n < 1000 {
        seq!['0'] + dec_rep(n)
    } else {
        dec_rep(n)
    }
}

/// Appends the decimal digit character of `d`.
fn append_digit(out: &mut String, d: u64)
    requires
        d < 10,
    ensures
        final(out)@ == old(out)@.push(digit_char(d as nat)),
{
    let s: &str = match d {
        0 => "0",
        1 => "1",
        2 => "2",
        3 => "3",
        4 => "4",
        5 => "5",
        6 => "6",
        7 => "7",
        8 => "8",
        _ => "9",
    };
    proof {
        reveal_strlit("0");
        reveal_strlit("1");
        reveal_strlit("2");
        reveal_strlit("3");
        reveal_strlit("4");
        reveal_strlit("5");
        reveal_strlit("6");
        reveal_strlit("7");
        reveal_strlit("8");
        reveal_strlit("9");
        assert(s@ =~= seq![digit_char(d as nat)]);
    }
    out.append(s);
    proof {
        assert(final(out)@ =~= old(out)@.push(digit_char(d as nat)));
    }
}

/// Appends the decimal rendering of `n`.
pub(crate) fn append_dec(out: &mut String, n: u64)
    ensures
        final(out)@ == old(out)@ + dec_rep(n as nat),
    decreases n,
{
    if n < 10 {
        append_digit(out, n);
        proof {
            assert(old(out)@.push(digit_char(n as nat)) =~= old(out)@ + dec_rep(n as nat));
        }
    } else {
        append_dec(out, n / 10);
        append_digit(out, n % 10);
        proof {
            assert((old(out)@ + dec_rep((n / 10) as nat)).push(digit_char((n % 10) as nat))
                =~= old(out)@ + dec_rep(n as nat));
        }
    }
}

/// Appends the decimal rendering of `n` padded with zeros to four
/// digits.
fn append_dec4(out: &mut String, n: u64)
    requires
        n < 10000,
    ensures
        final(out)@ == old(out)@ + pad4(n as nat),
{
    let ghost entry = out@;
    if n < 10 {
        proof {
            reveal_strlit("000");
            assert("000"@ =~= seq!['0', '0', '0']);
        }
        out.append("000");
    } else if n < 100 {
        proof {
            reveal_strlit("00");
            assert("00"@ =~= seq!['0', '0']);
        }
        out.append("00");
    } else if n < 1000 {
        proof {
            reveal_strlit("0");
            assert("0"@ =~= seq!['0']);
        }
        out.append("0");
    }
    append_dec(out, n);
    proof {
        assert(final(out)@ =~= entry + pad4(n as nat));
    }
}

/// The name of what `str::to_uppercase` returns; it depends on the
/// characters alone.
pub uninterp spec fn upper_of(s: Seq<char>) -> Seq<char>;

/// Relies on str::to_uppercase for case folding; the result depends on
/// the input characters alone, and an empty input yields an empty
/// result.
#[verifier::external_body]
fn uppercase(s: &str) -> (r: String)
    ensures
        r@ == upper_of(s@),
        s@.len() == 0 ==> r@.len() == 0,
{
    s.to_uppercase()
}

/// Relies on rand::random for the random component of an identifier;
/// nothing is promised of the value drawn.
pub assume_specification<T>[ rand::random::<T> ]() -> (r: T)
    where
        rand::distributions::Standard: rand::distributions::Distribution<T>,
;

/// The first three characters of `s`, or all of them when it is
/// shorter.
pub open spec fn prefix3(s: Seq<char>) -> Seq<char> {
    if s.len() < 3 {
        s
    } else {
        s.take(3)
    }
}

/// Builds a verification identifier: `VER-`, the uppercased three-letter
/// material-type prefix, the timestamp, and a four-digit random
/// component, separated by hyphens.
pub fn format_verification_id(material_type: &str, timestamp: u64) -> (r: String)
    ensures
        exists|k: nat|
            k < 10000 && r@ == "VER-"@ + upper_of(prefix3(material_type@)) + "-"@ + dec_rep(
                timestamp as nat,
            ) + "-"@ + pad4(k),
{
    let len = material_type.unicode_len();
    let cut = if len < 3 {
        len
    } else {
        3
    };
    let prefix = material_type.substring_char(0, cut);
    proof {
        assert(prefix@ =~= prefix3(material_type@));
    }
    let upper = uppercase(prefix);
    let mut r = "VER-".to_owned();
    r.append(upper.as_str());
    r.append("-");
    append_dec(&mut r, timestamp);
    r.append("-");
    let draw: u16 = rand::random();
    let k = draw % 10000;
    append_dec4(&mut r, k as u64);
    proof {
        assert(r@ == "VER-"@ + upper_of(prefix3(material_type@)) + "-"@ + dec_rep(
            timestamp as nat,
        ) + "-"@ + pad4((k as u64) as nat));
    }
    r
}

} // verus!
