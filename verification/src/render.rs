//! JSON rendering of the committed public-output stream.
//!
//! The verification report's `public_signals` field carries the
//! artifact's ordered public outputs as a JSON array: `true`/`false`
//! for the committed flags, signed decimal integers for the committed
//! fixed-point values. The rendering is verified against its spec
//! character for character.

use vstd::prelude::*;
use vstd::string::StringExecFns;
use crate::evaluate::CommittedValue;
use crate::ids::{append_dec, dec_rep};

verus! {

/// The decimal rendering of an integer, with a sign when negative.
pub open spec fn int_rep(v: int) -> Seq<char> {
    if v < 0 {
        seq!['-'] + dec_rep((-v) as nat)
    } else {
        dec_rep(v as nat)
    }
}

/// The JSON rendering of one committed value.
pub open spec fn cv_json(cv: CommittedValue) -> Seq<char> {
    match cv {
        CommittedValue::Flag(b) => if b {
            "true"@
        } else {
            "false"@
        },
        CommittedValue::Number(v) => int_rep(v as int),
    }
}

/// The comma-separated renderings of the values.
pub open spec fn json_items(s: Seq<CommittedValue>) -> Seq<char>
    decreases s.len(),
{
    if s.len() == 0 {
        Seq::empty()
    } else if s.len() == 1 {
        cv_json(s[0])
    } else {
        json_items(s.drop_last()) + seq![','] + cv_json(s.last())
    }
}

/// The JSON array of a committed output stream.
pub open spec fn stream_json(s: Seq<CommittedValue>) -> Seq<char> {
    seq!['['] + json_items(s) + seq![']']
}

/// Appends the signed decimal rendering of `v`.
fn append_int(out: &mut String, v: i64)
    ensures
        final(out)@ == old(out)@ + int_rep(v as int),
{
    if v < 0 {
        proof {
            reveal_strlit("-");
            assert("-"@ =~= seq!['-']);
        }
        out.append("-");
        let partial: i64 = -(v + 1);
        let magnitude: u64 = (partial as u64) + 1;
        append_dec(out, magnitude);
        proof {
            assert(magnitude as nat == (-(v as int)) as nat);
            assert(final(out)@ =~= old(out)@ + int_rep(v as int));
        }
    } else {
        append_dec(out, v as u64);
    }
}

/// Renders a committed output stream as a JSON array.
pub fn render_stream(outputs: &Vec<CommittedValue>) -> (r: String)
    ensures
        r@ == stream_json(outputs@),
{
    let mut r = "[".to_owned();
    proof {
        reveal_strlit("[");
        assert(r@ =~= seq!['['] + json_items(outputs@.take(0)));
    }
    let mut i: usize = 0;
    while i < outputs.len()
        invariant
            i <= outputs@.len(),
            r@ == seq!['['] + json_items(outputs@.take(i as int)),
        decreases outputs@.len() - i,
    {
        if i > 0 {
            proof {
                reveal_strlit(",");
                assert(","@ =~= seq![',']);
            }
            r.append(",");
        }
        match outputs[i] {
            CommittedValue::Flag(b) => {
                if b {
                    r.append("true");
                } else {
                    r.append("false");
                }
            },
            CommittedValue::Number(v) => {
                append_int(&mut r, v);
            },
        }
        proof {
            let t1 = outputs@.take(i as int + 1);
            assert(t1.drop_last() =~= outputs@.take(i as int));
            assert(t1.last() == outputs@[i as int]);
            if i == 0 {
                assert(json_items(t1) == cv_json(outputs@[0]));
            } else {
                assert(json_items(t1) == json_items(outputs@.take(i as int)) + seq![','] + cv_json(
                    outputs@[i as int],
                ));
            }
            assert(r@ =~= seq!['['] + json_items(t1));
        }
        i += 1;
    }
    proof {
        assert(outputs@.take(outputs@.len() as int) =~= outputs@);
        reveal_strlit("]");
        assert("]"@ =~= seq![']']);
    }
    r.append("]");
    proof {
        assert(r@ =~= stream_json(outputs@));
    }
    r
}

} // verus!
