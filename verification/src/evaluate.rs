//! Threshold evaluation and the committed output stream.
//!
//! This is the logic that executes inside the isolated proving
//! environment. For every index of the prepared vectors it checks the
//! value against its inclusive bounds; the overall result is the
//! conjunction. The public commitment stream is, in strict order: the
//! overall flag, one compliance flag per canonical index, then the raw
//! values of the public properties in the same index order. Private
//! values are never committed.

use vstd::prelude::*;
use crate::ordering::canonical_entries;
use crate::prepare::{entry_property, numeric_value, PreparedInput};
use crate::types::{MaterialCertification, Threshold};

verus! {

/// A single value of the committed public output stream.
#[derive(Clone, Copy, PartialEq, Eq, Structural, Debug)]
pub enum CommittedValue {
    Flag(bool),
    Number(i64),
}

/// Inclusive-bound compliance of a value against an optional threshold:
/// a missing threshold admits every value.
pub open spec fn compliant_value(v: int, t: Option<Threshold>) -> bool {
    match t {
        Some(th) => th.min <= v && v <= th.max,
        None => true,
    }
}

/// The vectors of `p` are aligned index for index.
pub open spec fn aligned(p: PreparedInput) -> bool {
    &&& p.values@.len() == p.min_thresholds@.len()
    &&& p.values@.len() == p.max_thresholds@.len()
    &&& p.values@.len() == p.privacy_flags@.len()
}

/// Compliance of index `i` of the prepared vectors.
pub open spec fn index_compliant(p: PreparedInput, i: int) -> bool {
    p.min_thresholds@[i] <= p.values@[i] && p.values@[i] <= p.max_thresholds@[i]
}

/// The per-index compliance flags, in canonical index order.
pub open spec fn compliance_flags(p: PreparedInput) -> Seq<bool> {
    Seq::new(p.values@.len(), |i: int| index_compliant(p, i))
}

/// The conjunction of all per-index compliance flags.
pub open spec fn all_compliant(p: PreparedInput) -> bool {
    forall|i: int| 0 <= i < p.values@.len() ==> index_compliant(p, i)
}

/// The values of the public indices, in index order.
pub open spec fn committed_public_values(values: Seq<i64>, privacy: Seq<bool>) -> Seq<i64>
    recommends
        values.len() == privacy.len(),
    decreases values.len(),
{
    if values.len() == 0 {
        Seq::empty()
    } else {
        let prefix = committed_public_values(values.drop_last(), privacy.drop_last());
        if privacy[values.len() - 1] {
            prefix
        } else {
            prefix.push(values.last())
        }
    }
}

/// The committed public output stream, in its strict order: the overall
/// flag, the per-index compliance flags, then the public values.
pub open spec fn committed_stream(p: PreparedInput) -> Seq<CommittedValue> {
    seq![CommittedValue::Flag(all_compliant(p))] + compliance_flags(p).map_values(
        |b: bool| CommittedValue::Flag(b),
    ) + committed_public_values(p.values@, p.privacy_flags@).map_values(
        |v: i64| CommittedValue::Number(v),
    )
}

/// Compliance of the property behind entry `i` of the canonical
/// ordering, evaluated directly from the certification.
pub open spec fn entry_compliant(cert: MaterialCertification, i: int) -> bool {
    let pv = entry_property(cert, i);
    compliant_value(numeric_value(pv), pv.threshold)
}

/// The measured values of a certification, in canonical index order.
pub open spec fn cert_values(cert: MaterialCertification) -> Seq<i64> {
    Seq::new(canonical_entries(cert).len(), |i: int| numeric_value(entry_property(cert, i)) as i64)
}

/// The privacy flags of a certification, in canonical index order.
pub open spec fn cert_privacy(cert: MaterialCertification) -> Seq<bool> {
    Seq::new(canonical_entries(cert).len(), |i: int| canonical_entries(cert)[i].1)
}

/// The compliance flags of a certification, in canonical index order.
pub open spec fn cert_flags(cert: MaterialCertification) -> Seq<bool> {
    Seq::new(canonical_entries(cert).len(), |i: int| entry_compliant(cert, i))
}

/// Whether every canonically ordered property of `cert` is compliant.
pub open spec fn cert_all_compliant(cert: MaterialCertification) -> bool {
    forall|i: int| 0 <= i < canonical_entries(cert).len() ==> entry_compliant(cert, i)
}

/// The committed public output stream of a certification.
pub open spec fn cert_stream(cert: MaterialCertification) -> Seq<CommittedValue> {
    seq![CommittedValue::Flag(cert_all_compliant(cert))] + cert_flags(cert).map_values(
        |b: bool| CommittedValue::Flag(b),
    ) + committed_public_values(cert_values(cert), cert_privacy(cert)).map_values(
        |v: i64| CommittedValue::Number(v),
    )
}

/// Vectors prepared from a certification commit exactly the
/// certification's own stream: the evaluation of the prepared vectors
/// agrees index for index with evaluating the certification directly.
pub proof fn lemma_prepared_stream(cert: MaterialCertification, p: PreparedInput)
    requires
        p.prepared_from(cert),
    ensures
        aligned(p),
        committed_stream(p) == cert_stream(cert),
        compliance_flags(p) == cert_flags(cert),
        all_compliant(p) == cert_all_compliant(cert),
{
    assert forall|i: int| 0 <= i < p.values@.len() implies index_compliant(p, i) == entry_compliant(
        cert,
        i,
    ) by {
        let pv = entry_property(cert, i);
        match pv.threshold {
            Some(t) => {},
            None => {
                assert(p.min_thresholds@[i] == i64::MIN as int);
                assert(p.max_thresholds@[i] == i64::MAX as int);
            },
        }
    }
    assert(compliance_flags(p) =~= cert_flags(cert));
    assert(p.values@ =~= cert_values(cert));
    assert(p.privacy_flags@ =~= cert_privacy(cert));
    assert(all_compliant(p) == cert_all_compliant(cert)) by {
        if all_compliant(p) {
            assert forall|i: int|
                0 <= i < canonical_entries(cert).len() implies entry_compliant(cert, i) by {
                assert(index_compliant(p, i));
            }
        }
        if cert_all_compliant(cert) {
            assert forall|i: int| 0 <= i < p.values@.len() implies index_compliant(p, i) by {
                assert(entry_compliant(cert, i));
            }
        }
    }
    assert(committed_stream(p) == cert_stream(cert));
}

/// Inclusive-bound check of a value against an optional threshold.
pub fn is_within_threshold(value: i64, threshold: &Option<Threshold>) -> (r: bool)
    ensures
        r == compliant_value(value as int, *threshold),
{
    match threshold {
        Some(t) => crate::is_within_range(value, t.min, t.max),
        None => true,
    }
}

/// Evaluates every prepared index against its bounds; returns the
/// overall flag and the per-index flags.
pub fn evaluate_compliance(input: &PreparedInput) -> (r: (bool, Vec<bool>))
    requires
        aligned(*input),
    ensures
        r.1@ == compliance_flags(*input),
        r.0 == all_compliant(*input),
{
    let mut all_pass = true;
    let mut flags: Vec<bool> = Vec::new();
    let mut i: usize = 0;
    while i < input.values.len()
        invariant
            aligned(*input),
            i <= input.values@.len(),
            flags@.len() == i,
            forall|j: int| 0 <= j < i ==> flags@[j] == index_compliant(*input, j),
            all_pass == (forall|j: int| 0 <= j < i ==> index_compliant(*input, j)),
        decreases input.values@.len() - i,
    {
        let compliant = crate::is_within_range(
            input.values[i],
            input.min_thresholds[i],
            input.max_thresholds[i],
        );
        flags.push(compliant);
        let ghost old_all = all_pass;
        if !compliant {
            all_pass = false;
        }
        proof {
            if old_all && compliant {
                assert forall|j: int| 0 <= j < i + 1 implies index_compliant(*input, j) by {
                    if j == i {
                        assert(index_compliant(*input, i as int));
                    }
                }
            } else if !old_all {
                assert(exists|j: int| 0 <= j < i && !index_compliant(*input, j));
                let j0 = choose|j: int| 0 <= j < i && !index_compliant(*input, j);
                assert(!index_compliant(*input, j0));
            } else {
                assert(!index_compliant(*input, i as int));
            }
        }
        i += 1;
    }
    proof {
        assert(flags@ =~= compliance_flags(*input));
    }
    (all_pass, flags)
}

/// Runs the evaluation and writes the committed output stream in its
/// strict order.
pub fn commit_outputs(input: &PreparedInput) -> (out: Vec<CommittedValue>)
    requires
        aligned(*input),
    ensures
        out@ == committed_stream(*input),
{
    let (all_pass, flags) = evaluate_compliance(input);
    let mut out: Vec<CommittedValue> = Vec::new();
    out.push(CommittedValue::Flag(all_pass));
    let ghost head = seq![CommittedValue::Flag(all_compliant(*input))];
    let mut i: usize = 0;
    while i < flags.len()
        invariant
            flags@ == compliance_flags(*input),
            i <= flags@.len(),
            out@ == head + flags@.take(i as int).map_values(|b: bool| CommittedValue::Flag(b)),
            head == seq![CommittedValue::Flag(all_compliant(*input))],
        decreases flags@.len() - i,
    {
        let ghost old_out = out@;
        out.push(CommittedValue::Flag(flags[i]));
        proof {
            assert(flags@.take(i as int + 1) =~= flags@.take(i as int).push(flags@[i as int]));
            assert(out@ =~= head + flags@.take(i as int + 1).map_values(
                |b: bool| CommittedValue::Flag(b),
            ));
        }
        i += 1;
    }
    proof {
        assert(flags@.take(flags@.len() as int) =~= flags@);
    }
    let ghost mid = head + compliance_flags(*input).map_values(|b: bool| CommittedValue::Flag(b));
    assert(out@ == mid);
    let mut k: usize = 0;
    while k < input.values.len()
        invariant
            aligned(*input),
            k <= input.values@.len(),
            mid == seq![CommittedValue::Flag(all_compliant(*input))] + compliance_flags(
                *input,
            ).map_values(|b: bool| CommittedValue::Flag(b)),
            out@ == mid + committed_public_values(
                input.values@.take(k as int),
                input.privacy_flags@.take(k as int),
            ).map_values(|v: i64| CommittedValue::Number(v)),
        decreases input.values@.len() - k,
    {
        let ghost vt = input.values@.take(k as int + 1);
        let ghost pt = input.privacy_flags@.take(k as int + 1);
        proof {
            assert(vt.drop_last() =~= input.values@.take(k as int));
            assert(pt.drop_last() =~= input.privacy_flags@.take(k as int));
            assert(vt.last() == input.values@[k as int]);
        }
        if !input.privacy_flags[k] {
            out.push(CommittedValue::Number(input.values[k]));
            proof {
                assert(committed_public_values(vt, pt) == committed_public_values(
                    vt.drop_last(),
                    pt.drop_last(),
                ).push(input.values@[k as int]));
                assert(out@ =~= mid + committed_public_values(vt, pt).map_values(
                    |v: i64| CommittedValue::Number(v),
                ));
            }
        } else {
            proof {
                assert(committed_public_values(vt, pt) == committed_public_values(
                    vt.drop_last(),
                    pt.drop_last(),
                ));
            }
        }
        k += 1;
    }
    proof {
        assert(input.values@.take(input.values@.len() as int) =~= input.values@);
        assert(input.privacy_flags@.take(input.privacy_flags@.len() as int)
            =~= input.privacy_flags@);
    }
    out
}

/// Every element of the public-value stream is the value of some public
/// index.
proof fn lemma_public_values_members(values: Seq<i64>, privacy: Seq<bool>)
    requires
        values.len() == privacy.len(),
    ensures
        forall|j: int|
            0 <= j < committed_public_values(values, privacy).len() ==> exists|i: int|
                0 <= i < values.len() && !privacy[i] && values[i] == #[trigger] committed_public_values(
                    values,
                    privacy,
                )[j],
    decreases values.len(),
{
    if values.len() > 0 {
        lemma_public_values_members(values.drop_last(), privacy.drop_last());
        let cur = committed_public_values(values, privacy);
        let prev = committed_public_values(values.drop_last(), privacy.drop_last());
        assert forall|j: int| 0 <= j < cur.len() implies exists|i: int|
            0 <= i < values.len() && !privacy[i] && values[i] == #[trigger] cur[j] by {
            if j < prev.len() {
                let i = choose|i: int|
                    0 <= i < values.drop_last().len() && !privacy.drop_last()[i]
                        && values.drop_last()[i] == prev[j];
                assert(0 <= i < values.len() && !privacy[i] && values[i] == cur[j]);
            } else {
                assert(!privacy[values.len() - 1]);
                assert(cur[j] == values[values.len() - 1]);
            }
        }
    }
}

/// The privacy guarantee of the commitment stream: every committed
/// number is the value of a public index; private values are never
/// committed.
pub proof fn lemma_no_private_value_committed(p: PreparedInput)
    requires
        aligned(p),
    ensures
        forall|j: int|
            0 <= j < committed_stream(p).len() ==> ((#[trigger] committed_stream(p)[j]) matches
                CommittedValue::Number(v) ==> exists|i: int|
                0 <= i < p.values@.len() && !p.privacy_flags@[i] && p.values@[i] == v),
{
    lemma_public_values_members(p.values@, p.privacy_flags@);
    let stream = committed_stream(p);
    let nums = committed_public_values(p.values@, p.privacy_flags@);
    assert forall|j: int| 0 <= j < stream.len() implies ((#[trigger] stream[j]) matches
        CommittedValue::Number(v) ==> exists|i: int|
        0 <= i < p.values@.len() && !p.privacy_flags@[i] && p.values@[i] == v) by {
        let head_len = 1 + compliance_flags(p).len();
        if j >= head_len {
            assert(stream[j] == nums.map_values(|v: i64| CommittedValue::Number(v))[j - head_len]);
            assert(exists|i: int|
                0 <= i < p.values@.len() && !p.privacy_flags@[i] && p.values@[i] == nums[j
                    - head_len]);
        }
    }
}

} // verus!
