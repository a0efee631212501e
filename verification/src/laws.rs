//! The laws of the protocol, stated and proved once for all inputs.

use vstd::prelude::*;
use vstd::seq_lib::lemma_sorted_unique;
use crate::artifact::ProofArtifact;
use crate::evaluate::{cert_all_compliant, cert_flags, cert_stream, compliant_value,
    entry_compliant, CommittedValue};
use crate::lex::{lex_leq, lemma_lex_total_ordering};
use crate::ordering::{canonical_entries, numeric_names};
use crate::reconstruct::{recovered_flag, recovered_overall, reconstructed, verify_accepts};
use crate::types::{MaterialCertification, Threshold, VerificationResult};

verus! {

/// The canonical ordering is stable under the enumeration order of the
/// underlying mappings: two certifications whose public and private
/// mappings hold the same numeric property names, as multisets and in
/// whatever order, receive identical canonical orderings.
pub proof fn lemma_canonical_order_stable(c1: MaterialCertification, c2: MaterialCertification)
    requires
        numeric_names(c1.properties_tested.public_properties@).to_multiset() == numeric_names(
            c2.properties_tested.public_properties@,
        ).to_multiset(),
        numeric_names(c1.properties_tested.private_properties@).to_multiset() == numeric_names(
            c2.properties_tested.private_properties@,
        ).to_multiset(),
    ensures
        canonical_entries(c1) == canonical_entries(c2),
{
    lemma_lex_total_ordering();
    let leq = lex_leq();
    let pub1 = numeric_names(c1.properties_tested.public_properties@);
    let pub2 = numeric_names(c2.properties_tested.public_properties@);
    let priv1 = numeric_names(c1.properties_tested.private_properties@);
    let priv2 = numeric_names(c2.properties_tested.private_properties@);
    pub1.lemma_sort_by_ensures(leq);
    pub2.lemma_sort_by_ensures(leq);
    priv1.lemma_sort_by_ensures(leq);
    priv2.lemma_sort_by_ensures(leq);
    lemma_sorted_unique(pub1.sort_by(leq), pub2.sort_by(leq), leq);
    lemma_sorted_unique(priv1.sort_by(leq), priv2.sort_by(leq), leq);
    assert(pub1.sort_by(leq) == pub2.sort_by(leq));
    assert(priv1.sort_by(leq) == priv2.sort_by(leq));
}

/// Inclusive bounds: a value exactly equal to the minimum or the
/// maximum of its threshold is compliant.
pub proof fn lemma_boundary_compliant(v: int, t: Threshold)
    requires
        t.min <= t.max,
        v == t.min || v == t.max,
    ensures
        compliant_value(v, Some(t)),
{
}

/// A property with no threshold is compliant whatever its value.
pub proof fn lemma_missing_threshold_compliant(v: int)
    ensures
        compliant_value(v, Option::<Threshold>::None),
{
}

/// An artifact generated from a certification is accepted when verified
/// against that same certification.
pub proof fn lemma_generated_accepted(cert: MaterialCertification, a: ProofArtifact)
    requires
        a.certificate_id@ == cert.certificate_id@,
        a.public_outputs@ == cert_stream(cert),
    ensures
        verify_accepts(a, cert),
{
    let n = canonical_entries(cert).len();
    assert(a.public_outputs@[0] == CommittedValue::Flag(cert_all_compliant(cert)));
    assert forall|i: int| 1 <= i < 1 + n implies (#[trigger] a.public_outputs@[i]) is Flag by {
        assert(a.public_outputs@[i] == cert_flags(cert).map_values(
            |b: bool| CommittedValue::Flag(b),
        )[i - 1]);
    }
}

/// Round trip: after a full generate-then-verify cycle, the report's
/// per-property compliance flags agree index for index with evaluating
/// the certification directly, and its overall state is the conjunction
/// of them.
pub proof fn lemma_round_trip(
    cert: MaterialCertification,
    a: ProofArtifact,
    r: VerificationResult,
)
    requires
        a.public_outputs@ == cert_stream(cert),
        reconstructed(a, cert, r),
    ensures
        forall|i: int|
            0 <= i < canonical_entries(cert).len() ==> (#[trigger] r.properties@[i]).compliant
                == entry_compliant(cert, i),
        r.overall_compliance@ == if cert_all_compliant(cert) {
            "PASS"@
        } else {
            "FAIL"@
        },
{
    let n = canonical_entries(cert).len();
    assert(a.public_outputs@[0] == CommittedValue::Flag(cert_all_compliant(cert)));
    assert(recovered_overall(a) == cert_all_compliant(cert));
    assert forall|i: int|
        0 <= i < n implies (#[trigger] r.properties@[i]).compliant == entry_compliant(
        cert,
        i,
    ) by {
        assert(a.public_outputs@[1 + i] == cert_flags(cert).map_values(
            |b: bool| CommittedValue::Flag(b),
        )[i]);
        assert(recovered_flag(a, i) == entry_compliant(cert, i));
    }
}

/// The report is a well-defined name-keyed mapping: no property name
/// occurs twice, so no compliance flag can be attached to the wrong
/// property.
pub proof fn lemma_report_names_unique(
    a: ProofArtifact,
    cert: MaterialCertification,
    r: VerificationResult,
)
    requires
        cert.wf(),
        reconstructed(a, cert, r),
    ensures
        forall|i: int, j: int|
            0 <= i < j < r.properties@.len() ==> (#[trigger] r.properties@[i]).property@ != (
            #[trigger] r.properties@[j]).property@,
{
    crate::ordering::lemma_canonical_names_unique(cert);
    let ce = canonical_entries(cert);
    assert forall|i: int, j: int|
        0 <= i < j < r.properties@.len() implies (#[trigger] r.properties@[i]).property@ != (
    #[trigger] r.properties@[j]).property@ by {
        assert(crate::reconstruct::property_result_for(
            cert,
            i,
            recovered_flag(a, i),
            r.properties@[i],
        ));
        assert(crate::reconstruct::property_result_for(
            cert,
            j,
            recovered_flag(a, j),
            r.properties@[j],
        ));
        assert(ce[i].0 != ce[j].0);
    }
}

/// Redaction: no private property of a reconstructed report carries a
/// measured value or threshold bounds.
pub proof fn lemma_redaction(a: ProofArtifact, cert: MaterialCertification, r: VerificationResult)
    requires
        reconstructed(a, cert, r),
    ensures
        forall|i: int|
            0 <= i < r.properties@.len() && (#[trigger] r.properties@[i]).is_private
                ==> r.properties@[i].value is None && r.properties@[i].threshold is None,
{
    assert forall|i: int|
        0 <= i < r.properties@.len() && (#[trigger] r.properties@[i]).is_private implies r.properties@[i].value
        is None && r.properties@[i].threshold is None by {
        assert(crate::reconstruct::property_result_for(
            cert,
            i,
            recovered_flag(a, i),
            r.properties@[i],
        ));
    }
}

} // verus!
