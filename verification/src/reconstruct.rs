//! Reconstruction of the verification report.
//!
//! The reconstructor recovers the overall flag and the per-index
//! compliance flags from a proof artifact's public outputs, recomputes
//! the canonical ordering from the supplied certification, and zips the
//! two by index. Public properties carry their value and threshold into
//! the report; private properties are redacted. Every structural
//! failure — a missing artifact, a malformed output stream, a flag count
//! that does not match the canonical ordering, or a certification that
//! does not correspond to the artifact — yields the canonical
//! ERROR-shaped report instead of an exception.

use vstd::prelude::*;
use vstd::string::StringExecFns;
use crate::artifact::{now_unix_millis, ProofArtifact};
use crate::evaluate::CommittedValue;
use crate::ordering::{canonical_entries, canonical_order, OrderedEntry};
use crate::prepare::{entry_property, find_property, lemma_canonical_entry_lookup};
use crate::types::{ComplianceSummary, MaterialCertification, MeasuredValue, PropertyResult,
    VerificationResult, ZkpInfo};

verus! {

/// The boolean carried by a committed flag.
pub open spec fn flag_of(cv: CommittedValue) -> bool {
    match cv {
        CommittedValue::Flag(b) => b,
        CommittedValue::Number(_) => false,
    }
}

/// The artifact was generated from the supplied certification.
pub open spec fn artifact_matches(a: ProofArtifact, cert: MaterialCertification) -> bool {
    a.certificate_id@ == cert.certificate_id@
}

/// The artifact's public outputs carry an overall flag and one
/// compliance flag per entry of the certification's canonical ordering.
pub open spec fn artifact_aligned(a: ProofArtifact, cert: MaterialCertification) -> bool {
    let n = canonical_entries(cert).len();
    &&& a.public_outputs@.len() >= 1 + n
    &&& a.public_outputs@[0] is Flag
    &&& forall|i: int| 1 <= i < 1 + n ==> (#[trigger] a.public_outputs@[i]) is Flag
}

/// Verification accepts the pair exactly when the artifact matches the
/// certification and is aligned to its canonical ordering.
pub open spec fn verify_accepts(a: ProofArtifact, cert: MaterialCertification) -> bool {
    artifact_matches(a, cert) && artifact_aligned(a, cert)
}

/// The overall compliance flag recovered from the artifact.
pub open spec fn recovered_overall(a: ProofArtifact) -> bool {
    flag_of(a.public_outputs@[0])
}

/// The compliance flag of canonical index `i` recovered from the
/// artifact.
pub open spec fn recovered_flag(a: ProofArtifact, i: int) -> bool {
    flag_of(a.public_outputs@[1 + i])
}

/// The report entry of canonical index `i`: named after the entry,
/// carrying the recovered flag; a public property shows its value and
/// threshold, a private one is redacted.
pub open spec fn property_result_for(
    cert: MaterialCertification,
    i: int,
    flag: bool,
    pr: PropertyResult,
) -> bool {
    let e = canonical_entries(cert)[i];
    &&& pr.property@ == e.0
    &&& pr.is_private == e.1
    &&& pr.compliant == flag
    &&& e.1 ==> pr.value is None && pr.threshold is None
    &&& !e.1 ==> pr.value == Some(entry_property(cert, i).value->Number_0) && pr.threshold
        == entry_property(cert, i).threshold
}

/// The number of private entries of a report.
pub open spec fn private_count(props: Seq<PropertyResult>) -> int {
    props.filter(|p: PropertyResult| p.is_private).len() as int
}

/// The number of public entries of a report.
pub open spec fn public_count(props: Seq<PropertyResult>) -> int {
    props.filter(|p: PropertyResult| !p.is_private).len() as int
}

/// The number of compliant entries of a report.
pub open spec fn passing_count(props: Seq<PropertyResult>) -> int {
    props.filter(|p: PropertyResult| p.compliant).len() as int
}

/// The summary counts the report's entries: every property is public or
/// private, and every property passes or fails.
pub open spec fn summary_of(s: ComplianceSummary, props: Seq<PropertyResult>) -> bool {
    &&& s.total_properties == props.len()
    &&& s.public_properties == public_count(props)
    &&& s.private_properties == private_count(props)
    &&& s.passing_properties == passing_count(props)
    &&& s.failing_properties == props.len() - passing_count(props)
}

/// The canonical ERROR-shaped report: the explicit third state besides
/// PASS and FAIL. All counts are zero and the proof is not verified.
pub open spec fn error_shaped(r: VerificationResult) -> bool {
    &&& r.overall_compliance@ == "ERROR"@
    &&& r.properties@.len() == 0
    &&& r.compliance_summary.total_properties == 0
    &&& r.compliance_summary.public_properties == 0
    &&& r.compliance_summary.private_properties == 0
    &&& r.compliance_summary.passing_properties == 0
    &&& r.compliance_summary.failing_properties == 0
    &&& !r.zkp_info.implemented
    &&& !r.zkp_info.verified
}

/// A successfully reconstructed report: identity fields from the
/// certification, the overall state from the artifact's first output,
/// one entry per canonical index carrying the recovered flag, and a
/// summary that counts them.
pub open spec fn reconstructed(
    a: ProofArtifact,
    cert: MaterialCertification,
    r: VerificationResult,
) -> bool {
    let ce = canonical_entries(cert);
    &&& r.material_id@ == cert.certificate_id@
    &&& r.material_type@ == cert.material.material_type@
    &&& r.standard@ == cert.material.designation@
    &&& r.overall_compliance@ == if recovered_overall(a) {
        "PASS"@
    } else {
        "FAIL"@
    }
    &&& r.properties@.len() == ce.len()
    &&& forall|i: int|
        0 <= i < ce.len() ==> property_result_for(
            cert,
            i,
            recovered_flag(a, i),
            #[trigger] r.properties@[i],
        )
    &&& summary_of(r.compliance_summary, r.properties@)
    &&& r.zkp_info.implemented
    &&& r.zkp_info.verified
    &&& r.zkp_info.proof_type@ == "Pico zkVM Proof"@
    &&& r.zkp_info.circuit@ == "material_verifier_zkvm"@
    &&& r.zkp_info.proof_reference@ == "pico-zkvm-proof-"@ + r.verification_id@
    &&& r.zkp_info.public_signals@ == crate::render::stream_json(a.public_outputs@)
    &&& exists|t: nat, k: nat|
        k < 65536 && r.verification_id@ == "VER-PICO-"@ + crate::ids::dec_rep(t) + "-"@
            + crate::ids::dec_rep(k)
}

/// Splitting a report by privacy and by outcome partitions it.
proof fn lemma_count_partition(props: Seq<PropertyResult>)
    ensures
        private_count(props) + public_count(props) == props.len(),
        0 <= passing_count(props) <= props.len(),
        0 <= private_count(props) <= props.len(),
        0 <= public_count(props) <= props.len(),
    decreases props.len(),
{
    reveal(Seq::filter);
    if props.len() > 0 {
        lemma_count_partition(props.drop_last());
    }
}

/// Re-attaches recovered compliance flags to the canonically ordered
/// properties, redacting the private ones.
pub fn process_properties(cert: &MaterialCertification, compliance_results: &Vec<bool>) -> (r: Vec<
    PropertyResult,
>)
    requires
        cert.wf(),
        compliance_results@.len() == canonical_entries(*cert).len(),
    ensures
        r@.len() == canonical_entries(*cert).len(),
        forall|i: int|
            0 <= i < r@.len() ==> property_result_for(
                *cert,
                i,
                compliance_results@[i],
                #[trigger] r@[i],
            ),
{
    let entries = canonical_order(cert);
    let ghost ce = canonical_entries(*cert);
    let mut r: Vec<PropertyResult> = Vec::new();
    let mut i: usize = 0;
    while i < entries.len()
        invariant
            cert.wf(),
            entries@.map_values(|e: OrderedEntry| e.view_pair()) == ce,
            ce == canonical_entries(*cert),
            compliance_results@.len() == ce.len(),
            i <= entries@.len(),
            r@.len() == i,
            forall|j: int|
                0 <= j < i ==> property_result_for(
                    *cert,
                    j,
                    compliance_results@[j],
                    #[trigger] r@[j],
                ),
        decreases entries@.len() - i,
    {
        proof {
            assert(entries@.map_values(|e: OrderedEntry| e.view_pair())[i as int] == ce[i as int]);
            lemma_canonical_entry_lookup(*cert, i as int);
        }
        let is_private = entries[i].is_private;
        let name = entries[i].name.clone();
        let compliant = compliance_results[i];
        if is_private {
            r.push(
                PropertyResult { property: name, value: None, threshold: None, compliant, is_private },
            );
        } else {
            let props = &cert.properties_tested.public_properties;
            match find_property(props, &entries[i].name) {
                Some(pv) => {
                    proof {
                        assert(*pv == entry_property(*cert, i as int));
                    }
                    let value = match pv.value {
                        MeasuredValue::Number(v) => Some(v),
                        MeasuredValue::Other => {
                            // Unreachable: the canonical ordering only
                            // names numeric properties.
                            proof {
                                assert(false);
                            }
                            None
                        },
                    };
                    r.push(
                        PropertyResult {
                            property: name,
                            value,
                            threshold: pv.threshold,
                            compliant,
                            is_private,
                        },
                    );
                },
                None => {
                    // Unreachable: every canonical entry names a
                    // property of its mapping.
                    proof {
                        assert(false);
                    }
                },
            }
        }
        i += 1;
    }
    r
}

/// Counts a report's entries by privacy and by outcome.
fn summarize(props: &Vec<PropertyResult>) -> (s: ComplianceSummary)
    ensures
        summary_of(s, props@),
        s.total_properties == s.public_properties + s.private_properties,
{
    let mut public_properties: usize = 0;
    let mut private_properties: usize = 0;
    let mut passing_properties: usize = 0;
    let mut i: usize = 0;
    proof {
        reveal(Seq::filter);
        assert(props@.take(0) =~= Seq::<PropertyResult>::empty());
    }
    while i < props.len()
        invariant
            i <= props@.len(),
            public_properties == public_count(props@.take(i as int)),
            private_properties == private_count(props@.take(i as int)),
            passing_properties == passing_count(props@.take(i as int)),
            public_properties <= i,
            private_properties <= i,
            passing_properties <= i,
        decreases props@.len() - i,
    {
        let ghost prefix = props@.take(i as int);
        let ghost next = props@.take(i as int + 1);
        proof {
            reveal(Seq::filter);
            assert(next.drop_last() =~= prefix);
            assert(next.last() == props@[i as int]);
        }
        if props[i].is_private {
            private_properties = private_properties + 1;
        } else {
            public_properties = public_properties + 1;
        }
        if props[i].compliant {
            passing_properties = passing_properties + 1;
        }
        i += 1;
    }
    proof {
        assert(props@.take(props@.len() as int) =~= props@);
        lemma_count_partition(props@);
    }
    let total_properties = props.len();
    let failing_properties = total_properties - passing_properties;
    ComplianceSummary {
        total_properties,
        public_properties,
        private_properties,
        passing_properties,
        failing_properties,
    }
}

/// Builds the canonical ERROR-shaped report.
pub fn error_result(
    material_id: String,
    material_type: String,
    standard: String,
    timestamp: String,
) -> (r: VerificationResult)
    ensures
        error_shaped(r),
        r.material_id@ == material_id@,
        r.material_type@ == material_type@,
        r.standard@ == standard@,
        r.timestamp@ == timestamp@,
        r.verification_id@ == "error"@,
        r.compliance_summary.total_properties == r.compliance_summary.public_properties
            + r.compliance_summary.private_properties,
{
    VerificationResult {
        material_id,
        material_type,
        standard,
        timestamp,
        verification_id: "error".to_owned(),
        overall_compliance: "ERROR".to_owned(),
        properties: Vec::new(),
        compliance_summary: ComplianceSummary {
            total_properties: 0,
            public_properties: 0,
            private_properties: 0,
            passing_properties: 0,
            failing_properties: 0,
        },
        zkp_info: ZkpInfo {
            implemented: false,
            proof_type: String::new(),
            circuit: String::new(),
            proof_reference: String::new(),
            public_signals: String::new(),
            verified: false,
        },
    }
}

/// Recovers the per-index compliance flags of the artifact, checking
/// that the stream is aligned to `n` canonical entries.
fn recover_flags(a: &ProofArtifact, n: usize) -> (r: Option<(bool, Vec<bool>)>)
    ensures
        match r {
            Some(rec) => {
                &&& a.public_outputs@.len() >= 1 + n
                &&& a.public_outputs@[0] is Flag
                &&& (forall|i: int| 1 <= i < 1 + n ==> (#[trigger] a.public_outputs@[i]) is Flag)
                &&& rec.0 == recovered_overall(*a)
                &&& rec.1@.len() == n
                &&& forall|i: int| 0 <= i < n ==> rec.1@[i] == recovered_flag(*a, i)
            },
            None => !(a.public_outputs@.len() >= 1 + n && a.public_outputs@[0] is Flag && forall|
                i: int,
            | 1 <= i < 1 + n ==> (#[trigger] a.public_outputs@[i]) is Flag),
        },
{
    if a.public_outputs.len() == 0 || a.public_outputs.len() - 1 < n {
        return None;
    }
    let overall = match a.public_outputs[0] {
        CommittedValue::Flag(b) => b,
        CommittedValue::Number(_) => {
            return None;
        },
    };
    let mut flags: Vec<bool> = Vec::new();
    let mut i: usize = 0;
    while i < n
        invariant
            a.public_outputs@.len() >= 1 + n,
            i <= n,
            flags@.len() == i,
            forall|j: int| 1 <= j < 1 + i ==> (#[trigger] a.public_outputs@[j]) is Flag,
            forall|j: int| 0 <= j < i ==> flags@[j] == recovered_flag(*a, j),
        decreases n - i,
    {
        match a.public_outputs[1 + i] {
            CommittedValue::Flag(b) => {
                flags.push(b);
            },
            CommittedValue::Number(_) => {
                return None;
            },
        }
        i += 1;
    }
    Some((overall, flags))
}

/// Verifies a proof artifact against a certification and reconstructs
/// the report.
///
/// A missing artifact, a stream that does not carry one flag per
/// canonical entry, or a certification that does not correspond to the
/// artifact yields the ERROR-shaped report; otherwise the report
/// carries PASS or FAIL from the artifact's first output, one entry per
/// canonical index, and a summary that counts them. In every case the
/// summary's total is the sum of its public and private counts.
pub fn verify_proof(artifact: Option<&ProofArtifact>, cert: &MaterialCertification) -> (r:
    VerificationResult)
    requires
        cert.wf(),
    ensures
        r.compliance_summary.total_properties == r.compliance_summary.public_properties
            + r.compliance_summary.private_properties,
        match artifact {
            Some(a) => {
                &&& verify_accepts(*a, *cert) ==> reconstructed(*a, *cert, r)
                &&& !verify_accepts(*a, *cert) ==> error_shaped(r)
            },
            None => error_shaped(r),
        },
        error_shaped(r) || (artifact matches Some(a) && verify_accepts(*a, *cert)),
{
    let timestamp = crate::artifact::now_rfc3339();
    let a = match artifact {
        Some(a) => a,
        None => {
            return error_result(
                cert.certificate_id.clone(),
                cert.material.material_type.clone(),
                cert.material.designation.clone(),
                timestamp,
            );
        },
    };
    if !a.certificate_id.eq(&cert.certificate_id) {
        return error_result(
            cert.certificate_id.clone(),
            cert.material.material_type.clone(),
            cert.material.designation.clone(),
            timestamp,
        );
    }
    let entries = canonical_order(cert);
    let n = entries.len();
    proof {
        assert(entries@.len() == canonical_entries(*cert).len());
    }
    let (overall, flags) = match recover_flags(a, n) {
        Some(rec) => rec,
        None => {
            return error_result(
                cert.certificate_id.clone(),
                cert.material.material_type.clone(),
                cert.material.designation.clone(),
                timestamp,
            );
        },
    };
    let properties = process_properties(cert, &flags);
    let compliance_summary = summarize(&properties);
    let millis = now_unix_millis();
    let millis_part: u64 = if millis >= 0 {
        millis as u64
    } else {
        0
    };
    let mut verification_id = "VER-PICO-".to_owned();
    crate::ids::append_dec(&mut verification_id, millis_part);
    verification_id.append("-");
    let draw: u16 = rand::random();
    crate::ids::append_dec(&mut verification_id, draw as u64);
    proof {
        assert(verification_id@ == "VER-PICO-"@ + crate::ids::dec_rep(millis_part as nat) + "-"@
            + crate::ids::dec_rep((draw as u64) as nat));
    }
    let mut proof_reference = "pico-zkvm-proof-".to_owned();
    proof_reference.append(verification_id.as_str());
    let overall_compliance = if overall {
        "PASS".to_owned()
    } else {
        "FAIL".to_owned()
    };
    VerificationResult {
        material_id: cert.certificate_id.clone(),
        material_type: cert.material.material_type.clone(),
        standard: cert.material.designation.clone(),
        timestamp,
        verification_id,
        overall_compliance,
        properties,
        compliance_summary,
        zkp_info: ZkpInfo {
            implemented: true,
            proof_type: "Pico zkVM Proof".to_owned(),
            circuit: "material_verifier_zkvm".to_owned(),
            proof_reference,
            public_signals: crate::render::render_stream(&a.public_outputs),
            verified: true,
        },
    }
}

} // verus!
