//! Proof orchestration.
//!
//! The orchestrator flattens a certification, runs the threshold
//! evaluation, and wraps the committed output stream into a proof
//! artifact together with a fresh identifier and a timestamp. Locating
//! the guest program image and every form of persistence are concerns of
//! the caller; the artifact itself is plain data.

use vstd::prelude::*;
use crate::evaluate::{cert_stream, commit_outputs, lemma_prepared_stream, CommittedValue};
use crate::ordering::canonical_entries;
use crate::prepare::prepare_material_data;
use crate::types::{MaterialCertification, VerificationError};

verus! {

/// A persisted proof: the ordered public outputs, an opaque payload,
/// and identifying metadata.
pub struct ProofArtifact {
    pub id: String,
    pub certificate_id: String,
    pub timestamp: String,
    pub public_outputs: Vec<CommittedValue>,
    pub proof_payload: String,
}

/// Relies on uuid::Uuid::new_v4 and its hyphenated rendering, which is
/// always 36 characters.
#[verifier::external_body]
fn new_proof_id() -> (r: String)
    ensures
        r@.len() == 36,
{
    uuid::Uuid::new_v4().to_string()
}

/// Relies on chrono::Utc::now and DateTime::to_rfc3339; the result
/// depends on the clock, so nothing is promised of it. Utc::now panics
/// if the system clock reads before the Unix epoch; having no inputs,
/// this wrapper cannot exclude that by a precondition.
#[verifier::external_body]
pub(crate) fn now_rfc3339() -> String {
    chrono::Utc::now().to_rfc3339()
}

/// Relies on chrono::Utc::now and DateTime::timestamp_millis; the result
/// depends on the clock, so nothing is promised of it. Utc::now panics
/// if the system clock reads before the Unix epoch; having no inputs,
/// this wrapper cannot exclude that by a precondition.
#[verifier::external_body]
pub(crate) fn now_unix_millis() -> i64 {
    chrono::Utc::now().timestamp_millis()
}

/// Relies on std::path::Path::exists; the result depends on the file
/// system, so nothing is promised of it.
#[verifier::external_body]
fn path_exists(path: &str) -> bool {
    std::path::Path::new(path).exists()
}

/// Looks for the guest program image among its expected locations.
///
/// Which locations hold a file depends on the machine, so success
/// cannot be promised; what is promised is that a reported path is one
/// of the expected locations, and that the only failure is the missing
/// image.
pub fn get_elf_path() -> (r: Result<String, VerificationError>)
    ensures
        r is Ok ==> (r->Ok_0@ == "/app/verification-app/elf/riscv32im-pico-zkvm-elf"@
            || r->Ok_0@ == "/app/verification-app/target/riscv32im-pico-zkvm-elf"@ || r->Ok_0@
            == "/app/verification-app/target/material-verification"@),
        r is Err ==> r->Err_0 == VerificationError::ProgramImageNotFound,
{
    let first = "/app/verification-app/elf/riscv32im-pico-zkvm-elf";
    let second = "/app/verification-app/target/riscv32im-pico-zkvm-elf";
    let third = "/app/verification-app/target/material-verification";
    if path_exists(first) {
        Ok(first.to_owned())
    } else if path_exists(second) {
        Ok(second.to_owned())
    } else if path_exists(third) {
        Ok(third.to_owned())
    } else {
        Err(VerificationError::ProgramImageNotFound)
    }
}

/// Prepares the verification circuit for a certification. The guest
/// program image is pre-built, so there is nothing to construct.
pub fn create_verification_circuit(cert: &MaterialCertification) -> (r: Result<
    (),
    VerificationError,
>)
    ensures
        r is Ok,
{
    Ok(())
}

/// Generates a proof artifact for a certification: flattens it, runs
/// the threshold evaluation, and wraps the committed outputs.
///
/// Succeeds exactly when the certification has numeric properties to
/// prove, and the artifact's public outputs are then exactly the
/// certification's committed stream.
pub fn generate_proof(cert: &MaterialCertification) -> (r: Result<ProofArtifact, VerificationError>)
    requires
        cert.wf(),
    ensures
        r is Ok <==> canonical_entries(*cert).len() > 0,
        r is Err ==> r->Err_0 == VerificationError::EmptyInput,
        r is Ok ==> r->Ok_0.public_outputs@ == cert_stream(*cert),
        r is Ok ==> r->Ok_0.certificate_id@ == cert.certificate_id@,
        r is Ok ==> r->Ok_0.id@.len() == 36,
{
    let prepared = match prepare_material_data(cert) {
        Ok(p) => p,
        Err(e) => {
            return Err(e);
        },
    };
    proof {
        lemma_prepared_stream(*cert, prepared);
    }
    let public_outputs = commit_outputs(&prepared);
    let id = new_proof_id();
    let timestamp = now_rfc3339();
    Ok(
        ProofArtifact {
            id,
            certificate_id: cert.certificate_id.clone(),
            timestamp,
            public_outputs,
            proof_payload: String::new(),
        },
    )
}

} // verus!
