//! Selective-disclosure compliance protocol for material certifications.
//!
//! A materials-testing authority proves that a batch of measured properties
//! satisfies numeric thresholds while disclosing only a subset of the
//! measurements. The library covers the canonical ordering of property
//! names, the flattening of a certification into ordered numeric vectors,
//! the threshold evaluation that runs inside the proving environment, the
//! strict ordering of the committed public outputs, and the reconstruction
//! of a verification report with private data redacted.

use vstd::prelude::*;

pub mod artifact;
pub mod evaluate;
pub mod gateway;
pub mod ids;
pub mod laws;
pub mod lex;
pub mod ordering;
pub mod prepare;
pub mod reconstruct;
pub mod render;
pub mod types;

pub use artifact::{create_verification_circuit, generate_proof, get_elf_path, ProofArtifact};
pub use evaluate::{commit_outputs, evaluate_compliance, is_within_threshold, CommittedValue};
pub use gateway::{build_generate_response, GenerateProofResponse};
pub use ids::format_verification_id;
pub use ordering::{canonical_order, OrderedEntry};
pub use prepare::{prepare_material_data, PreparedInput};
pub use reconstruct::{error_result, process_properties, verify_proof};
pub use types::{BatchInfo, ComplianceInfo, ComplianceSummary, MaterialCertification, MaterialInfo,
    MeasuredValue, NamedProperty, PropertiesInfo, PropertyResult, PropertyValue, StandardsEntry,
    Threshold, VerificationError, VerificationInfo, VerificationResult, ZkpInfo};

verus! {

/// True when `value` lies within the inclusive range `[min, max]`.
pub fn is_within_range(value: i64, min: i64, max: i64) -> (r: bool)
    ensures
        r == (min <= value && value <= max),
{
    value >= min && value <= max
}

} // verus!
