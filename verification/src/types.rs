//! Data model of the compliance protocol.
//!
//! Measured values and threshold bounds are fixed-point integers: a caller
//! picks one scale (for example tenths of a unit) and uses it consistently
//! for every value and bound of a certification. A property whose measured
//! value is not numeric is carried as [`MeasuredValue::Other`] and excluded
//! from the canonical ordering and from evaluation.
//!
//! The name-keyed mappings of a certification are held as vectors of named
//! entries whose names are unique; enumeration order of these vectors is
//! never semantically meaningful.

use vstd::prelude::*;

verus! {

/// Inclusive numeric bounds on a measured property.
#[derive(Clone, Copy, PartialEq, Eq, Structural, Debug)]
pub struct Threshold {
    pub min: i64,
    pub max: i64,
}

/// A measured value: a fixed-point number, or anything non-numeric.
#[derive(Clone, Copy, PartialEq, Eq, Structural, Debug)]
pub enum MeasuredValue {
    Number(i64),
    Other,
}

/// One tested property of a certification.
pub struct PropertyValue {
    pub value: MeasuredValue,
    pub unit: Option<String>,
    pub threshold: Option<Threshold>,
    /// Caller-asserted and not trusted by the protocol.
    pub passed: bool,
}

/// An entry of a name-keyed property mapping.
pub struct NamedProperty {
    pub name: String,
    pub value: PropertyValue,
}

/// An entry of the property-to-standards mapping.
pub struct StandardsEntry {
    pub name: String,
    pub standards: Vec<String>,
}

/// The tested properties of a certification, split into a public and a
/// private mapping, plus the informational standards mapping.
pub struct PropertiesInfo {
    pub public_properties: Vec<NamedProperty>,
    pub private_properties: Vec<NamedProperty>,
    pub property_standards_mapping: Vec<StandardsEntry>,
}

/// Identity of the certified material.
pub struct MaterialInfo {
    pub material_type: String,
    pub designation: String,
    pub grade: String,
    pub shape: Option<String>,
    pub manufacturer: String,
    pub manufacturer_location: String,
}

/// Production data of the certified batch.
pub struct BatchInfo {
    pub production_date: String,
    pub expiration_date: Option<String>,
    pub quantity: u32,
    pub units: String,
}

/// An informational compliance record; not evaluated by the protocol.
pub struct ComplianceInfo {
    pub standard: String,
    pub clause: String,
    pub result: String,
}

/// Provenance metadata of a certification.
pub struct VerificationInfo {
    pub test_report_number: String,
    pub laboratory: String,
    pub test_date: String,
    pub certified_by: String,
}

/// The immutable input document of the protocol.
pub struct MaterialCertification {
    pub certificate_id: String,
    pub batch_number: String,
    pub material: MaterialInfo,
    pub batch: BatchInfo,
    pub properties_tested: PropertiesInfo,
    pub compliance: Vec<ComplianceInfo>,
    pub verified_by: VerificationInfo,
}

/// The outcome reported for one property. For a private property the
/// value and the threshold are absent: that absence is the redaction of
/// the protocol, and the raw data never reaches the report.
pub struct PropertyResult {
    pub property: String,
    pub value: Option<i64>,
    pub threshold: Option<Threshold>,
    pub compliant: bool,
    pub is_private: bool,
}

/// The counts of the verification report.
#[derive(Clone, Copy, PartialEq, Eq, Structural, Debug)]
pub struct ComplianceSummary {
    pub total_properties: usize,
    pub public_properties: usize,
    pub private_properties: usize,
    pub passing_properties: usize,
    pub failing_properties: usize,
}

/// Proof metadata attached to a verification report.
pub struct ZkpInfo {
    pub implemented: bool,
    pub proof_type: String,
    pub circuit: String,
    pub proof_reference: String,
    pub public_signals: String,
    pub verified: bool,
}

/// The verification report: one entry per canonically ordered property,
/// a summary, and proof metadata. Built fresh per verification call and
/// never mutated.
pub struct VerificationResult {
    pub material_id: String,
    pub material_type: String,
    pub standard: String,
    pub timestamp: String,
    pub verification_id: String,
    pub overall_compliance: String,
    pub properties: Vec<PropertyResult>,
    pub compliance_summary: ComplianceSummary,
    pub zkp_info: ZkpInfo,
}

/// The failure modes of the protocol.
#[derive(Clone, Copy, PartialEq, Eq, Structural, Debug)]
pub enum VerificationError {
    /// The certification could not be read or is malformed.
    Input,
    /// The canonical ordering is empty: there is nothing to prove.
    EmptyInput,
    /// The guest program image could not be located.
    ProgramImageNotFound,
    /// The prepared input could not be serialized for the backend.
    Serialization,
    /// The proving backend failed.
    BackendProving,
    /// The proof artifact could not be read or written.
    ArtifactIo,
    /// The proof artifact is malformed.
    ArtifactParse,
    /// The committed compliance flags do not match the canonical ordering.
    Alignment,
    /// The certification does not correspond to the artifact.
    CertificationMismatch,
}

/// The wording of each failure mode.
pub open spec fn error_message(e: VerificationError) -> Seq<char> {
    match e {
        VerificationError::Input => "the certification is malformed"@,
        VerificationError::EmptyInput => "the certification has no numeric properties to prove"@,
        VerificationError::ProgramImageNotFound => "the guest program image was not found"@,
        VerificationError::Serialization => "the prepared input could not be serialized"@,
        VerificationError::BackendProving => "the proving backend failed"@,
        VerificationError::ArtifactIo => "the proof artifact is unreadable"@,
        VerificationError::ArtifactParse => "the proof artifact is malformed"@,
        VerificationError::Alignment => "the committed flags do not match the canonical ordering"@,
        VerificationError::CertificationMismatch => "the certification does not correspond to the artifact"@,
    }
}

impl VerificationError {
    /// The wording of this failure mode.
    pub fn message(&self) -> (m: String)
        ensures
            m@ == error_message(*self),
    {
        match self {
            VerificationError::Input => "the certification is malformed".to_owned(),
            VerificationError::EmptyInput => {
                "the certification has no numeric properties to prove".to_owned()
            },
            VerificationError::ProgramImageNotFound => {
                "the guest program image was not found".to_owned()
            },
            VerificationError::Serialization => {
                "the prepared input could not be serialized".to_owned()
            },
            VerificationError::BackendProving => "the proving backend failed".to_owned(),
            VerificationError::ArtifactIo => "the proof artifact is unreadable".to_owned(),
            VerificationError::ArtifactParse => "the proof artifact is malformed".to_owned(),
            VerificationError::Alignment => {
                "the committed flags do not match the canonical ordering".to_owned()
            },
            VerificationError::CertificationMismatch => {
                "the certification does not correspond to the artifact".to_owned()
            },
        }
    }
}

/// Every name occurs at most once in `props`.
pub open spec fn unique_names(props: Seq<NamedProperty>) -> bool {
    forall|i: int, j: int|
        0 <= i < j < props.len() ==> props[i].name@ != props[j].name@
}

/// A name occurs in `props`.
pub open spec fn has_name(props: Seq<NamedProperty>, name: Seq<char>) -> bool {
    exists|i: int| 0 <= i < props.len() && props[i].name@ == name
}

impl PropertiesInfo {
    /// Well-formedness: names are unique within each mapping, and no name
    /// is both public and private, so that the report's name-keyed mapping
    /// of per-property results is well defined.
    pub open spec fn wf(self) -> bool {
        &&& unique_names(self.public_properties@)
        &&& unique_names(self.private_properties@)
        &&& forall|n: Seq<char>|
            has_name(self.public_properties@, n) ==> !has_name(self.private_properties@, n)
    }
}

impl MaterialCertification {
    /// Well-formedness of the input document.
    pub open spec fn wf(self) -> bool {
        self.properties_tested.wf()
    }
}

} // verus!
