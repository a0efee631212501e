// End-to-end scenarios of the selective-disclosure compliance protocol.
// Measured values and bounds are fixed-point integers in tenths of a
// unit: 53.9 is written 539.

use material_verification::{
    generate_proof, verify_proof, BatchInfo, ComplianceSummary, MaterialCertification,
    MaterialInfo, MeasuredValue, NamedProperty, PropertiesInfo, PropertyResult, PropertyValue,
    Threshold, VerificationInfo, VerificationResult,
};

fn numeric_prop(value: i64, threshold: Option<Threshold>) -> PropertyValue {
    PropertyValue { value: MeasuredValue::Number(value), unit: None, threshold, passed: true }
}

fn named(name: &str, value: PropertyValue) -> NamedProperty {
    NamedProperty { name: name.to_string(), value }
}

fn cert_with(public: Vec<NamedProperty>, private: Vec<NamedProperty>) -> MaterialCertification {
    MaterialCertification {
        certificate_id: "CERT-001".to_string(),
        batch_number: "BATCH-7".to_string(),
        material: MaterialInfo {
            material_type: "steel".to_string(),
            designation: "ASTM A36".to_string(),
            grade: "A".to_string(),
            shape: None,
            manufacturer: "Acme Mills".to_string(),
            manufacturer_location: "Sheffield".to_string(),
        },
        batch: BatchInfo {
            production_date: "2024-01-01".to_string(),
            expiration_date: None,
            quantity: 100,
            units: "bars".to_string(),
        },
        properties_tested: PropertiesInfo {
            public_properties: public,
            private_properties: private,
            property_standards_mapping: Vec::new(),
        },
        compliance: Vec::new(),
        verified_by: VerificationInfo {
            test_report_number: "TR-1".to_string(),
            laboratory: "Lab".to_string(),
            test_date: "2024-01-02".to_string(),
            certified_by: "QA".to_string(),
        },
    }
}

fn scenario_a_cert() -> MaterialCertification {
    // Public tensile_strength 53.9 within [40, 100]; private hardness
    // 16.0 within [8, 30].
    cert_with(
        vec![named(
            "tensile_strength",
            numeric_prop(539, Some(Threshold { min: 400, max: 1000 })),
        )],
        vec![named("hardness", numeric_prop(160, Some(Threshold { min: 80, max: 300 })))],
    )
}

fn find<'a>(r: &'a VerificationResult, name: &str) -> &'a PropertyResult {
    r.properties.iter().find(|p| p.property == name).expect("property missing from report")
}

fn full_cycle(cert: &MaterialCertification) -> VerificationResult {
    let artifact = generate_proof(cert).expect("proof generation failed");
    verify_proof(Some(&artifact), cert)
}

#[test]
fn scenario_public_pass_private_pass() {
    let cert = scenario_a_cert();
    let result = full_cycle(&cert);
    assert_eq!(result.overall_compliance, "PASS");
    let tensile = find(&result, "tensile_strength");
    assert_eq!(tensile.value, Some(539));
    assert!(tensile.compliant);
    assert!(!tensile.is_private);
    assert_eq!(tensile.threshold, Some(Threshold { min: 400, max: 1000 }));
    let hardness = find(&result, "hardness");
    assert_eq!(hardness.value, None);
    assert!(hardness.compliant);
    assert!(hardness.is_private);
}

#[test]
fn scenario_private_failure_fails_overall() {
    // Hardness 35.0 exceeds its maximum of 30.
    let cert = cert_with(
        vec![named(
            "tensile_strength",
            numeric_prop(539, Some(Threshold { min: 400, max: 1000 })),
        )],
        vec![named("hardness", numeric_prop(350, Some(Threshold { min: 80, max: 300 })))],
    );
    let result = full_cycle(&cert);
    assert_eq!(result.overall_compliance, "FAIL");
    assert!(!find(&result, "hardness").compliant);
    assert!(find(&result, "tensile_strength").compliant);
    assert_eq!(result.compliance_summary.passing_properties, 1);
    assert_eq!(result.compliance_summary.failing_properties, 1);
}

#[test]
fn scenario_missing_artifact_is_error_shaped() {
    let cert = scenario_a_cert();
    let result = verify_proof(None, &cert);
    assert_eq!(result.overall_compliance, "ERROR");
    let s: &ComplianceSummary = &result.compliance_summary;
    assert_eq!(s.total_properties, 0);
    assert_eq!(s.public_properties, 0);
    assert_eq!(s.private_properties, 0);
    assert_eq!(s.passing_properties, 0);
    assert_eq!(s.failing_properties, 0);
    assert!(!result.zkp_info.verified);
    assert_eq!(result.verification_id, "error");
}

#[test]
fn scenario_missing_threshold_is_compliant() {
    // A property lacking a threshold is compliant whatever its value,
    // and the overall state is decided by the others.
    let cert = cert_with(
        vec![
            named("elongation", numeric_prop(10000, None)),
            named("tensile_strength", numeric_prop(539, Some(Threshold { min: 400, max: 1000 }))),
        ],
        vec![],
    );
    let result = full_cycle(&cert);
    assert!(find(&result, "elongation").compliant);
    assert_eq!(result.overall_compliance, "PASS");

    let failing = cert_with(
        vec![
            named("elongation", numeric_prop(10000, None)),
            named("tensile_strength", numeric_prop(5, Some(Threshold { min: 400, max: 1000 }))),
        ],
        vec![],
    );
    let result = full_cycle(&failing);
    assert!(find(&result, "elongation").compliant);
    assert_eq!(result.overall_compliance, "FAIL");
}

#[test]
fn boundary_values_are_compliant() {
    let cert = cert_with(
        vec![
            named("at_minimum", numeric_prop(400, Some(Threshold { min: 400, max: 1000 }))),
            named("at_maximum", numeric_prop(1000, Some(Threshold { min: 400, max: 1000 }))),
        ],
        vec![],
    );
    let result = full_cycle(&cert);
    assert!(find(&result, "at_minimum").compliant);
    assert!(find(&result, "at_maximum").compliant);
    assert_eq!(result.overall_compliance, "PASS");
}

#[test]
fn summary_total_is_public_plus_private() {
    let cert = cert_with(
        vec![
            named("a", numeric_prop(1, None)),
            named("b", numeric_prop(2, None)),
        ],
        vec![
            named("c", numeric_prop(3, None)),
            named("d", numeric_prop(4, Some(Threshold { min: 9, max: 10 }))),
            named("e", numeric_prop(5, None)),
        ],
    );
    let result = full_cycle(&cert);
    let s = &result.compliance_summary;
    assert_eq!(s.total_properties, 5);
    assert_eq!(s.public_properties, 2);
    assert_eq!(s.private_properties, 3);
    assert_eq!(s.total_properties, s.public_properties + s.private_properties);
    assert_eq!(s.passing_properties, 4);
    assert_eq!(s.failing_properties, 1);
}

#[test]
fn redaction_hides_private_values_everywhere() {
    let cert = scenario_a_cert();
    let result = full_cycle(&cert);
    for p in &result.properties {
        if p.is_private {
            assert_eq!(p.value, None);
            assert_eq!(p.threshold, None);
        }
    }
    // The identity fields carry no measurement either.
    assert_eq!(result.material_id, "CERT-001");
    assert_eq!(result.material_type, "steel");
    assert_eq!(result.standard, "ASTM A36");
}

#[test]
fn report_carries_proof_metadata() {
    let cert = scenario_a_cert();
    let artifact = generate_proof(&cert).expect("proof generation failed");
    assert_eq!(artifact.id.len(), 36);
    assert_eq!(artifact.certificate_id, "CERT-001");
    let result = verify_proof(Some(&artifact), &cert);
    assert!(result.zkp_info.implemented);
    assert!(result.zkp_info.verified);
    assert_eq!(result.zkp_info.proof_type, "Pico zkVM Proof");
    assert_eq!(result.zkp_info.circuit, "material_verifier_zkvm");
    assert!(result.zkp_info.proof_reference.starts_with("pico-zkvm-proof-VER-PICO-"));
    assert!(result.verification_id.starts_with("VER-PICO-"));
    assert_eq!(
        result.zkp_info.proof_reference,
        format!("pico-zkvm-proof-{}", result.verification_id)
    );
    // The committed stream of scenario A: overall, one flag per
    // property in canonical order, then the public tensile value.
    assert_eq!(result.zkp_info.public_signals, "[true,true,true,539]");
}
