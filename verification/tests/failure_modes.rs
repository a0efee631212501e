// Error paths, malformed artifacts, and identifier formatting.

use material_verification::{
    error_result, format_verification_id, generate_proof, get_elf_path, is_within_range,
    is_within_threshold, prepare_material_data, verify_proof, BatchInfo, MaterialCertification,
    MaterialInfo, MeasuredValue, NamedProperty, PropertiesInfo, PropertyValue, Threshold,
    VerificationError, VerificationInfo,
};

fn numeric(name: &str, value: i64, threshold: Option<Threshold>) -> NamedProperty {
    NamedProperty {
        name: name.to_string(),
        value: PropertyValue {
            value: MeasuredValue::Number(value),
            unit: Some("MPa".to_string()),
            threshold,
            passed: true,
        },
    }
}

fn build_cert(public: Vec<NamedProperty>, private: Vec<NamedProperty>) -> MaterialCertification {
    MaterialCertification {
        certificate_id: "CERT-003".to_string(),
        batch_number: "BATCH-11".to_string(),
        material: MaterialInfo {
            material_type: "copper".to_string(),
            designation: "C101".to_string(),
            grade: "OF".to_string(),
            shape: None,
            manufacturer: "Smelter".to_string(),
            manufacturer_location: "Oslo".to_string(),
        },
        batch: BatchInfo {
            production_date: "2024-05-01".to_string(),
            expiration_date: None,
            quantity: 3,
            units: "coils".to_string(),
        },
        properties_tested: PropertiesInfo {
            public_properties: public,
            private_properties: private,
            property_standards_mapping: Vec::new(),
        },
        compliance: Vec::new(),
        verified_by: VerificationInfo {
            test_report_number: "TR-3".to_string(),
            laboratory: "Lab".to_string(),
            test_date: "2024-05-02".to_string(),
            certified_by: "QA".to_string(),
        },
    }
}

#[test]
fn empty_input_is_rejected() {
    let cert = build_cert(vec![], vec![]);
    assert!(matches!(prepare_material_data(&cert), Err(VerificationError::EmptyInput)));
    assert!(matches!(generate_proof(&cert), Err(VerificationError::EmptyInput)));
}

#[test]
fn non_numeric_only_certification_is_empty_input() {
    let cert = build_cert(
        vec![NamedProperty {
            name: "finish".to_string(),
            value: PropertyValue {
                value: MeasuredValue::Other,
                unit: None,
                threshold: None,
                passed: true,
            },
        }],
        vec![],
    );
    assert!(matches!(generate_proof(&cert), Err(VerificationError::EmptyInput)));
}

#[test]
fn truncated_stream_is_error_shaped() {
    let cert = build_cert(
        vec![numeric("conductivity", 100, Some(Threshold { min: 90, max: 110 }))],
        vec![numeric("purity", 999, Some(Threshold { min: 990, max: 1000 }))],
    );
    let mut artifact = generate_proof(&cert).expect("proof generation failed");
    // Drop the trailing outputs so fewer flags remain than canonical
    // entries.
    artifact.public_outputs.truncate(2);
    let result = verify_proof(Some(&artifact), &cert);
    assert_eq!(result.overall_compliance, "ERROR");
    assert_eq!(result.compliance_summary.total_properties, 0);
}

#[test]
fn certificate_mismatch_is_error_shaped() {
    let cert = build_cert(vec![numeric("conductivity", 100, None)], vec![]);
    let mut artifact = generate_proof(&cert).expect("proof generation failed");
    artifact.certificate_id = "CERT-OTHER".to_string();
    let result = verify_proof(Some(&artifact), &cert);
    assert_eq!(result.overall_compliance, "ERROR");
    assert!(!result.zkp_info.verified);
}

#[test]
fn malformed_first_output_is_error_shaped() {
    let cert = build_cert(vec![numeric("conductivity", 100, None)], vec![]);
    let mut artifact = generate_proof(&cert).expect("proof generation failed");
    artifact.public_outputs[0] = material_verification::CommittedValue::Number(7);
    let result = verify_proof(Some(&artifact), &cert);
    assert_eq!(result.overall_compliance, "ERROR");
}

#[test]
fn error_result_shape() {
    let r = error_result(
        "CERT-X".to_string(),
        "unknown".to_string(),
        "unknown".to_string(),
        "now".to_string(),
    );
    assert_eq!(r.overall_compliance, "ERROR");
    assert_eq!(r.verification_id, "error");
    assert_eq!(r.material_id, "CERT-X");
    assert_eq!(r.timestamp, "now");
    assert!(r.properties.is_empty());
    assert_eq!(r.compliance_summary.total_properties, 0);
}

#[test]
fn range_checks_are_inclusive() {
    assert!(is_within_range(5, 5, 10));
    assert!(is_within_range(10, 5, 10));
    assert!(!is_within_range(4, 5, 10));
    assert!(!is_within_range(11, 5, 10));
    assert!(is_within_threshold(5, &Some(Threshold { min: 5, max: 10 })));
    assert!(!is_within_threshold(11, &Some(Threshold { min: 5, max: 10 })));
    assert!(is_within_threshold(i64::MAX, &None));
    assert!(is_within_threshold(i64::MIN, &None));
}

#[test]
fn verification_id_shape() {
    let id = format_verification_id("steel", 1234567);
    // Prefix uppercased to three characters, then the timestamp, then
    // four random digits.
    assert!(id.starts_with("VER-STE-1234567-"), "unexpected id: {}", id);
    let tail = &id["VER-STE-1234567-".len()..];
    assert_eq!(tail.len(), 4);
    assert!(tail.chars().all(|c| c.is_ascii_digit()));

    let short = format_verification_id("au", 7);
    assert!(short.starts_with("VER-AU-7-"), "unexpected id: {}", short);
}

#[test]
fn elf_path_is_one_of_the_expected_locations() {
    match get_elf_path() {
        Ok(path) => {
            let expected = [
                "/app/verification-app/elf/riscv32im-pico-zkvm-elf",
                "/app/verification-app/target/riscv32im-pico-zkvm-elf",
                "/app/verification-app/target/material-verification",
            ];
            assert!(expected.contains(&path.as_str()));
        },
        Err(e) => assert_eq!(e, VerificationError::ProgramImageNotFound),
    }
}

#[test]
fn generate_response_wording() {
    let ok = material_verification::build_generate_response(Ok("output/pico_proof.json".to_string()));
    assert_eq!(ok.proof_id, "output/pico_proof.json");
    assert_eq!(ok.status, "success");
    assert_eq!(ok.message, "Proof generated successfully");

    let err = material_verification::build_generate_response(Err(VerificationError::EmptyInput));
    assert_eq!(err.proof_id, "");
    assert_eq!(err.status, "error");
    assert_eq!(
        err.message,
        "Failed to generate proof: the certification has no numeric properties to prove"
    );
}

#[test]
fn error_messages_name_each_failure() {
    let cases = [
        (VerificationError::Input, "the certification is malformed"),
        (VerificationError::EmptyInput, "the certification has no numeric properties to prove"),
        (VerificationError::ProgramImageNotFound, "the guest program image was not found"),
        (VerificationError::Serialization, "the prepared input could not be serialized"),
        (VerificationError::BackendProving, "the proving backend failed"),
        (VerificationError::ArtifactIo, "the proof artifact is unreadable"),
        (VerificationError::ArtifactParse, "the proof artifact is malformed"),
        (VerificationError::Alignment, "the committed flags do not match the canonical ordering"),
        (
            VerificationError::CertificationMismatch,
            "the certification does not correspond to the artifact",
        ),
    ];
    for (e, expected) in cases {
        assert_eq!(e.message(), expected);
    }
}

#[test]
fn circuit_creation_always_succeeds() {
    let cert = build_cert(vec![numeric("conductivity", 100, None)], vec![]);
    assert!(material_verification::create_verification_circuit(&cert).is_ok());
}
