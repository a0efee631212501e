// The canonical ordering and the committed output stream.

use material_verification::{
    canonical_order, commit_outputs, evaluate_compliance, prepare_material_data, BatchInfo,
    CommittedValue, MaterialCertification, MaterialInfo, MeasuredValue, NamedProperty,
    PropertiesInfo, PropertyValue, Threshold, VerificationInfo,
};

fn prop_of(value: MeasuredValue, threshold: Option<Threshold>) -> PropertyValue {
    PropertyValue { value, unit: None, threshold, passed: true }
}

fn entry(name: &str, value: PropertyValue) -> NamedProperty {
    NamedProperty { name: name.to_string(), value }
}

fn make_cert(public: Vec<NamedProperty>, private: Vec<NamedProperty>) -> MaterialCertification {
    MaterialCertification {
        certificate_id: "CERT-002".to_string(),
        batch_number: "BATCH-9".to_string(),
        material: MaterialInfo {
            material_type: "aluminium".to_string(),
            designation: "EN AW-6061".to_string(),
            grade: "T6".to_string(),
            shape: Some("sheet".to_string()),
            manufacturer: "Foundry".to_string(),
            manufacturer_location: "Lyon".to_string(),
        },
        batch: BatchInfo {
            production_date: "2024-03-01".to_string(),
            expiration_date: Some("2034-03-01".to_string()),
            quantity: 12,
            units: "sheets".to_string(),
        },
        properties_tested: PropertiesInfo {
            public_properties: public,
            private_properties: private,
            property_standards_mapping: Vec::new(),
        },
        compliance: Vec::new(),
        verified_by: VerificationInfo {
            test_report_number: "TR-2".to_string(),
            laboratory: "Lab".to_string(),
            test_date: "2024-03-02".to_string(),
            certified_by: "QA".to_string(),
        },
    }
}

fn names(cert: &MaterialCertification) -> Vec<(String, bool)> {
    canonical_order(cert).into_iter().map(|e| (e.name, e.is_private)).collect()
}

#[test]
fn canonical_order_sorts_public_then_private() {
    let cert = make_cert(
        vec![
            entry("zeta", prop_of(MeasuredValue::Number(1), None)),
            entry("alpha", prop_of(MeasuredValue::Number(2), None)),
        ],
        vec![
            entry("omega", prop_of(MeasuredValue::Number(3), None)),
            entry("beta", prop_of(MeasuredValue::Number(4), None)),
        ],
    );
    assert_eq!(
        names(&cert),
        vec![
            ("alpha".to_string(), false),
            ("zeta".to_string(), false),
            ("beta".to_string(), true),
            ("omega".to_string(), true),
        ]
    );
}

#[test]
fn canonical_order_ignores_enumeration_order() {
    let forward = make_cert(
        vec![
            entry("alpha", prop_of(MeasuredValue::Number(2), None)),
            entry("zeta", prop_of(MeasuredValue::Number(1), None)),
        ],
        vec![entry("beta", prop_of(MeasuredValue::Number(4), None))],
    );
    let backward = make_cert(
        vec![
            entry("zeta", prop_of(MeasuredValue::Number(1), None)),
            entry("alpha", prop_of(MeasuredValue::Number(2), None)),
        ],
        vec![entry("beta", prop_of(MeasuredValue::Number(4), None))],
    );
    assert_eq!(names(&forward), names(&backward));
    // Running the ordering twice on the same input gives the same
    // sequence.
    assert_eq!(names(&forward), names(&forward));
}

#[test]
fn canonical_order_excludes_non_numeric_values() {
    let cert = make_cert(
        vec![
            entry("colour", prop_of(MeasuredValue::Other, None)),
            entry("mass", prop_of(MeasuredValue::Number(10), None)),
        ],
        vec![entry("texture", prop_of(MeasuredValue::Other, None))],
    );
    assert_eq!(names(&cert), vec![("mass".to_string(), false)]);
}

#[test]
fn prepared_vectors_align_to_canonical_order() {
    let cert = make_cert(
        vec![entry("b", prop_of(MeasuredValue::Number(20), Some(Threshold { min: 10, max: 30 })))],
        vec![entry("a", prop_of(MeasuredValue::Number(5), None))],
    );
    let prepared = prepare_material_data(&cert).expect("preparation failed");
    // Public "b" comes first, private "a" second.
    assert_eq!(prepared.values, vec![20, 5]);
    assert_eq!(prepared.min_thresholds, vec![10, i64::MIN]);
    assert_eq!(prepared.max_thresholds, vec![30, i64::MAX]);
    assert_eq!(prepared.privacy_flags, vec![false, true]);
    let (all_pass, flags) = evaluate_compliance(&prepared);
    assert!(all_pass);
    assert_eq!(flags, vec![true, true]);
}

#[test]
fn committed_stream_holds_flags_then_public_values() {
    let cert = make_cert(
        vec![entry("b", prop_of(MeasuredValue::Number(20), Some(Threshold { min: 10, max: 30 })))],
        vec![entry("a", prop_of(MeasuredValue::Number(5), None))],
    );
    let prepared = prepare_material_data(&cert).expect("preparation failed");
    let stream = commit_outputs(&prepared);
    assert_eq!(
        stream,
        vec![
            CommittedValue::Flag(true),
            CommittedValue::Flag(true),
            CommittedValue::Flag(true),
            CommittedValue::Number(20),
        ]
    );
}

#[test]
fn committed_stream_never_holds_private_values() {
    let cert = make_cert(
        vec![entry("pub_len", prop_of(MeasuredValue::Number(77), None))],
        vec![entry("secret", prop_of(MeasuredValue::Number(42), Some(Threshold { min: 0, max: 50 })))],
    );
    let prepared = prepare_material_data(&cert).expect("preparation failed");
    let stream = commit_outputs(&prepared);
    for cv in &stream {
        assert_ne!(*cv, CommittedValue::Number(42));
    }
    assert!(stream.contains(&CommittedValue::Number(77)));
}

#[test]
fn round_trip_matches_direct_evaluation() {
    let cert = make_cert(
        vec![
            entry("first", prop_of(MeasuredValue::Number(1), Some(Threshold { min: 0, max: 2 }))),
            entry("second", prop_of(MeasuredValue::Number(9), Some(Threshold { min: 0, max: 2 }))),
        ],
        vec![entry("third", prop_of(MeasuredValue::Number(5), Some(Threshold { min: 5, max: 5 })))],
    );
    let prepared = prepare_material_data(&cert).expect("preparation failed");
    let (all_pass, direct_flags) = evaluate_compliance(&prepared);
    let artifact = material_verification::generate_proof(&cert).expect("proof generation failed");
    let result = material_verification::verify_proof(Some(&artifact), &cert);
    let order = canonical_order(&cert);
    assert_eq!(result.properties.len(), order.len());
    for (i, e) in order.iter().enumerate() {
        let reported = result
            .properties
            .iter()
            .find(|p| p.property == e.name)
            .expect("property missing from report");
        assert_eq!(reported.compliant, direct_flags[i]);
    }
    assert_eq!(result.overall_compliance, if all_pass { "PASS" } else { "FAIL" });
    assert_eq!(result.overall_compliance, "FAIL");
}

#[test]
fn public_signals_render_the_stream() {
    // A negative public value below its minimum: stream is
    // [overall=false, flag=false, value=-25].
    let cert = make_cert(
        vec![entry(
            "thermal_offset",
            prop_of(MeasuredValue::Number(-25), Some(Threshold { min: -20, max: 0 })),
        )],
        vec![],
    );
    let artifact = material_verification::generate_proof(&cert).expect("proof generation failed");
    let result = material_verification::verify_proof(Some(&artifact), &cert);
    assert_eq!(result.overall_compliance, "FAIL");
    assert_eq!(result.zkp_info.public_signals, "[false,false,-25]");
}

#[test]
fn report_names_each_property_once() {
    let cert = make_cert(
        vec![
            entry("alpha", prop_of(MeasuredValue::Number(1), None)),
            entry("beta", prop_of(MeasuredValue::Number(2), None)),
        ],
        vec![entry("gamma", prop_of(MeasuredValue::Number(3), None))],
    );
    let artifact = material_verification::generate_proof(&cert).expect("proof generation failed");
    let result = material_verification::verify_proof(Some(&artifact), &cert);
    let mut seen: Vec<&str> = result.properties.iter().map(|p| p.property.as_str()).collect();
    seen.sort();
    let before = seen.len();
    seen.dedup();
    assert_eq!(seen.len(), before);
    assert_eq!(before, 3);
}
