use cbor_conformance::corpus::{parse_case, parse_cases, parse_mode, RawCase, TestCaseDescriptor, TestMode};
use cbor_conformance::executor::{
    classify_flag, classify_roundtrip, invalid_decode, invalid_encode, reject_output_verdict,
    roundtrip, run_case, run_tests,
};
use cbor_conformance::hexcode::{hex_decode, hex_encode};
use cbor_conformance::report::{get_dependency_version, Metadata, Outcome, PassState, Report};
use cbor_conformance::skip::{default_skip_ids, SkipSet};
use cbor_conformance::value::{generic_to_canonical, CanonicalValue, GenericValue};

fn payload(hex: &str) -> Vec<u8> {
    hex_decode(hex).expect("test payload must be valid hex")
}

fn descriptor(mode: TestMode, hex: &str, id: Option<&str>) -> TestCaseDescriptor {
    TestCaseDescriptor {
        mode,
        payload: payload(hex),
        id: id.map(|s| s.to_string()),
    }
}

fn skip_set() -> SkipSet {
    SkipSet::new(default_skip_ids())
}

#[test]
fn hex_decode_ietf_payload() {
    assert_eq!(payload("6449455446"), vec![0x64, 0x49, 0x45, 0x54, 0x46]);
}

#[test]
fn hex_decode_rejects_odd_length() {
    assert!(hex_decode("644").is_none());
}

#[test]
fn hex_decode_rejects_non_digit() {
    assert!(hex_decode("6g").is_none());
}

#[test]
fn hex_decode_accepts_uppercase() {
    assert_eq!(hex_decode("6449455446").unwrap(), hex_decode("6449455446").unwrap());
    assert_eq!(hex_decode("AB").unwrap(), vec![0xab]);
}

#[test]
fn hex_encode_matches_reference_implementation() {
    let bytes = vec![0x00u8, 0x1f, 0xa0, 0xff, 0x64];
    assert_eq!(hex_encode(&bytes), hex::encode(&bytes));
    assert_eq!(hex_encode(&bytes), "001fa0ff64");
    assert_eq!(hex_encode(&[]), "");
}

#[test]
fn roundtrip_ietf_text_string() {
    // {"type":"roundtrip","data":"6449455446"}: the 4-byte text "IETF".
    let case = descriptor(TestMode::RoundTrip, "6449455446", None);
    let outcome = run_case(&case, &skip_set()).expect("no harness error");
    assert_eq!(outcome.pass, PassState::Passed);
    assert!(outcome.output.is_none());
    assert!(outcome.error.is_none());
}

#[test]
fn roundtrip_driver_reproduces_canonical_bytes() {
    let bytes = payload("6449455446");
    let out = roundtrip(&bytes).expect("decoding canonical bytes succeeds");
    assert_eq!(out, bytes);
}

#[test]
fn reject_input_reserved_leading_byte() {
    // {"type":"invalid_in","data":"1f"}: a reserved/malformed leading byte.
    let case = descriptor(TestMode::RejectInput, "1f", None);
    let outcome = run_case(&case, &skip_set()).expect("no harness error");
    assert_eq!(outcome.pass, PassState::Passed);
    assert!(outcome.output.is_none());
    assert!(outcome.error.is_some());
}

#[test]
fn reject_input_fails_on_valid_payload() {
    let case = descriptor(TestMode::RejectInput, "6449455446", None);
    let outcome = run_case(&case, &skip_set()).expect("no harness error");
    assert_eq!(outcome.pass, PassState::Failed);
    assert!(outcome.output.is_none());
    assert!(outcome.error.is_none());
}

#[test]
fn invalid_decode_distinguishes_payloads() {
    let (refused, msg) = invalid_decode(&payload("1f"));
    assert!(refused);
    assert!(!msg.is_empty());
    let (refused, msg) = invalid_decode(&payload("6449455446"));
    assert!(!refused);
    assert!(msg.is_empty());
}

#[test]
fn roundtrip_driver_returns_the_codecs_reencoding() {
    // 1817 decodes to 23, which the codec re-encodes canonically as 17.
    assert_eq!(roundtrip(&payload("1817")).unwrap(), vec![0x17]);
    // 1f never decodes, so the round-trip fails with a diagnostic.
    let err = roundtrip(&payload("1f")).unwrap_err();
    assert!(!err.is_empty());
}

#[test]
fn reject_output_map_with_integer_key() {
    // {"type":"invalid_out","data":"a1016161","id":"mapkey_invalid_out"}:
    // a map with the integer key 1; the Value Bridge must refuse it.
    let case = descriptor(TestMode::RejectOutput, "a1016161", Some("mapkey_invalid_out"));
    let outcome = run_case(&case, &skip_set()).expect("no harness error");
    assert_eq!(outcome.pass, PassState::Passed);
    assert!(outcome.output.is_none());
    let err = outcome.error.expect("diagnostic present");
    assert!(err.starts_with("Map keys must be strings"));
    assert_eq!(err, "Map keys must be strings, found: integer 1");
}

#[test]
fn reject_output_fails_on_encodable_value() {
    // {"a": 1} is canonical-representable and encodable, so the case fails.
    let case = descriptor(TestMode::RejectOutput, "a1616101", None);
    let outcome = run_case(&case, &skip_set()).expect("no harness error");
    assert_eq!(outcome.pass, PassState::Failed);
    assert!(outcome.output.is_none());
    assert!(outcome.error.is_none());
}

#[test]
fn reject_output_undecodable_payload_is_harness_error() {
    let case = descriptor(TestMode::RejectOutput, "1f", None);
    assert!(run_case(&case, &skip_set()).is_err());
}

#[test]
fn skipped_case_gets_not_applicable() {
    // The identifier sits in the skip set, so the outcome must be the
    // not-applicable sentinel whatever the mode would have produced.
    let case = descriptor(TestMode::RejectOutput, "1f", Some("undefined_invalid_out"));
    let outcome = run_case(&case, &skip_set()).expect("skipped, so no harness error");
    assert_eq!(outcome.pass, PassState::NotApplicable);
    assert!(outcome.output.is_none());
    assert!(outcome.error.is_none());
}

#[test]
fn skip_set_membership() {
    let skip = skip_set();
    assert!(skip.should_skip(&Some("datetime_invalid_out".to_string())));
    assert!(skip.should_skip(&Some("bignum_invalid_out".to_string())));
    assert!(!skip.should_skip(&Some("mapkey_invalid_out".to_string())));
    assert!(!skip.should_skip(&None));
}

#[test]
fn classify_roundtrip_equal_bytes_is_clean_pass() {
    let outcome = classify_roundtrip(&[0x01, 0x02], Ok(vec![0x01, 0x02]));
    assert_eq!(outcome.pass, PassState::Passed);
    assert!(outcome.output.is_none());
    assert!(outcome.error.is_none());
}

#[test]
fn classify_roundtrip_mismatch_keeps_reencoding_in_hex() {
    let outcome = classify_roundtrip(&[0x01, 0x02], Ok(vec![0xab, 0xcd, 0xef]));
    assert_eq!(outcome.pass, PassState::Failed);
    assert_eq!(outcome.output.as_deref(), Some("abcdef"));
    assert!(outcome.error.is_none());
}

#[test]
fn classify_roundtrip_decode_failure_keeps_diagnostic() {
    let outcome = classify_roundtrip(&[0x01], Err("decode refused".to_string()));
    assert_eq!(outcome.pass, PassState::Failed);
    assert!(outcome.output.is_none());
    assert_eq!(outcome.error.as_deref(), Some("decode refused"));
}

#[test]
fn classify_flag_both_ways() {
    let passed = classify_flag(true, "why".to_string());
    assert_eq!(passed.pass, PassState::Passed);
    assert_eq!(passed.error.as_deref(), Some("why"));
    let failed = classify_flag(false, String::new());
    assert_eq!(failed.pass, PassState::Failed);
    assert!(failed.error.is_none());
}

#[test]
fn reject_output_verdict_cases() {
    let (refused, msg) = reject_output_verdict(Err("no tags".to_string()), None);
    assert!(refused);
    assert_eq!(msg, "no tags");
    let (refused, msg) = reject_output_verdict(Ok(CanonicalValue::Null), Some(Ok(vec![0xf6])));
    assert!(!refused);
    assert!(msg.is_empty());
    let (refused, msg) =
        reject_output_verdict(Ok(CanonicalValue::Null), Some(Err("refused".to_string())));
    assert!(refused);
    assert_eq!(msg, "refused");
}

#[test]
fn bridge_accepts_representable_values() {
    let v = GenericValue::Array(vec![
        GenericValue::Integer(7),
        GenericValue::Text("x".to_string()),
        GenericValue::Mapping(vec![(
            GenericValue::Text("k".to_string()),
            GenericValue::Bool(true),
        )]),
    ]);
    let c = generic_to_canonical(v).expect("representable");
    match c {
        CanonicalValue::List(items) => {
            assert_eq!(items.len(), 3);
            match &items[2] {
                CanonicalValue::Mapping(entries) => {
                    assert_eq!(entries.len(), 1);
                    assert_eq!(entries[0].0, "k");
                },
                other => panic!("expected a map, got {:?}", other),
            }
        },
        other => panic!("expected a list, got {:?}", other),
    }
}

#[test]
fn bridge_rejects_tags() {
    let v = GenericValue::Tag(42, Box::new(GenericValue::Bytes(vec![0x00])));
    let err = generic_to_canonical(v).expect_err("tags are not representable");
    assert_eq!(err, "Unsupported CBOR type: tag");
}

#[test]
fn bridge_names_a_negative_integer_key() {
    let v = GenericValue::Mapping(vec![(GenericValue::Integer(-42), GenericValue::Null)]);
    let err = generic_to_canonical(v).expect_err("integer keys are not representable");
    assert_eq!(err, "Map keys must be strings, found: integer -42");
}

#[test]
fn bridge_rejects_non_string_keys_anywhere() {
    let v = GenericValue::Array(vec![GenericValue::Mapping(vec![(
        GenericValue::Integer(1),
        GenericValue::Null,
    )])]);
    let err = generic_to_canonical(v).expect_err("integer keys are not representable");
    assert_eq!(err, "Map keys must be strings, found: integer 1");
}

#[test]
fn bridge_keeps_last_value_for_duplicate_keys() {
    let v = GenericValue::Mapping(vec![
        (GenericValue::Text("a".to_string()), GenericValue::Integer(1)),
        (GenericValue::Text("a".to_string()), GenericValue::Integer(2)),
    ]);
    match generic_to_canonical(v).expect("representable") {
        CanonicalValue::Mapping(entries) => {
            assert_eq!(entries.len(), 1);
            assert_eq!(entries[0].0, "a");
            match entries[0].1 {
                CanonicalValue::Integer(i) => assert_eq!(i, 2),
                ref other => panic!("expected an integer, got {:?}", other),
            }
        },
        other => panic!("expected a map, got {:?}", other),
    }
}

#[test]
fn bridged_canonical_bytes_reencode_identically() {
    // A representable value decoded from canonical bytes re-serializes to
    // the same bytes, here via the full reject-output pipeline: both the
    // bridge and the encoder accept {"a": 1}.
    let (refused, msg) = invalid_encode(&payload("a1616101")).expect("decodable");
    assert!(!refused);
    assert!(msg.is_empty());
}

#[test]
fn parse_mode_recognizes_the_three_modes() {
    assert_eq!(parse_mode("roundtrip"), Some(TestMode::RoundTrip));
    assert_eq!(parse_mode("invalid_in"), Some(TestMode::RejectInput));
    assert_eq!(parse_mode("invalid_out"), Some(TestMode::RejectOutput));
    assert_eq!(parse_mode("bogus"), None);
}

#[test]
fn parse_case_builds_descriptor() {
    let raw = RawCase {
        test_type: "roundtrip".to_string(),
        data: "6449455446".to_string(),
        id: Some("ietf".to_string()),
    };
    let d = parse_case(raw).expect("well-formed");
    assert_eq!(d.mode, TestMode::RoundTrip);
    assert_eq!(d.payload, vec![0x64, 0x49, 0x45, 0x54, 0x46]);
    assert_eq!(d.id.as_deref(), Some("ietf"));
}

#[test]
fn parse_case_rejects_unknown_mode() {
    let raw = RawCase {
        test_type: "explode".to_string(),
        data: "00".to_string(),
        id: None,
    };
    let err = parse_case(raw).expect_err("unknown mode is a corpus error");
    assert!(err.contains("unknown test type"));
}

#[test]
fn parse_case_rejects_bad_hex() {
    let raw = RawCase {
        test_type: "roundtrip".to_string(),
        data: "zz".to_string(),
        id: None,
    };
    let err = parse_case(raw).expect_err("bad hex is a corpus error");
    assert!(err.contains("failed to decode hex"));
}

#[test]
fn run_tests_preserves_order_and_length() {
    let cases = vec![
        descriptor(TestMode::RoundTrip, "6449455446", None),
        descriptor(TestMode::RejectInput, "1f", None),
        descriptor(TestMode::RejectOutput, "1f", Some("undefined_invalid_out")),
    ];
    let outcomes = run_tests(&cases, &skip_set()).expect("no harness error");
    assert_eq!(outcomes.len(), 3);
    assert_eq!(outcomes[0].pass, PassState::Passed);
    assert_eq!(outcomes[1].pass, PassState::Passed);
    assert_eq!(outcomes[2].pass, PassState::NotApplicable);
}

#[test]
fn run_tests_empty_list_gives_empty_outcomes() {
    let outcomes = run_tests(&Vec::new(), &skip_set()).expect("nothing to do");
    assert!(outcomes.is_empty());
}

#[test]
fn rerunning_an_unchanged_corpus_reproduces_the_report() {
    let raw = || {
        vec![
            RawCase {
                test_type: "roundtrip".to_string(),
                data: "6449455446".to_string(),
                id: None,
            },
            RawCase {
                test_type: "invalid_in".to_string(),
                data: "1f".to_string(),
                id: None,
            },
            RawCase {
                test_type: "invalid_out".to_string(),
                data: "a1016161".to_string(),
                id: Some("mapkey_invalid_out".to_string()),
            },
        ]
    };
    let run = || {
        let cases = parse_cases(raw()).expect("corpus is well-formed");
        run_tests(&cases, &skip_set()).expect("no harness error")
    };
    assert_eq!(run(), run());
}

#[test]
fn report_keeps_file_order_and_metadata() {
    let metadata = Metadata {
        link: "https://github.com/n0-computer/dasl".to_string(),
        version: "0.2.0".to_string(),
    };
    let mut report = Report::new(metadata);
    report.add_file(
        "a.json".to_string(),
        vec![Outcome { pass: PassState::Passed, output: None, error: None }],
    );
    report.add_file("b.json".to_string(), Vec::new());
    assert_eq!(report.files.len(), 2);
    assert_eq!(report.files[0].0, "a.json");
    assert_eq!(report.files[1].0, "b.json");
    assert_eq!(report.metadata.version, "0.2.0");
}

#[test]
fn dependency_version_lookup() {
    let deps = vec![
        ("dasl".to_string(), "0.2.0".to_string()),
        ("ciborium".to_string(), "0.2.2".to_string()),
    ];
    assert_eq!(get_dependency_version(&deps, "dasl"), "0.2.0");
    assert_eq!(get_dependency_version(&deps, "ciborium"), "0.2.2");
    assert_eq!(get_dependency_version(&deps, "libipld"), "unknown-libipld");
}

#[test]
fn decode_generic_models_the_permissive_value() {
    // d82a4100 is tag 42 around the one-byte byte string 00.
    match cbor_conformance::executor::decode_generic(&payload("d82a4100")) {
        Ok(GenericValue::Tag(t, inner)) => {
            assert_eq!(t, 42);
            match *inner {
                GenericValue::Bytes(ref b) => assert_eq!(b, &vec![0x00]),
                ref other => panic!("expected bytes under the tag, got {:?}", other),
            }
        },
        other => panic!("expected a tag, got {:?}", other),
    }
    assert!(cbor_conformance::executor::decode_generic(&payload("1f")).is_err());
}

#[test]
fn reject_output_tagged_value_passes_via_bridge() {
    // The bridge refuses tags before the encoder is ever consulted.
    let case = descriptor(TestMode::RejectOutput, "d82a4100", None);
    let outcome = run_case(&case, &skip_set()).expect("decodable by the permissive codec");
    assert_eq!(outcome.pass, PassState::Passed);
    let err = outcome.error.expect("diagnostic present");
    assert!(err.starts_with("Unsupported CBOR type"));
}

#[test]
fn roundtrip_mismatch_on_noncanonical_integer_encoding() {
    // 1817 carries 23 in a long form; the codec re-encodes it canonically
    // as 17, so the case fails and keeps the re-encoding in hex.
    let case = descriptor(TestMode::RoundTrip, "1817", None);
    let outcome = run_case(&case, &skip_set()).expect("no harness error");
    assert_eq!(outcome.pass, PassState::Failed);
    assert_eq!(outcome.output.as_deref(), Some("17"));
    assert!(outcome.error.is_none());
}

#[test]
fn run_fixture_file_appends_outcomes_in_order() {
    let mut report = Report::new(Metadata {
        link: "x".to_string(),
        version: "y".to_string(),
    });
    let raw = vec![
        RawCase {
            test_type: "roundtrip".to_string(),
            data: "6449455446".to_string(),
            id: None,
        },
        RawCase {
            test_type: "invalid_in".to_string(),
            data: "1f".to_string(),
            id: None,
        },
    ];
    cbor_conformance::executor::run_fixture_file(
        "basic.json".to_string(),
        raw,
        &skip_set(),
        &mut report,
    )
    .expect("well-formed fixture");
    assert_eq!(report.files.len(), 1);
    assert_eq!(report.files[0].0, "basic.json");
    assert_eq!(report.files[0].1.len(), 2);
    assert_eq!(report.files[0].1[0].pass, PassState::Passed);
    assert_eq!(report.files[0].1[1].pass, PassState::Passed);
}

#[test]
fn run_fixture_file_corpus_error_leaves_report_untouched() {
    let mut report = Report::new(Metadata {
        link: "x".to_string(),
        version: "y".to_string(),
    });
    let raw = vec![RawCase {
        test_type: "explode".to_string(),
        data: "00".to_string(),
        id: None,
    }];
    let err = cbor_conformance::executor::run_fixture_file(
        "bad.json".to_string(),
        raw,
        &skip_set(),
        &mut report,
    )
    .expect_err("unknown mode is a corpus error");
    assert!(err.contains("unknown test type"));
    assert!(report.files.is_empty());
}
