use zkemail_layout::blueprint::Blueprint;
use zkemail_layout::blueprint::DecomposedRegex;
use zkemail_layout::blueprint::DecomposedRegexPart;
use zkemail_layout::blueprint::Location;
use zkemail_layout::blueprint::PatternPart;
use zkemail_layout::blueprint::Status;
use zkemail_layout::blueprint::ValidationError;
use zkemail_layout::blueprint::pattern_parts;
use zkemail_layout::blueprint::status_from_code;
use zkemail_layout::blueprint::validate_blueprint;
use zkemail_layout::layout::compute_signal_length;
use zkemail_layout::layout::prepare_contract_data;

fn part(public: bool, def: &str, len: Option<usize>) -> DecomposedRegexPart {
    DecomposedRegexPart {
        is_public: public,
        regex_def: def.to_string(),
        max_length: len,
    }
}

fn blueprint(regexes: Vec<DecomposedRegex>) -> Blueprint {
    Blueprint {
        circuit_name: "circuit".to_string(),
        email_header_max_length: 1024,
        email_body_max_length: 2048,
        ignore_body_hash_check: false,
        enable_header_masking: false,
        enable_body_masking: false,
        remove_soft_line_breaks: false,
        sender_domain: Some("example.com".to_string()),
        decomposed_regexes: regexes,
        external_inputs: Vec::new(),
        zk_framework: None,
    }
}

#[test]
fn pack_size_formula() {
    assert_eq!(compute_signal_length(0), 0);
    assert_eq!(compute_signal_length(1), 1);
    assert_eq!(compute_signal_length(31), 1);
    assert_eq!(compute_signal_length(32), 2);
    assert_eq!(compute_signal_length(62), 2);
    assert_eq!(compute_signal_length(64), 3);
    assert_eq!(compute_signal_length(4096), 133);
}

#[test]
fn scenario_subject_header_layout() {
    // Header-only regex `Subject`, max match 64, one public part of
    // length 20, not hashed, no external inputs.
    let bp = blueprint(vec![DecomposedRegex {
        name: "Subject".to_string(),
        max_match_length: 64,
        location: Location::Header,
        is_hashed: false,
        parts: vec![
            part(false, "(?:\r\n|^)subject:", None),
            part(true, "[a-z]+", Some(20)),
            part(false, "\r\n", None),
        ],
    }]);
    let cd = prepare_contract_data(&bp).unwrap();
    assert_eq!(cd.values.len(), 1);
    assert_eq!(cd.values[0].name, "Subject");
    assert_eq!(cd.values[0].pack_size, 3);
    assert_eq!(cd.values[0].start_idx, 1);
    assert_eq!(cd.prover_eth_address_idx, 4);
    assert_eq!(cd.signal_size, 8);
    assert_eq!(cd.sender_domain, "example.com");
}

#[test]
fn ordering_two_regexes() {
    // Regex A: one public non-hashed part, match length 40 (packs to 2).
    // Regex B: one public hashed part (consumes a single slot).
    let bp = blueprint(vec![
        DecomposedRegex {
            name: "A".to_string(),
            max_match_length: 40,
            location: Location::Header,
            is_hashed: false,
            parts: vec![part(true, "x+", Some(10))],
        },
        DecomposedRegex {
            name: "B".to_string(),
            max_match_length: 64,
            location: Location::Header,
            is_hashed: true,
            parts: vec![part(true, "y+", Some(10))],
        },
    ]);
    let cd = prepare_contract_data(&bp).unwrap();
    assert_eq!(cd.values.len(), 2);
    assert_eq!(cd.values[0].name, "A");
    assert_eq!(cd.values[1].name, "B");
    assert_eq!(cd.values[0].pack_size, 2);
    assert_eq!(cd.values[0].start_idx, 1);
    // Running index after A is 3; B's hashed part takes one slot there.
    assert_eq!(cd.values[1].start_idx, 3);
    assert_eq!(cd.prover_eth_address_idx, 4);
}

#[test]
fn hashed_two_parts_cost_two_slots() {
    let bp = blueprint(vec![DecomposedRegex {
        name: "R".to_string(),
        max_match_length: 64,
        location: Location::Header,
        is_hashed: true,
        parts: vec![part(true, "a", Some(20)), part(true, "b", Some(20))],
    }]);
    let cd = prepare_contract_data(&bp).unwrap();
    // Two single-slot hash commitments: running index 1 -> 3.
    assert_eq!(cd.prover_eth_address_idx, 3);
    assert_eq!(cd.signal_size, 4 + 2 + 1);
}

#[test]
fn unhashed_two_parts_cost_two_packed_blocks() {
    let bp = blueprint(vec![DecomposedRegex {
        name: "R".to_string(),
        max_match_length: 64,
        location: Location::Header,
        is_hashed: false,
        parts: vec![part(true, "a", Some(20)), part(true, "b", Some(20))],
    }]);
    let cd = prepare_contract_data(&bp).unwrap();
    // pack_size(64) = 3, twice: running index 1 -> 7.
    assert_eq!(cd.prover_eth_address_idx, 7);
    assert_eq!(cd.signal_size, 4 + 6 + 1);
}

#[test]
fn external_inputs_follow_prover_address() {
    let mut bp = blueprint(vec![DecomposedRegex {
        name: "Subject".to_string(),
        max_match_length: 64,
        location: Location::Header,
        is_hashed: false,
        parts: vec![part(true, "[a-z]+", Some(20))],
    }]);
    bp.external_inputs = vec![
        zkemail_layout::blueprint::ExternalInput {
            name: "address".to_string(),
            max_length: 44,
        },
        zkemail_layout::blueprint::ExternalInput {
            name: "nonce".to_string(),
            max_length: 31,
        },
    ];
    let cd = prepare_contract_data(&bp).unwrap();
    assert_eq!(cd.prover_eth_address_idx, 4);
    assert_eq!(cd.external_inputs.len(), 2);
    assert_eq!(cd.external_inputs[0].name, "address");
    assert_eq!(cd.external_inputs[0].pack_size, 2);
    assert_eq!(cd.external_inputs[0].start_idx, 5);
    assert_eq!(cd.external_inputs[1].name, "nonce");
    assert_eq!(cd.external_inputs[1].pack_size, 1);
    assert_eq!(cd.external_inputs[1].start_idx, 7);
    assert_eq!(cd.signal_size, 4 + 3 + 1 + 2 + 1);
}

#[test]
fn layout_is_deterministic() {
    let make = || {
        let mut bp = blueprint(vec![DecomposedRegex {
            name: "Subject".to_string(),
            max_match_length: 64,
            location: Location::Header,
            is_hashed: false,
            parts: vec![part(true, "[a-z]+", Some(20))],
        }]);
        bp.external_inputs = vec![zkemail_layout::blueprint::ExternalInput {
            name: "address".to_string(),
            max_length: 44,
        }];
        prepare_contract_data(&bp).unwrap()
    };
    let a = make();
    let b = make();
    assert_eq!(a.sender_domain, b.sender_domain);
    assert_eq!(a.signal_size, b.signal_size);
    assert_eq!(a.prover_eth_address_idx, b.prover_eth_address_idx);
    assert_eq!(a.values.len(), b.values.len());
    for (x, y) in a.values.iter().zip(b.values.iter()) {
        assert_eq!(x.name, y.name);
        assert_eq!(x.max_length, y.max_length);
        assert_eq!(x.pack_size, y.pack_size);
        assert_eq!(x.start_idx, y.start_idx);
    }
    assert_eq!(a.external_inputs.len(), b.external_inputs.len());
    for (x, y) in a.external_inputs.iter().zip(b.external_inputs.iter()) {
        assert_eq!(x.name, y.name);
        assert_eq!(x.start_idx, y.start_idx);
    }
}

#[test]
fn missing_sender_domain_is_rejected() {
    let mut bp = blueprint(Vec::new());
    bp.sender_domain = None;
    let r = prepare_contract_data(&bp);
    assert_eq!(r.unwrap_err(), ValidationError::MissingSenderDomain);
}

#[test]
fn missing_part_length_is_rejected() {
    let bp = blueprint(vec![
        DecomposedRegex {
            name: "Fine".to_string(),
            max_match_length: 64,
            location: Location::Header,
            is_hashed: false,
            parts: vec![part(true, "a", Some(20))],
        },
        DecomposedRegex {
            name: "Broken".to_string(),
            max_match_length: 64,
            location: Location::Header,
            is_hashed: false,
            parts: vec![part(true, "b", None)],
        },
    ]);
    let r = validate_blueprint(&bp);
    assert_eq!(
        r.unwrap_err(),
        ValidationError::MissingPartLength {
            regex_name: "Broken".to_string()
        }
    );
}

#[test]
fn valid_blueprint_passes_validation() {
    let bp = blueprint(vec![DecomposedRegex {
        name: "Subject".to_string(),
        max_match_length: 64,
        location: Location::Header,
        is_hashed: false,
        parts: vec![part(false, "subject:", None), part(true, "[a-z]+", Some(20))],
    }]);
    assert!(validate_blueprint(&bp).is_ok());
}

#[test]
fn pattern_parts_keeps_order_and_tags() {
    let rx = DecomposedRegex {
        name: "Subject".to_string(),
        max_match_length: 64,
        location: Location::Header,
        is_hashed: false,
        parts: vec![
            part(false, "(?:\r\n|^)subject:", None),
            part(true, "[a-z]+", Some(20)),
            part(false, "\r\n", None),
        ],
    };
    let cfg = pattern_parts(&rx).unwrap();
    assert_eq!(cfg.len(), 3);
    assert!(matches!(
        &cfg[0],
        PatternPart::Private { regex_def } if regex_def == "(?:\r\n|^)subject:"
    ));
    assert!(matches!(
        &cfg[1],
        PatternPart::Public { regex_def, max_length } if regex_def == "[a-z]+" && *max_length == 20
    ));
    assert!(matches!(
        &cfg[2],
        PatternPart::Private { regex_def } if regex_def == "\r\n"
    ));
}

#[test]
fn pattern_parts_reports_offending_regex() {
    let rx = DecomposedRegex {
        name: "downloadDataLink".to_string(),
        max_match_length: 128,
        location: Location::Body,
        is_hashed: false,
        parts: vec![part(true, "[^ ]*", None)],
    };
    let r = pattern_parts(&rx);
    assert_eq!(
        r.unwrap_err(),
        ValidationError::MissingPartLength {
            regex_name: "downloadDataLink".to_string()
        }
    );
}

#[test]
fn status_codes_map_to_statuses() {
    assert_eq!(status_from_code(1), Some(Status::Draft));
    assert_eq!(status_from_code(2), Some(Status::InProgress));
    assert_eq!(status_from_code(3), Some(Status::Done));
    assert_eq!(status_from_code(4), Some(Status::Failed));
    assert_eq!(status_from_code(0), None);
    assert_eq!(status_from_code(5), None);
    assert_eq!(status_from_code(u64::MAX), None);
}
