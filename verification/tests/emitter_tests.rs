use zkemail_layout::blueprint::Blueprint;
use zkemail_layout::blueprint::DecomposedRegex;
use zkemail_layout::blueprint::DecomposedRegexPart;
use zkemail_layout::blueprint::ExternalInput;
use zkemail_layout::blueprint::Location;
use zkemail_layout::circom;
use zkemail_layout::layout::prepare_contract_data;
use zkemail_layout::noir;
use zkemail_layout::text::collapse_newlines;

fn part(public: bool, def: &str, len: Option<usize>) -> DecomposedRegexPart {
    DecomposedRegexPart {
        is_public: public,
        regex_def: def.to_string(),
        max_length: len,
    }
}

fn apple_like_blueprint() -> Blueprint {
    Blueprint {
        circuit_name: "AppleKYC".to_string(),
        email_header_max_length: 2048,
        email_body_max_length: 0,
        ignore_body_hash_check: true,
        enable_header_masking: false,
        enable_body_masking: false,
        remove_soft_line_breaks: true,
        sender_domain: Some("email.apple.com".to_string()),
        decomposed_regexes: vec![DecomposedRegex {
            name: "Subject".to_string(),
            max_match_length: 256,
            location: Location::Header,
            is_hashed: false,
            parts: vec![
                part(false, "(?:\r\n|^)subject:", None),
                part(true, "[^\r\n]+", Some(20)),
                part(false, "\r\n", None),
            ],
        }],
        external_inputs: vec![ExternalInput {
            name: "address".to_string(),
            max_length: 44,
        }],
        zk_framework: None,
    }
}

fn kraken_like_blueprint() -> Blueprint {
    Blueprint {
        circuit_name: "krakenintermediate".to_string(),
        email_header_max_length: 1088,
        email_body_max_length: 4096,
        ignore_body_hash_check: true,
        enable_header_masking: false,
        enable_body_masking: false,
        remove_soft_line_breaks: false,
        sender_domain: Some("kraken.com".to_string()),
        decomposed_regexes: vec![DecomposedRegex {
            name: "EmailSubject".to_string(),
            max_match_length: 64,
            location: Location::Header,
            is_hashed: true,
            parts: vec![
                part(true, "subject:", Some(20)),
                part(true, "Good news: your account is now Intermediate!", Some(20)),
            ],
        }],
        external_inputs: vec![ExternalInput {
            name: "test".to_string(),
            max_length: 4096,
        }],
        zk_framework: None,
    }
}

#[test]
fn circom_single_public_part() {
    let bp = apple_like_blueprint();
    let cti = circom::CircuitTemplateInputs::from_blueprint(&bp);
    assert_eq!(cti.circuit_name, "AppleKYC");
    assert_eq!(cti.regexes.len(), 1);
    let e = &cti.regexes[0];
    assert_eq!(e.name, "Subject");
    assert_eq!(e.uppercased_name, "SUBJECT");
    assert_eq!(e.regex_circuit_name, "Subject_regex");
    assert_eq!(e.max_match_length, 256);
    assert_eq!(e.location, "emailHeader");
    assert_eq!(e.max_length_of_location, 2048);
    assert_eq!(e.max_length_of_location_name, "maxHeaderLength");
    assert_eq!(e.reveal_string, ", SubjectRegexReveal");
    assert_eq!(e.regex_idx_name, "SubjectRegexIdx");
    assert_eq!(e.signal_regex_out_string, ", SubjectRegexReveal[20]");
    assert_eq!(e.num_public_parts, 1);
    assert_eq!(e.num_reveal_signals, 1);
    assert_eq!(e.public_parts_max_length, vec![20]);
    assert!(!e.is_hashed);
    assert_eq!(cti.external_inputs.len(), 1);
    assert_eq!(cti.external_inputs[0].name, "address");
    assert_eq!(cti.external_inputs[0].max_length, 44);
    assert_eq!(cti.external_inputs[0].signal_length, 2);
    assert_eq!(cti.public_args_string, ", address");
}

#[test]
fn circom_two_public_parts_numbering() {
    let bp = kraken_like_blueprint();
    let cti = circom::CircuitTemplateInputs::from_blueprint(&bp);
    let e = &cti.regexes[0];
    assert_eq!(e.reveal_string, ", EmailSubjectRegexReveal, EmailSubjectRegexReveal1");
    assert_eq!(e.regex_idx_name, "EmailSubjectRegexIdx, EmailSubjectRegexIdx1");
    assert_eq!(
        e.signal_regex_out_string,
        ", EmailSubjectRegexReveal[20], EmailSubjectRegexReveal1[20]"
    );
    assert_eq!(e.num_public_parts, 2);
    assert_eq!(e.num_reveal_signals, 2);
    assert_eq!(e.public_parts_max_length, vec![20, 20]);
    assert!(e.is_hashed);
}

#[test]
fn circom_body_buffer_selection() {
    let mut bp = apple_like_blueprint();
    bp.decomposed_regexes[0].location = Location::Body;
    bp.remove_soft_line_breaks = true;
    let cti = circom::CircuitTemplateInputs::from_blueprint(&bp);
    assert_eq!(cti.regexes[0].location, "decodedEmailBodyIn");
    assert_eq!(cti.regexes[0].max_length_of_location, 0);
    assert_eq!(cti.regexes[0].max_length_of_location_name, "maxBodyLength");

    bp.remove_soft_line_breaks = false;
    let cti = circom::CircuitTemplateInputs::from_blueprint(&bp);
    assert_eq!(cti.regexes[0].location, "emailBody");
}

#[test]
fn circom_no_external_inputs_empty_args() {
    let mut bp = apple_like_blueprint();
    bp.external_inputs = Vec::new();
    let cti = circom::CircuitTemplateInputs::from_blueprint(&bp);
    assert_eq!(cti.public_args_string, "");
}

#[test]
fn noir_capture_and_buffer_names() {
    let mut bp = apple_like_blueprint();
    bp.decomposed_regexes[0].location = Location::Body;
    let cti = noir::CircuitTemplateInputs::from_blueprint(&bp);
    let e = &cti.regexes[0];
    assert_eq!(e.name, "Subject");
    assert_eq!(e.regex_circuit_name, "Subject_regex");
    assert_eq!(e.location, "decoded_body");
    assert_eq!(e.capture_string, "Subject_capture_1");
    assert_eq!(e.hash_inputs, "");
    assert_eq!(e.num_public_parts, 1);
    // pack size of the full match length, used for hash packing
    assert_eq!(e.hash_packing_size, (256 + 30) / 31);
}

#[test]
fn noir_hashed_regex_hash_inputs() {
    let bp = kraken_like_blueprint();
    let cti = noir::CircuitTemplateInputs::from_blueprint(&bp);
    let e = &cti.regexes[0];
    assert_eq!(e.location, "header");
    assert_eq!(e.hash_packing_size, 3);
    assert_eq!(e.capture_string, "EmailSubject_capture_1, EmailSubject_capture_2");
    assert_eq!(
        e.hash_inputs,
        "EmailSubject_capture_1_packed[0], EmailSubject_capture_1_packed[1], \
         EmailSubject_capture_1_packed[2], EmailSubject_capture_2_packed[0], \
         EmailSubject_capture_2_packed[1], EmailSubject_capture_2_packed[2]"
    );
    // External inputs come first in the noir output lists.
    assert_eq!(cti.output_signals, ", test, EmailSubject_packed_hash");
    assert_eq!(cti.output_args, ", [Field; 133], Field");
}

#[test]
fn noir_unhashed_output_lists() {
    let bp = apple_like_blueprint();
    let cti = noir::CircuitTemplateInputs::from_blueprint(&bp);
    assert_eq!(cti.output_signals, ", address, Subject_capture_1");
    assert_eq!(cti.output_args, ", [Field; 2], BoundedVec<u8, 20>");
}

#[test]
fn cross_emitter_name_order_and_known_divergence() {
    // Both emitters and the decode layout enumerate the revealed regex
    // values and the external inputs in blueprint declaration order.
    let bp = apple_like_blueprint();
    let cd = prepare_contract_data(&bp).unwrap();
    let circom_cti = circom::CircuitTemplateInputs::from_blueprint(&bp);
    let noir_cti = noir::CircuitTemplateInputs::from_blueprint(&bp);

    let layout_regex_names: Vec<&str> = cd.values.iter().map(|f| f.name.as_str()).collect();
    let circom_regex_names: Vec<&str> =
        circom_cti.regexes.iter().map(|e| e.name.as_str()).collect();
    let noir_regex_names: Vec<&str> = noir_cti.regexes.iter().map(|e| e.name.as_str()).collect();
    assert_eq!(layout_regex_names, vec!["Subject"]);
    assert_eq!(circom_regex_names, layout_regex_names);
    assert_eq!(noir_regex_names, layout_regex_names);

    let layout_input_names: Vec<&str> =
        cd.external_inputs.iter().map(|f| f.name.as_str()).collect();
    let circom_input_names: Vec<&str> =
        circom_cti.external_inputs.iter().map(|e| e.name.as_str()).collect();
    let noir_input_names: Vec<&str> =
        noir_cti.external_inputs.iter().map(|e| e.name.as_str()).collect();
    assert_eq!(layout_input_names, vec!["address"]);
    assert_eq!(circom_input_names, layout_input_names);
    assert_eq!(noir_input_names, layout_input_names);

    // Known divergence between the backends' group placement: the decode
    // layout puts external inputs after all regex values, while the noir
    // output lists put them before.  The full exact-match property
    // therefore fails for any blueprint with both a revealed regex value
    // and an external input; these assertions document the divergence.
    assert!(cd.external_inputs[0].start_idx > cd.values[0].start_idx);
    assert_eq!(noir_cti.output_signals, ", address, Subject_capture_1");
}

#[test]
fn collapse_newline_runs() {
    assert_eq!(collapse_newlines("a\n\n\nb\n\nc"), "a\nb\nc");
    assert_eq!(collapse_newlines("\n\n\n"), "\n");
    assert_eq!(collapse_newlines("no newlines"), "no newlines");
    assert_eq!(collapse_newlines(""), "");
    assert_eq!(collapse_newlines("line1\nline2\n"), "line1\nline2\n");
}
