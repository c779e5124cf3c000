//! Per-regex naming and packing metadata for the circom circuit template:
//! everything the template needs to declare the regex sub-circuits, the
//! reveal signals, and the public arguments, derived deterministically from
//! the blueprint in declaration order.

use vstd::prelude::*;

use crate::blueprint::Blueprint;
use crate::blueprint::DecomposedRegexPart;
use crate::blueprint::Location;
use crate::blueprint::blueprint_parts_valid;
use crate::blueprint::parts_have_lengths;
use crate::layout::compute_signal_length;
use crate::layout::spec_count_public;
use crate::layout::spec_pack_size;
use crate::text::append_dec;
use crate::text::spec_dec_str;
use crate::text::upper_of;
use crate::text::uppercase;

verus! {

/// One decomposed regex with the computed fields the circom template
/// renders: name variants, buffer selection, and the comma-separated
/// reveal, index, and output-signal fragments.
pub struct RegexEntry {
    pub name: String,
    pub uppercased_name: String,
    pub max_match_length: usize,
    pub regex_circuit_name: String,
    pub location: String,
    pub max_length_of_location: usize,
    pub max_length_of_location_name: String,
    pub reveal_string: String,
    pub num_public_parts: usize,
    pub public_parts_max_length: Vec<usize>,
    pub is_hashed: bool,
    pub regex_idx_name: String,
    pub num_reveal_signals: i32,
    pub signal_regex_out_string: String,
}

/// An external input with its packed signal length.
pub struct ExternalInputEntry {
    pub name: String,
    pub max_length: usize,
    pub signal_length: usize,
}

/// Everything the circom circuit template renders.
pub struct CircuitTemplateInputs {
    pub circuit_name: String,
    pub email_header_max_length: usize,
    pub email_body_max_length: usize,
    pub ignore_body_hash_check: bool,
    pub enable_header_masking: bool,
    pub enable_body_masking: bool,
    pub remove_soft_linebreaks: bool,
    pub regexes: Vec<RegexEntry>,
    pub external_inputs: Vec<ExternalInputEntry>,
    pub public_args_string: String,
}

/// The reveal-signal list after the first `i` parts: for the `k`-th public
/// part (0-based), `", <name>RegexReveal"` when `k` is 0, else
/// `", <name>RegexReveal<k>"`.
pub open spec fn spec_reveal_string(
    name: Seq<char>,
    parts: Seq<DecomposedRegexPart>,
    i: int,
) -> Seq<char>
    decreases i,
{
    if i <= 0 {
        Seq::empty()
    } else {
        let prev = spec_reveal_string(name, parts, i - 1);
        if parts[i - 1].is_public {
            let k = spec_count_public(parts, i - 1);
            if k == 0 {
                prev + ", "@ + name + "RegexReveal"@
            } else {
                prev + ", "@ + name + "RegexReveal"@ + spec_dec_str(k)
            }
        } else {
            prev
        }
    }
}

/// The match-index signal list after the first `i` parts: `"<name>RegexIdx"`
/// for the first public part (no leading comma), `", <name>RegexIdx<k>"`
/// for the later ones.
pub open spec fn spec_regex_idx_name(
    name: Seq<char>,
    parts: Seq<DecomposedRegexPart>,
    i: int,
) -> Seq<char>
    decreases i,
{
    if i <= 0 {
        Seq::empty()
    } else {
        let prev = spec_regex_idx_name(name, parts, i - 1);
        if parts[i - 1].is_public {
            let k = spec_count_public(parts, i - 1);
            if k == 0 {
                prev + name + "RegexIdx"@
            } else {
                prev + ", "@ + name + "RegexIdx"@ + spec_dec_str(k)
            }
        } else {
            prev
        }
    }
}

/// The sized output-signal list after the first `i` parts: for the `k`-th
/// public part of declared length `m`, `", <name>RegexReveal[<m>]"` when
/// `k` is 0, else `", <name>RegexReveal<k>[<m>]"`.
pub open spec fn spec_signal_out_string(
    name: Seq<char>,
    parts: Seq<DecomposedRegexPart>,
    i: int,
) -> Seq<char>
    decreases i,
{
    if i <= 0 {
        Seq::empty()
    } else {
        let prev = spec_signal_out_string(name, parts, i - 1);
        if parts[i - 1].is_public {
            let k = spec_count_public(parts, i - 1);
            let m = parts[i - 1].max_length->0;
            if k == 0 {
                prev + ", "@ + name + "RegexReveal"@ + "["@ + spec_dec_str(m as int) + "]"@
            } else {
                prev + ", "@ + name + "RegexReveal"@ + spec_dec_str(k) + "["@ + spec_dec_str(
                    m as int,
                ) + "]"@
            }
        } else {
            prev
        }
    }
}

/// The declared lengths of the public parts among the first `i` parts,
/// in part order.
pub open spec fn spec_public_lengths(parts: Seq<DecomposedRegexPart>, i: int) -> Seq<usize>
    decreases i,
{
    if i <= 0 {
        Seq::empty()
    } else {
        let prev = spec_public_lengths(parts, i - 1);
        if parts[i - 1].is_public {
            prev.push(parts[i - 1].max_length->0)
        } else {
            prev
        }
    }
}

/// The circuit's public-argument list over the first `i` external inputs:
/// `", <name>"` for each, so the whole list carries a leading comma when
/// it is nonempty.
pub open spec fn spec_public_args_string(
    inputs: Seq<crate::blueprint::ExternalInput>,
    i: int,
) -> Seq<char>
    decreases i,
{
    if i <= 0 {
        Seq::empty()
    } else {
        spec_public_args_string(inputs, i - 1) + ", "@ + inputs[i - 1].name@
    }
}

/// The circom entry derived from regex `i` of the blueprint.
pub open spec fn regex_entry_matches(bp: Blueprint, i: int, e: RegexEntry) -> bool {
    let rx = bp.decomposed_regexes@[i];
    &&& e.name@ == rx.name@
    &&& e.uppercased_name@ == upper_of(rx.name@)
    &&& e.max_match_length == rx.max_match_length
    &&& e.regex_circuit_name@ == rx.name@ + "_regex"@
    &&& (rx.location == Location::Header ==> {
        &&& e.location@ == "emailHeader"@
        &&& e.max_length_of_location == bp.email_header_max_length
        &&& e.max_length_of_location_name@ == "maxHeaderLength"@
    })
    &&& (rx.location == Location::Body && bp.remove_soft_line_breaks ==> {
        &&& e.location@ == "decodedEmailBodyIn"@
        &&& e.max_length_of_location == bp.email_body_max_length
        &&& e.max_length_of_location_name@ == "maxBodyLength"@
    })
    &&& (rx.location == Location::Body && !bp.remove_soft_line_breaks ==> {
        &&& e.location@ == "emailBody"@
        &&& e.max_length_of_location == bp.email_body_max_length
        &&& e.max_length_of_location_name@ == "maxBodyLength"@
    })
    &&& e.reveal_string@ == spec_reveal_string(rx.name@, rx.parts@, rx.parts@.len() as int)
    &&& e.num_public_parts == spec_count_public(rx.parts@, rx.parts@.len() as int)
    &&& e.public_parts_max_length@ == spec_public_lengths(rx.parts@, rx.parts@.len() as int)
    &&& e.is_hashed == rx.is_hashed
    &&& e.regex_idx_name@ == spec_regex_idx_name(rx.name@, rx.parts@, rx.parts@.len() as int)
    &&& e.num_reveal_signals as int == spec_count_public(rx.parts@, rx.parts@.len() as int)
    &&& e.signal_regex_out_string@ == spec_signal_out_string(
        rx.name@,
        rx.parts@,
        rx.parts@.len() as int,
    )
}

/// The entry derived from external input `i` of the blueprint.
pub open spec fn input_entry_matches(bp: Blueprint, i: int, e: ExternalInputEntry) -> bool {
    let input = bp.external_inputs@[i];
    &&& e.name@ == input.name@
    &&& e.max_length == input.max_length
    &&& e.signal_length == spec_pack_size(input.max_length as int)
}

/// The complete relation between a blueprint and its circom template
/// inputs: the scalar fields copied, one entry per regex and per external
/// input in declaration order, and the public-argument list over the
/// external inputs.
pub open spec fn circuit_template_matches(bp: Blueprint, cti: CircuitTemplateInputs) -> bool {
    &&& cti.circuit_name@ == bp.circuit_name@
    &&& cti.email_header_max_length == bp.email_header_max_length
    &&& cti.email_body_max_length == bp.email_body_max_length
    &&& cti.ignore_body_hash_check == bp.ignore_body_hash_check
    &&& cti.enable_header_masking == bp.enable_header_masking
    &&& cti.enable_body_masking == bp.enable_body_masking
    &&& cti.remove_soft_linebreaks == bp.remove_soft_line_breaks
    &&& cti.regexes@.len() == bp.decomposed_regexes@.len()
    &&& forall|i: int|
        0 <= i < cti.regexes@.len() ==> #[trigger] regex_entry_matches(bp, i, cti.regexes@[i])
    &&& cti.external_inputs@.len() == bp.external_inputs@.len()
    &&& forall|i: int|
        0 <= i < cti.external_inputs@.len() ==> #[trigger] input_entry_matches(
            bp,
            i,
            cti.external_inputs@[i],
        )
    &&& cti.public_args_string@ == spec_public_args_string(
        bp.external_inputs@,
        bp.external_inputs@.len() as int,
    )
}

impl CircuitTemplateInputs {
    /// Derives the circom template inputs from a blueprint: name variants,
    /// buffer selection by location and soft-line-break handling, the
    /// per-public-part reveal, index, and output-signal fragments, packed
    /// external-input lengths, and the public-argument list.
    ///
    /// Public parts must have been validated to carry lengths, and no
    /// regex may have more parts than the reveal-signal counter can hold.
    #[verifier::loop_isolation(false)]
    pub fn from_blueprint(bp: &Blueprint) -> (r: CircuitTemplateInputs)
        requires
            blueprint_parts_valid(*bp),
            forall|i: int|
                0 <= i < bp.decomposed_regexes@.len()
                    ==> (#[trigger] bp.decomposed_regexes@[i]).parts@.len() <= i32::MAX as int,
        ensures
            circuit_template_matches(*bp, r),
    {
        let mut regexes: Vec<RegexEntry> = Vec::new();
        let num_regexes = bp.decomposed_regexes.len();
        for i in 0..num_regexes
            invariant
                regexes@.len() == i,
                forall|j: int|
                    0 <= j < i ==> #[trigger] regex_entry_matches(*bp, j, regexes@[j]),
        {
            let rx = &bp.decomposed_regexes[i];
            proof {
                assert(parts_have_lengths(bp.decomposed_regexes@[i as int]));
            }
            let name = rx.name.clone();
            let uppercased_name = uppercase(rx.name.as_str());
            let mut regex_circuit_name = rx.name.clone();
            regex_circuit_name.append("_regex");

            let (location, max_length_of_location, max_length_of_location_name) = if rx.location
                == Location::Header {
                ("emailHeader".to_owned(), bp.email_header_max_length, "maxHeaderLength".to_owned())
            } else if bp.remove_soft_line_breaks {
                (
                    "decodedEmailBodyIn".to_owned(),
                    bp.email_body_max_length,
                    "maxBodyLength".to_owned(),
                )
            } else {
                ("emailBody".to_owned(), bp.email_body_max_length, "maxBodyLength".to_owned())
            };

            let mut reveal_string = String::new();
            let mut regex_idx_name = String::new();
            let mut signal_regex_out_string = String::new();
            let mut public_parts_max_length: Vec<usize> = Vec::new();
            let mut cnt: usize = 0;
            let num_parts = rx.parts.len();
            for k in 0..num_parts
                invariant
                    num_parts == rx.parts@.len(),
                    cnt == spec_count_public(rx.parts@, k as int),
                    cnt <= k,
                    reveal_string@ == spec_reveal_string(rx.name@, rx.parts@, k as int),
                    regex_idx_name@ == spec_regex_idx_name(rx.name@, rx.parts@, k as int),
                    signal_regex_out_string@ == spec_signal_out_string(
                        rx.name@,
                        rx.parts@,
                        k as int,
                    ),
                    public_parts_max_length@ == spec_public_lengths(rx.parts@, k as int),
            {
                let part = &rx.parts[k];
                if part.is_public {
                    proof {
                        assert(rx.parts@[k as int].is_public);
                    }
                    let m = part.max_length.unwrap();

                    reveal_string.append(", ");
                    reveal_string.append(rx.name.as_str());
                    reveal_string.append("RegexReveal");
                    if cnt > 0 {
                        append_dec(&mut reveal_string, cnt);
                    }
                    if cnt == 0 {
                        regex_idx_name.append(rx.name.as_str());
                        regex_idx_name.append("RegexIdx");
                    } else {
                        regex_idx_name.append(", ");
                        regex_idx_name.append(rx.name.as_str());
                        regex_idx_name.append("RegexIdx");
                        append_dec(&mut regex_idx_name, cnt);
                    }
                    signal_regex_out_string.append(", ");
                    signal_regex_out_string.append(rx.name.as_str());
                    signal_regex_out_string.append("RegexReveal");
                    if cnt > 0 {
                        append_dec(&mut signal_regex_out_string, cnt);
                    }
                    signal_regex_out_string.append("[");
                    append_dec(&mut signal_regex_out_string, m);
                    signal_regex_out_string.append("]");

                    public_parts_max_length.push(m);
                    cnt = cnt + 1;
                }
            }

            let entry = RegexEntry {
                name,
                uppercased_name,
                max_match_length: rx.max_match_length,
                regex_circuit_name,
                location,
                max_length_of_location,
                max_length_of_location_name,
                reveal_string,
                num_public_parts: cnt,
                public_parts_max_length,
                is_hashed: rx.is_hashed,
                regex_idx_name,
                num_reveal_signals: cnt as i32,
                signal_regex_out_string,
            };
            proof {
                assert(regex_entry_matches(*bp, i as int, entry));
            }
            regexes.push(entry);
        }

        let mut external_inputs: Vec<ExternalInputEntry> = Vec::new();
        let mut public_args_string = String::new();
        let num_inputs = bp.external_inputs.len();
        for i in 0..num_inputs
            invariant
                external_inputs@.len() == i,
                forall|j: int|
                    0 <= j < i ==> #[trigger] input_entry_matches(*bp, j, external_inputs@[j]),
                public_args_string@ == spec_public_args_string(bp.external_inputs@, i as int),
        {
            let input = &bp.external_inputs[i];
            let signal_length = compute_signal_length(input.max_length);
            let entry = ExternalInputEntry {
                name: input.name.clone(),
                max_length: input.max_length,
                signal_length,
            };
            proof {
                assert(input_entry_matches(*bp, i as int, entry));
            }
            external_inputs.push(entry);
            public_args_string.append(", ");
            public_args_string.append(input.name.as_str());
        }

        CircuitTemplateInputs {
            circuit_name: bp.circuit_name.clone(),
            email_header_max_length: bp.email_header_max_length,
            email_body_max_length: bp.email_body_max_length,
            ignore_body_hash_check: bp.ignore_body_hash_check,
            enable_header_masking: bp.enable_header_masking,
            enable_body_masking: bp.enable_body_masking,
            remove_soft_linebreaks: bp.remove_soft_line_breaks,
            regexes,
            external_inputs,
            public_args_string,
        }
    }
}

} // verus!
