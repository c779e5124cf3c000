//! Per-regex naming and packing metadata for the noir circuit template:
//! capture and hash-input naming, buffer selection, and the circuit's
//! output argument and signal lists, derived deterministically from the
//! blueprint in declaration order.

use vstd::prelude::*;

use crate::blueprint::Blueprint;
use crate::blueprint::DecomposedRegexPart;
use crate::blueprint::Location;
use crate::blueprint::blueprint_parts_valid;
use crate::blueprint::parts_have_lengths;
use crate::layout::compute_signal_length;
use crate::layout::spec_count_public;
use crate::layout::spec_pack_size;
use crate::circom::spec_public_lengths;
use crate::text::append_dec;
use crate::text::spec_dec_str;

verus! {

/// One decomposed regex with the computed fields the noir template
/// renders: naming, buffer selection, hash packing, and the capture and
/// hash-input lists.
pub struct RegexEntry {
    pub name: String,
    pub max_match_length: usize,
    pub regex_circuit_name: String,
    pub location: String,
    pub max_length_of_location: usize,
    pub num_public_parts: usize,
    pub public_parts_max_length: Vec<usize>,
    pub is_hashed: bool,
    pub hash_packing_size: usize,
    pub hash_inputs: String,
    pub capture_string: String,
}

/// An external input with its packed signal length.
pub struct ExternalInputEntry {
    pub name: String,
    pub max_length: usize,
    pub signal_length: usize,
}

/// Everything the noir circuit template renders.
pub struct CircuitTemplateInputs {
    pub circuit_name: String,
    pub email_header_max_length: usize,
    pub email_body_max_length: usize,
    pub ignore_body_hash_check: bool,
    pub remove_soft_line_breaks: bool,
    pub regexes: Vec<RegexEntry>,
    pub external_inputs: Vec<ExternalInputEntry>,
    pub output_args: String,
    pub output_signals: String,
}

/// The capture list after the first `i` parts: `"<name>_capture_<k>"` for
/// the `k`-th public part (1-based), comma-separated.
pub open spec fn spec_capture_string(
    name: Seq<char>,
    parts: Seq<DecomposedRegexPart>,
    i: int,
) -> Seq<char>
    decreases i,
{
    if i <= 0 {
        Seq::empty()
    } else {
        let prev = spec_capture_string(name, parts, i - 1);
        if parts[i - 1].is_public {
            let k = spec_count_public(parts, i - 1) + 1;
            if prev.len() == 0 {
                prev + name + "_capture_"@ + spec_dec_str(k)
            } else {
                prev + ", "@ + name + "_capture_"@ + spec_dec_str(k)
            }
        } else {
            prev
        }
    }
}

/// Appends to `acc` the hash inputs of public part `k`: one item
/// `"<name>_capture_<k>_packed[<x>]"` per packed element `x` below `j`,
/// each separated from a nonempty list by a comma.
pub open spec fn spec_hash_part_items(
    name: Seq<char>,
    k: int,
    j: int,
    acc: Seq<char>,
) -> Seq<char>
    decreases j,
{
    if j <= 0 {
        acc
    } else {
        let prev = spec_hash_part_items(name, k, j - 1, acc);
        if prev.len() == 0 {
            prev + name + "_capture_"@ + spec_dec_str(k) + "_packed["@ + spec_dec_str(j - 1)
                + "]"@
        } else {
            prev + ", "@ + name + "_capture_"@ + spec_dec_str(k) + "_packed["@ + spec_dec_str(
                j - 1,
            ) + "]"@
        }
    }
}

/// The full hash-input list after the first `i` parts: `size` packed items
/// for each public part, in part order.
pub open spec fn spec_hash_items(
    name: Seq<char>,
    parts: Seq<DecomposedRegexPart>,
    size: int,
    i: int,
) -> Seq<char>
    decreases i,
{
    if i <= 0 {
        Seq::empty()
    } else {
        let prev = spec_hash_items(name, parts, size, i - 1);
        if parts[i - 1].is_public {
            spec_hash_part_items(name, spec_count_public(parts, i - 1) + 1, size, prev)
        } else {
            prev
        }
    }
}

/// The output-signal list over the first `i` external inputs.
pub open spec fn spec_output_signals_inputs(
    inputs: Seq<crate::blueprint::ExternalInput>,
    i: int,
) -> Seq<char>
    decreases i,
{
    if i <= 0 {
        Seq::empty()
    } else {
        spec_output_signals_inputs(inputs, i - 1) + ", "@ + inputs[i - 1].name@
    }
}

/// The circuit's output-signal list: the external inputs first, then per
/// regex with public parts either its packed hash or its captures.
pub open spec fn spec_output_signals(bp: Blueprint, i: int) -> Seq<char>
    decreases i,
{
    if i <= 0 {
        spec_output_signals_inputs(bp.external_inputs@, bp.external_inputs@.len() as int)
    } else {
        let prev = spec_output_signals(bp, i - 1);
        let rx = bp.decomposed_regexes@[i - 1];
        let cnt = spec_count_public(rx.parts@, rx.parts@.len() as int);
        if cnt > 0 {
            if rx.is_hashed {
                prev + ", "@ + rx.name@ + "_packed_hash"@
            } else {
                prev + ", "@ + spec_capture_string(rx.name@, rx.parts@, rx.parts@.len() as int)
            }
        } else {
            prev
        }
    }
}

/// The output-argument list over the first `i` external inputs: one sized
/// field array per input.
pub open spec fn spec_output_args_inputs(
    inputs: Seq<crate::blueprint::ExternalInput>,
    i: int,
) -> Seq<char>
    decreases i,
{
    if i <= 0 {
        Seq::empty()
    } else {
        spec_output_args_inputs(inputs, i - 1) + ", [Field; "@ + spec_dec_str(
            spec_pack_size(inputs[i - 1].max_length as int),
        ) + "]"@
    }
}

/// Appends to `acc` one length-bounded byte-vector argument per declared
/// public-part length below `j`.
pub open spec fn spec_bounded_vec_args(lens: Seq<usize>, j: int, acc: Seq<char>) -> Seq<char>
    decreases j,
{
    if j <= 0 {
        acc
    } else {
        spec_bounded_vec_args(lens, j - 1, acc) + ", BoundedVec<u8, "@ + spec_dec_str(
            lens[j - 1] as int,
        ) + ">"@
    }
}

/// The circuit's output-argument list: the external inputs first, then per
/// regex with public parts either one field element (hashed) or one
/// length-bounded byte vector per public part.
pub open spec fn spec_output_args(bp: Blueprint, i: int) -> Seq<char>
    decreases i,
{
    if i <= 0 {
        spec_output_args_inputs(bp.external_inputs@, bp.external_inputs@.len() as int)
    } else {
        let prev = spec_output_args(bp, i - 1);
        let rx = bp.decomposed_regexes@[i - 1];
        let cnt = spec_count_public(rx.parts@, rx.parts@.len() as int);
        if cnt > 0 {
            if rx.is_hashed {
                prev + ", Field"@
            } else {
                let lens = spec_public_lengths(rx.parts@, rx.parts@.len() as int);
                spec_bounded_vec_args(lens, lens.len() as int, prev)
            }
        } else {
            prev
        }
    }
}

/// The noir entry derived from regex `i` of the blueprint.
pub open spec fn regex_entry_matches(bp: Blueprint, i: int, e: RegexEntry) -> bool {
    let rx = bp.decomposed_regexes@[i];
    &&& e.name@ == rx.name@
    &&& e.max_match_length == rx.max_match_length
    &&& e.regex_circuit_name@ == rx.name@ + "_regex"@
    &&& (rx.location == Location::Header ==> e.location@ == "header"@
        && e.max_length_of_location == bp.email_header_max_length)
    &&& (rx.location == Location::Body && bp.remove_soft_line_breaks ==> e.location@
        == "decoded_body"@ && e.max_length_of_location == bp.email_body_max_length)
    &&& (rx.location == Location::Body && !bp.remove_soft_line_breaks ==> e.location@ == "body"@
        && e.max_length_of_location == bp.email_body_max_length)
    &&& e.num_public_parts == spec_count_public(rx.parts@, rx.parts@.len() as int)
    &&& e.public_parts_max_length@ == spec_public_lengths(rx.parts@, rx.parts@.len() as int)
    &&& e.is_hashed == rx.is_hashed
    &&& e.hash_packing_size == spec_pack_size(rx.max_match_length as int)
    &&& e.hash_inputs@ == (if rx.is_hashed {
        spec_hash_items(
            rx.name@,
            rx.parts@,
            spec_pack_size(rx.max_match_length as int),
            rx.parts@.len() as int,
        )
    } else {
        Seq::<char>::empty()
    })
    &&& e.capture_string@ == spec_capture_string(rx.name@, rx.parts@, rx.parts@.len() as int)
}

/// The entry derived from external input `i` of the blueprint.
pub open spec fn input_entry_matches(bp: Blueprint, i: int, e: ExternalInputEntry) -> bool {
    let input = bp.external_inputs@[i];
    &&& e.name@ == input.name@
    &&& e.max_length == input.max_length
    &&& e.signal_length == spec_pack_size(input.max_length as int)
}

/// The complete relation between a blueprint and its noir template inputs.
pub open spec fn circuit_template_matches(bp: Blueprint, cti: CircuitTemplateInputs) -> bool {
    &&& cti.circuit_name@ == bp.circuit_name@
    &&& cti.email_header_max_length == bp.email_header_max_length
    &&& cti.email_body_max_length == bp.email_body_max_length
    &&& cti.ignore_body_hash_check == bp.ignore_body_hash_check
    &&& cti.remove_soft_line_breaks == bp.remove_soft_line_breaks
    &&& cti.regexes@.len() == bp.decomposed_regexes@.len()
    &&& forall|i: int|
        0 <= i < cti.regexes@.len() ==> #[trigger] regex_entry_matches(bp, i, cti.regexes@[i])
    &&& cti.external_inputs@.len() == bp.external_inputs@.len()
    &&& forall|i: int|
        0 <= i < cti.external_inputs@.len() ==> #[trigger] input_entry_matches(
            bp,
            i,
            cti.external_inputs@[i],
        )
    &&& cti.output_signals@ == spec_output_signals(bp, bp.decomposed_regexes@.len() as int)
    &&& cti.output_args@ == spec_output_args(bp, bp.decomposed_regexes@.len() as int)
}

impl CircuitTemplateInputs {
    /// Derives the noir template inputs from a blueprint: naming and
    /// buffer selection per regex, hash packing sizes, capture and
    /// hash-input lists, packed external-input lengths, and the output
    /// argument and signal lists (external inputs first, then regexes).
    ///
    /// Public parts must have been validated to carry lengths.
    #[verifier::loop_isolation(false)]
    pub fn from_blueprint(bp: &Blueprint) -> (r: CircuitTemplateInputs)
        requires
            blueprint_parts_valid(*bp),
        ensures
            circuit_template_matches(*bp, r),
    {
        let mut regexes: Vec<RegexEntry> = Vec::new();
        let num_regexes = bp.decomposed_regexes.len();
        for i in 0..num_regexes
            invariant
                regexes@.len() == i,
                forall|j: int|
                    0 <= j < i ==> #[trigger] regex_entry_matches(*bp, j, regexes@[j]),
        {
            let rx = &bp.decomposed_regexes[i];
            proof {
                assert(parts_have_lengths(bp.decomposed_regexes@[i as int]));
            }
            let name = rx.name.clone();
            let mut regex_circuit_name = rx.name.clone();
            regex_circuit_name.append("_regex");

            let (location, max_length_of_location) = if rx.location == Location::Header {
                ("header".to_owned(), bp.email_header_max_length)
            } else if bp.remove_soft_line_breaks {
                ("decoded_body".to_owned(), bp.email_body_max_length)
            } else {
                ("body".to_owned(), bp.email_body_max_length)
            };

            let hash_packing_size = compute_signal_length(rx.max_match_length);
            let mut hash_items = String::new();
            let mut capture_string = String::new();
            let mut public_parts_max_length: Vec<usize> = Vec::new();
            let mut cnt: usize = 0;
            let num_parts = rx.parts.len();
            for k in 0..num_parts
                invariant
                    num_parts == rx.parts@.len(),
                    cnt == spec_count_public(rx.parts@, k as int),
                    cnt <= k,
                    hash_items@ == spec_hash_items(
                        rx.name@,
                        rx.parts@,
                        hash_packing_size as int,
                        k as int,
                    ),
                    capture_string@ == spec_capture_string(rx.name@, rx.parts@, k as int),
                    public_parts_max_length@ == spec_public_lengths(rx.parts@, k as int),
            {
                let part = &rx.parts[k];
                if part.is_public {
                    proof {
                        assert(rx.parts@[k as int].is_public);
                    }
                    let m = part.max_length.unwrap();
                    cnt = cnt + 1;
                    public_parts_max_length.push(m);

                    let ghost at_part_start = hash_items@;
                    let mut x: usize = 0;
                    while x < hash_packing_size
                        invariant
                            x <= hash_packing_size,
                            cnt == spec_count_public(rx.parts@, k as int) + 1,
                            hash_items@ == spec_hash_part_items(
                                rx.name@,
                                cnt as int,
                                x as int,
                                at_part_start,
                            ),
                        decreases hash_packing_size - x,
                    {
                        if !hash_items.as_str().is_empty() {
                            hash_items.append(", ");
                        }
                        hash_items.append(rx.name.as_str());
                        hash_items.append("_capture_");
                        append_dec(&mut hash_items, cnt);
                        hash_items.append("_packed[");
                        append_dec(&mut hash_items, x);
                        hash_items.append("]");
                        x = x + 1;
                    }

                    if !capture_string.as_str().is_empty() {
                        capture_string.append(", ");
                    }
                    capture_string.append(rx.name.as_str());
                    capture_string.append("_capture_");
                    append_dec(&mut capture_string, cnt);
                }
            }

            let hash_inputs = if rx.is_hashed {
                hash_items
            } else {
                String::new()
            };
            let entry = RegexEntry {
                name,
                max_match_length: rx.max_match_length,
                regex_circuit_name,
                location,
                max_length_of_location,
                num_public_parts: cnt,
                public_parts_max_length,
                is_hashed: rx.is_hashed,
                hash_packing_size,
                hash_inputs,
                capture_string,
            };
            proof {
                assert(regex_entry_matches(*bp, i as int, entry));
            }
            regexes.push(entry);
        }

        let mut external_inputs: Vec<ExternalInputEntry> = Vec::new();
        let mut output_signals = String::new();
        let mut output_args = String::new();
        let num_inputs = bp.external_inputs.len();
        for i in 0..num_inputs
            invariant
                external_inputs@.len() == i,
                forall|j: int|
                    0 <= j < i ==> #[trigger] input_entry_matches(*bp, j, external_inputs@[j]),
                output_signals@ == spec_output_signals_inputs(bp.external_inputs@, i as int),
                output_args@ == spec_output_args_inputs(bp.external_inputs@, i as int),
        {
            let input = &bp.external_inputs[i];
            let signal_length = compute_signal_length(input.max_length);
            let entry = ExternalInputEntry {
                name: input.name.clone(),
                max_length: input.max_length,
                signal_length,
            };
            proof {
                assert(input_entry_matches(*bp, i as int, entry));
            }
            external_inputs.push(entry);
            output_signals.append(", ");
            output_signals.append(input.name.as_str());
            output_args.append(", [Field; ");
            append_dec(&mut output_args, signal_length);
            output_args.append("]");
        }

        let num_entries = regexes.len();
        let mut e: usize = 0;
        while e < num_entries
            invariant
                e <= num_entries,
                num_entries == regexes@.len(),
                output_signals@ == spec_output_signals(*bp, e as int),
                output_args@ == spec_output_args(*bp, e as int),
            decreases num_entries - e,
        {
            let entry = &regexes[e];
            proof {
                assert(regex_entry_matches(*bp, e as int, regexes@[e as int]));
            }
            if entry.num_public_parts > 0 {
                if entry.is_hashed {
                    output_signals.append(", ");
                    output_signals.append(entry.name.as_str());
                    output_signals.append("_packed_hash");
                    output_args.append(", Field");
                } else {
                    output_signals.append(", ");
                    output_signals.append(entry.capture_string.as_str());
                    let num_lens = entry.public_parts_max_length.len();
                    let ghost before_args = output_args@;
                    let mut j: usize = 0;
                    while j < num_lens
                        invariant
                            j <= num_lens,
                            num_lens == entry.public_parts_max_length@.len(),
                            output_args@ == spec_bounded_vec_args(
                                entry.public_parts_max_length@,
                                j as int,
                                before_args,
                            ),
                        decreases num_lens - j,
                    {
                        output_args.append(", BoundedVec<u8, ");
                        append_dec(&mut output_args, entry.public_parts_max_length[j]);
                        output_args.append(">");
                        j = j + 1;
                    }
                }
            }
            e = e + 1;
        }

        CircuitTemplateInputs {
            circuit_name: bp.circuit_name.clone(),
            email_header_max_length: bp.email_header_max_length,
            email_body_max_length: bp.email_body_max_length,
            ignore_body_hash_check: bp.ignore_body_hash_check,
            remove_soft_line_breaks: bp.remove_soft_line_breaks,
            regexes,
            external_inputs,
            output_args,
            output_signals,
        }
    }
}

} // verus!
