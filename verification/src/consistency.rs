//! Cross-emitter consistency: the decode layout and both circuit emitters
//! derive their entries from one blueprint walk, so the revealed-value
//! names appear in the same blueprint declaration order on every side.
//!
//! The relative placement of the two groups is backend-specific and is the
//! one point where the sides diverge: the decode layout places external
//! inputs after all regex values, the noir circuit's output lists place
//! them before, and the circom circuit passes only external inputs as
//! public arguments.  That divergence is observable and documented by the
//! accompanying tests; it is not resolved here.

use vstd::prelude::*;

use crate::blueprint::Blueprint;
use crate::circom;
use crate::layout::ContractData;
use crate::layout::contract_data_matches;
use crate::layout::field_matches_input;
use crate::layout::field_matches_regex;
use crate::noir;

verus! {

/// Names of the blueprint's regexes, in declaration order.
pub open spec fn spec_regex_names(bp: Blueprint) -> Seq<Seq<char>> {
    bp.decomposed_regexes@.map_values(|r: crate::blueprint::DecomposedRegex| r.name@)
}

/// Names of the blueprint's external inputs, in declaration order.
pub open spec fn spec_input_names(bp: Blueprint) -> Seq<Seq<char>> {
    bp.external_inputs@.map_values(|x: crate::blueprint::ExternalInput| x.name@)
}

/// Cross-emitter consistency of naming order: for one blueprint, the
/// decode layout's entries, the circom emitter's regex entries, and the
/// noir emitter's regex entries all carry the regex names in blueprint
/// declaration order, and likewise all three carry the external-input
/// names in declaration order.
pub proof fn lemma_cross_emitter_names(
    bp: Blueprint,
    cd: ContractData,
    circom_inputs: circom::CircuitTemplateInputs,
    noir_inputs: noir::CircuitTemplateInputs,
)
    requires
        contract_data_matches(bp, cd),
        circom::circuit_template_matches(bp, circom_inputs),
        noir::circuit_template_matches(bp, noir_inputs),
    ensures
        cd.values@.map_values(|f: crate::layout::Field| f.name@) == spec_regex_names(bp),
        circom_inputs.regexes@.map_values(|e: circom::RegexEntry| e.name@) == spec_regex_names(
            bp,
        ),
        noir_inputs.regexes@.map_values(|e: noir::RegexEntry| e.name@) == spec_regex_names(bp),
        cd.external_inputs@.map_values(|f: crate::layout::Field| f.name@) == spec_input_names(
            bp,
        ),
        circom_inputs.external_inputs@.map_values(|e: circom::ExternalInputEntry| e.name@)
            == spec_input_names(bp),
        noir_inputs.external_inputs@.map_values(|e: noir::ExternalInputEntry| e.name@)
            == spec_input_names(bp),
{
    assert forall|i: int| 0 <= i < bp.decomposed_regexes@.len() implies {
        &&& cd.values@.map_values(|f: crate::layout::Field| f.name@)[i] == spec_regex_names(
            bp,
        )[i]
        &&& circom_inputs.regexes@.map_values(|e: circom::RegexEntry| e.name@)[i]
            == spec_regex_names(bp)[i]
        &&& noir_inputs.regexes@.map_values(|e: noir::RegexEntry| e.name@)[i]
            == spec_regex_names(bp)[i]
    } by {
        assert(field_matches_regex(bp, i, cd.values@[i]));
        assert(circom::regex_entry_matches(bp, i, circom_inputs.regexes@[i]));
        assert(noir::regex_entry_matches(bp, i, noir_inputs.regexes@[i]));
    }
    assert forall|i: int| 0 <= i < bp.external_inputs@.len() implies {
        &&& cd.external_inputs@.map_values(|f: crate::layout::Field| f.name@)[i]
            == spec_input_names(bp)[i]
        &&& circom_inputs.external_inputs@.map_values(|e: circom::ExternalInputEntry| e.name@)[i]
            == spec_input_names(bp)[i]
        &&& noir_inputs.external_inputs@.map_values(|e: noir::ExternalInputEntry| e.name@)[i]
            == spec_input_names(bp)[i]
    } by {
        assert(field_matches_input(bp, i, cd.external_inputs@[i]));
        assert(circom::input_entry_matches(bp, i, circom_inputs.external_inputs@[i]));
        assert(noir::input_entry_matches(bp, i, noir_inputs.external_inputs@[i]));
    }
    assert(cd.values@.map_values(|f: crate::layout::Field| f.name@) =~= spec_regex_names(bp));
    assert(circom_inputs.regexes@.map_values(|e: circom::RegexEntry| e.name@)
        =~= spec_regex_names(bp));
    assert(noir_inputs.regexes@.map_values(|e: noir::RegexEntry| e.name@) =~= spec_regex_names(
        bp,
    ));
    assert(cd.external_inputs@.map_values(|f: crate::layout::Field| f.name@)
        =~= spec_input_names(bp));
    assert(circom_inputs.external_inputs@.map_values(|e: circom::ExternalInputEntry| e.name@)
        =~= spec_input_names(bp));
    assert(noir_inputs.external_inputs@.map_values(|e: noir::ExternalInputEntry| e.name@)
        =~= spec_input_names(bp));
}

} // verus!
