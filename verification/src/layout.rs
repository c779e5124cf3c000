//! The signal layout builder: the shared arithmetic core that keeps the
//! proving circuit and the on-chain decode contract in agreement about where
//! each revealed value sits in the flat public-signal vector.
//!
//! Slot 0 of the public-signal vector is reserved by the proving system and
//! never assigned, so the running index starts at 1.  Four slots are always
//! reserved (public-key commitment, prover address, and two slots for the
//! 256-bit header hash), so the slot total starts at 4.  Entries follow
//! blueprint declaration order: each regex's public parts in part order,
//! then the prover address slot, then the external inputs.

use vstd::prelude::*;

use crate::blueprint::Blueprint;
use crate::blueprint::DecomposedRegex;
use crate::blueprint::DecomposedRegexPart;
use crate::blueprint::ExternalInput;
use crate::blueprint::ValidationError;

verus! {

/// Number of field elements needed to pack `n` bytes, at 31 bytes per
/// scalar field element: the ceiling of `n / 31`.
pub open spec fn spec_pack_size(n: int) -> int {
    (n + 30) / 31
}

/// Public-signal slots consumed by one part of a regex: a private part
/// consumes none; a public part consumes one slot if the regex's reveals
/// are hash-committed, else one slot per packed field element of the
/// regex's full match length.
pub open spec fn spec_part_cost(rx: DecomposedRegex, p: DecomposedRegexPart) -> int {
    if p.is_public {
        if rx.is_hashed {
            1
        } else {
            spec_pack_size(rx.max_match_length as int)
        }
    } else {
        0
    }
}

/// Slots consumed by the first `i` parts of regex `rx`.
pub open spec fn spec_parts_cost(rx: DecomposedRegex, i: int) -> int
    decreases i,
{
    if i <= 0 {
        0
    } else {
        spec_parts_cost(rx, i - 1) + spec_part_cost(rx, rx.parts@[i - 1])
    }
}

/// Slots consumed by all parts of regex `rx`.
pub open spec fn spec_regex_cost(rx: DecomposedRegex) -> int {
    spec_parts_cost(rx, rx.parts@.len() as int)
}

/// Slots consumed by the first `i` regexes of the sequence.
pub open spec fn spec_regexes_cost(rs: Seq<DecomposedRegex>, i: int) -> int
    decreases i,
{
    if i <= 0 {
        0
    } else {
        spec_regexes_cost(rs, i - 1) + spec_regex_cost(rs[i - 1])
    }
}

/// Packed sizes of the first `i` external inputs, summed.
pub open spec fn spec_inputs_cost(inputs: Seq<ExternalInput>, i: int) -> int
    decreases i,
{
    if i <= 0 {
        0
    } else {
        spec_inputs_cost(inputs, i - 1) + spec_pack_size(inputs[i - 1].max_length as int)
    }
}

/// First public-signal slot of the entry for regex `i`: the running index
/// starts at 1 and advances by each earlier regex's slot cost.
pub open spec fn spec_regex_start_idx(bp: Blueprint, i: int) -> int {
    1 + spec_regexes_cost(bp.decomposed_regexes@, i)
}

/// Slot of the prover address: directly after all regex-derived signals.
pub open spec fn spec_prover_eth_address_idx(bp: Blueprint) -> int {
    1 + spec_regexes_cost(bp.decomposed_regexes@, bp.decomposed_regexes@.len() as int)
}

/// First slot of the entry for external input `i`: directly after the
/// prover address slot and each earlier input's packed size.
pub open spec fn spec_input_start_idx(bp: Blueprint, i: int) -> int {
    spec_prover_eth_address_idx(bp) + 1 + spec_inputs_cost(bp.external_inputs@, i)
}

/// Total public-signal slots: the 4 baseline slots, every regex's slot
/// cost, the prover address slot, and every external input's packed size.
pub open spec fn spec_total_signal_slots(bp: Blueprint) -> int {
    4 + spec_regexes_cost(bp.decomposed_regexes@, bp.decomposed_regexes@.len() as int) + 1
        + spec_inputs_cost(bp.external_inputs@, bp.external_inputs@.len() as int)
}

/// One entry of the decode layout: a revealed value's name and its position
/// in the public-signal vector.
#[derive(Debug, Clone)]
pub struct Field {
    pub name: String,
    pub max_length: usize,
    pub pack_size: usize,
    pub start_idx: usize,
}

/// Everything the on-chain decode contract needs: per-regex and per-input
/// layout entries, the prover address slot, and the slot total.
#[derive(Debug, Clone)]
pub struct ContractData {
    pub sender_domain: String,
    pub values: Vec<Field>,
    pub external_inputs: Vec<Field>,
    pub signal_size: usize,
    pub prover_eth_address_idx: usize,
}

/// The layout entry for regex `i` of the blueprint, with its start index.
pub open spec fn field_matches_regex(bp: Blueprint, i: int, f: Field) -> bool {
    &&& f.name@ == bp.decomposed_regexes@[i].name@
    &&& f.max_length == bp.decomposed_regexes@[i].max_match_length
    &&& f.pack_size == spec_pack_size(bp.decomposed_regexes@[i].max_match_length as int)
    &&& f.start_idx == spec_regex_start_idx(bp, i)
}

/// The layout entry for external input `i` of the blueprint.
pub open spec fn field_matches_input(bp: Blueprint, i: int, f: Field) -> bool {
    &&& f.name@ == bp.external_inputs@[i].name@
    &&& f.max_length == bp.external_inputs@[i].max_length
    &&& f.pack_size == spec_pack_size(bp.external_inputs@[i].max_length as int)
    &&& f.start_idx == spec_input_start_idx(bp, i)
}

/// The complete relation between a blueprint and its derived layout: one
/// entry per regex and per external input, in declaration order, at the
/// indices the running counters assign.
pub open spec fn contract_data_matches(bp: Blueprint, cd: ContractData) -> bool {
    &&& bp.sender_domain is Some
    &&& cd.sender_domain@ == bp.sender_domain->0@
    &&& cd.values@.len() == bp.decomposed_regexes@.len()
    &&& forall|i: int|
        0 <= i < cd.values@.len() ==> #[trigger] field_matches_regex(bp, i, cd.values@[i])
    &&& cd.external_inputs@.len() == bp.external_inputs@.len()
    &&& forall|i: int|
        0 <= i < cd.external_inputs@.len() ==> #[trigger] field_matches_input(
            bp,
            i,
            cd.external_inputs@[i],
        )
    &&& cd.prover_eth_address_idx == spec_prover_eth_address_idx(bp)
    &&& cd.signal_size == spec_total_signal_slots(bp)
}

/// Number of field elements needed to pack `max_length` bytes.
///
/// Packing places 31 bytes in each scalar field element (one byte of
/// margin below the field size), so this is the ceiling of
/// `max_length / 31`, and 0 bytes need 0 elements.
pub fn compute_signal_length(max_length: usize) -> (r: usize)
    ensures
        r == spec_pack_size(max_length as int),
{
    (max_length / 31) + if max_length % 31 != 0 {
        1
    } else {
        0
    }
}

/// Packing correctness: the packed size is the exact ceiling of `n / 31`
/// (the least count of 31-byte elements covering `n` bytes), and zero
/// bytes pack into zero elements.
pub proof fn lemma_pack_size_is_ceiling(n: int)
    requires
        n >= 0,
    ensures
        31 * spec_pack_size(n) >= n,
        n > 0 ==> 31 * (spec_pack_size(n) - 1) < n,
        spec_pack_size(0) == 0,
{
}

/// Number of public parts among the first `i` parts.
pub open spec fn spec_count_public(parts: Seq<DecomposedRegexPart>, i: int) -> int
    decreases i,
{
    if i <= 0 {
        0
    } else {
        spec_count_public(parts, i - 1) + if parts[i - 1].is_public {
            1int
        } else {
            0int
        }
    }
}

proof fn lemma_parts_cost_is_count_times_unit(rx: DecomposedRegex, i: int)
    requires
        0 <= i,
    ensures
        spec_parts_cost(rx, i) == spec_count_public(rx.parts@, i) * (if rx.is_hashed {
            1int
        } else {
            spec_pack_size(rx.max_match_length as int)
        }),
    decreases i,
{
    let unit = if rx.is_hashed {
        1int
    } else {
        spec_pack_size(rx.max_match_length as int)
    };
    if i > 0 {
        lemma_parts_cost_is_count_times_unit(rx, i - 1);
        let c = spec_count_public(rx.parts@, i - 1);
        if rx.parts@[i - 1].is_public {
            assert((c + 1) * unit == c * unit + unit) by (nonlinear_arith);
        }
    }
}

/// Hashed versus non-hashed slot cost: a regex consumes one slot per
/// public part when its reveals are hash-committed, and one packed block
/// of its full match length per public part when they are revealed raw.
/// In particular a hashed regex with two public parts consumes exactly two
/// slots, and the same regex not hashed consumes twice its packed size.
pub proof fn lemma_regex_slot_cost(rx: DecomposedRegex)
    ensures
        rx.is_hashed ==> spec_regex_cost(rx) == spec_count_public(
            rx.parts@,
            rx.parts@.len() as int,
        ),
        !rx.is_hashed ==> spec_regex_cost(rx) == spec_count_public(
            rx.parts@,
            rx.parts@.len() as int,
        ) * spec_pack_size(rx.max_match_length as int),
{
    lemma_parts_cost_is_count_times_unit(rx, rx.parts@.len() as int);
    if rx.is_hashed {
        assert(spec_count_public(rx.parts@, rx.parts@.len() as int) * 1int == spec_count_public(
            rx.parts@,
            rx.parts@.len() as int,
        ));
    }
}

/// The same name, position, and sizes, entry for entry.
pub open spec fn field_same(a: Field, b: Field) -> bool {
    &&& a.name@ == b.name@
    &&& a.max_length == b.max_length
    &&& a.pack_size == b.pack_size
    &&& a.start_idx == b.start_idx
}

/// Determinism: the layout derived from a blueprint is unique.  Any two
/// layouts that agree with the same blueprint carry the same entries in
/// the same order, the same prover address slot, and the same slot total.
pub proof fn lemma_layout_deterministic(bp: Blueprint, a: ContractData, b: ContractData)
    requires
        contract_data_matches(bp, a),
        contract_data_matches(bp, b),
    ensures
        a.sender_domain@ == b.sender_domain@,
        a.values@.len() == b.values@.len(),
        forall|i: int| 0 <= i < a.values@.len() ==> #[trigger] field_same(a.values@[i], b.values@[i]),
        a.external_inputs@.len() == b.external_inputs@.len(),
        forall|i: int|
            0 <= i < a.external_inputs@.len() ==> #[trigger] field_same(
                a.external_inputs@[i],
                b.external_inputs@[i],
            ),
        a.prover_eth_address_idx == b.prover_eth_address_idx,
        a.signal_size == b.signal_size,
{
    assert forall|i: int| 0 <= i < a.values@.len() implies #[trigger] field_same(
        a.values@[i],
        b.values@[i],
    ) by {
        assert(field_matches_regex(bp, i, a.values@[i]));
        assert(field_matches_regex(bp, i, b.values@[i]));
    }
    assert forall|i: int| 0 <= i < a.external_inputs@.len() implies #[trigger] field_same(
        a.external_inputs@[i],
        b.external_inputs@[i],
    ) by {
        assert(field_matches_input(bp, i, a.external_inputs@[i]));
        assert(field_matches_input(bp, i, b.external_inputs@[i]));
    }
}

proof fn lemma_parts_cost_mono(rx: DecomposedRegex, i: int, j: int)
    requires
        0 <= i <= j,
    ensures
        spec_parts_cost(rx, i) <= spec_parts_cost(rx, j),
    decreases j,
{
    if i < j {
        lemma_parts_cost_mono(rx, i, j - 1);
    }
}

proof fn lemma_regexes_cost_mono(rs: Seq<DecomposedRegex>, i: int, j: int)
    requires
        0 <= i <= j,
    ensures
        spec_regexes_cost(rs, i) <= spec_regexes_cost(rs, j),
    decreases j,
{
    if i < j {
        lemma_regexes_cost_mono(rs, i, j - 1);
        lemma_parts_cost_mono(rs[j - 1], 0, rs[j - 1].parts@.len() as int);
    }
}

proof fn lemma_inputs_cost_mono(inputs: Seq<ExternalInput>, i: int, j: int)
    requires
        0 <= i <= j,
    ensures
        spec_inputs_cost(inputs, i) <= spec_inputs_cost(inputs, j),
    decreases j,
{
    if i < j {
        lemma_inputs_cost_mono(inputs, i, j - 1);
    }
}

/// Ordering invariant: layout entries appear in blueprint declaration
/// order with non-decreasing start indices, no entry touches the reserved
/// slot 0, and the prover address slot sits after every regex entry and
/// before every external-input entry.
pub proof fn lemma_layout_ordering(bp: Blueprint, cd: ContractData, i: int, j: int)
    requires
        contract_data_matches(bp, cd),
        0 <= i <= j < cd.values@.len(),
    ensures
        1 <= cd.values@[i].start_idx,
        cd.values@[i].start_idx <= cd.values@[j].start_idx,
        cd.values@[j].start_idx <= cd.prover_eth_address_idx,
        forall|x: int|
            0 <= x < cd.external_inputs@.len() ==> cd.prover_eth_address_idx < (
            #[trigger] cd.external_inputs@[x]).start_idx,
{
    assert(field_matches_regex(bp, i, cd.values@[i]));
    assert(field_matches_regex(bp, j, cd.values@[j]));
    lemma_regexes_cost_mono(bp.decomposed_regexes@, 0, i);
    lemma_regexes_cost_mono(bp.decomposed_regexes@, i, j);
    lemma_regexes_cost_mono(bp.decomposed_regexes@, j, bp.decomposed_regexes@.len() as int);
    assert forall|x: int|
        0 <= x < cd.external_inputs@.len() implies cd.prover_eth_address_idx < (
    #[trigger] cd.external_inputs@[x]).start_idx by {
        assert(field_matches_input(bp, x, cd.external_inputs@[x]));
        lemma_inputs_cost_mono(bp.external_inputs@, 0, x);
    }
}

/// Builds the decode layout for a blueprint.
///
/// Walks the regexes in declaration order, advancing the running slot index
/// by each public part's cost, places the prover address directly after all
/// regex signals, and then lays out the external inputs.  Fails exactly
/// when the blueprint has no sender domain, which the decode contract
/// requires.
pub fn prepare_contract_data(bp: &Blueprint) -> (r: Result<ContractData, ValidationError>)
    requires
        spec_total_signal_slots(*bp) <= usize::MAX as int,
    ensures
        r is Ok <==> bp.sender_domain is Some,
        r matches Ok(cd) ==> contract_data_matches(*bp, cd),
        r matches Err(e) ==> e == ValidationError::MissingSenderDomain,
{
    let sender_domain = match &bp.sender_domain {
        Some(s) => s.clone(),
        None => {
            return Err(ValidationError::MissingSenderDomain);
        },
    };

    let ghost rs = bp.decomposed_regexes@;
    let mut signal_size: usize = 4;
    let mut current_idx: usize = 1;
    let mut values: Vec<Field> = Vec::new();

    let num_regexes = bp.decomposed_regexes.len();
    for i in 0..num_regexes
        invariant
            num_regexes == rs.len(),
            rs == bp.decomposed_regexes@,
            spec_total_signal_slots(*bp) <= usize::MAX as int,
            values@.len() == i,
            forall|j: int| 0 <= j < i ==> #[trigger] field_matches_regex(*bp, j, values@[j]),
            current_idx == 1 + spec_regexes_cost(rs, i as int),
            signal_size == 4 + spec_regexes_cost(rs, i as int),
    {
        let rx = &bp.decomposed_regexes[i];
        let pack_size = compute_signal_length(rx.max_match_length);
        let field = Field {
            name: rx.name.clone(),
            max_length: rx.max_match_length,
            pack_size,
            start_idx: current_idx,
        };
        assert(field_matches_regex(*bp, i as int, field));
        values.push(field);

        let ghost start_cost = spec_regexes_cost(rs, i as int);
        let num_parts = rx.parts.len();
        for k in 0..num_parts
            invariant
                num_regexes == rs.len(),
                rs == bp.decomposed_regexes@,
                i < rs.len(),
                *rx == rs[i as int],
                num_parts == rx.parts@.len(),
                pack_size == spec_pack_size(rx.max_match_length as int),
                spec_total_signal_slots(*bp) <= usize::MAX as int,
                start_cost == spec_regexes_cost(rs, i as int),
                current_idx == 1 + start_cost + spec_parts_cost(*rx, k as int),
                signal_size == 4 + start_cost + spec_parts_cost(*rx, k as int),
        {
            proof {
                lemma_parts_cost_mono(*rx, k as int + 1, num_parts as int);
                assert(spec_regexes_cost(rs, i as int + 1) == start_cost + spec_regex_cost(
                    rs[i as int],
                ));
                lemma_regexes_cost_mono(rs, i as int + 1, rs.len() as int);
                lemma_inputs_cost_mono(
                    bp.external_inputs@,
                    0,
                    bp.external_inputs@.len() as int,
                );
            }
            let part = &rx.parts[k];
            if part.is_public {
                if rx.is_hashed {
                    signal_size = signal_size + 1;
                    current_idx = current_idx + 1;
                } else {
                    signal_size = signal_size + pack_size;
                    current_idx = current_idx + pack_size;
                }
            }
        }
        proof {
            assert(spec_regexes_cost(rs, i as int + 1) == spec_regexes_cost(rs, i as int)
                + spec_regex_cost(rs[i as int]));
        }
    }

    proof {
        lemma_inputs_cost_mono(bp.external_inputs@, 0, bp.external_inputs@.len() as int);
    }
    let prover_eth_address_idx = current_idx;
    current_idx = current_idx + 1;
    signal_size = signal_size + 1;

    let ghost ins = bp.external_inputs@;
    let mut external_inputs: Vec<Field> = Vec::new();
    let num_inputs = bp.external_inputs.len();
    for i in 0..num_inputs
        invariant
            num_inputs == ins.len(),
            ins == bp.external_inputs@,
            rs == bp.decomposed_regexes@,
            spec_total_signal_slots(*bp) <= usize::MAX as int,
            external_inputs@.len() == i,
            forall|j: int|
                0 <= j < i ==> #[trigger] field_matches_input(*bp, j, external_inputs@[j]),
            prover_eth_address_idx == spec_prover_eth_address_idx(*bp),
            current_idx == spec_prover_eth_address_idx(*bp) + 1 + spec_inputs_cost(ins, i as int),
            signal_size == 4 + spec_regexes_cost(rs, rs.len() as int) + 1 + spec_inputs_cost(
                ins,
                i as int,
            ),
    {
        proof {
            lemma_inputs_cost_mono(ins, i as int + 1, ins.len() as int);
        }
        let input = &bp.external_inputs[i];
        let pack_size = compute_signal_length(input.max_length);
        let field = Field {
            name: input.name.clone(),
            max_length: input.max_length,
            pack_size,
            start_idx: current_idx,
        };
        assert(field_matches_input(*bp, i as int, field));
        external_inputs.push(field);
        signal_size = signal_size + pack_size;
        current_idx = current_idx + pack_size;
    }

    Ok(
        ContractData {
            sender_domain,
            values,
            external_inputs,
            signal_size,
            prover_eth_address_idx,
        },
    )
}

} // verus!
