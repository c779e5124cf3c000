//! In-memory representation of a blueprint: the declarative description of
//! one email-proof circuit (regex reveals, external inputs, flags), together
//! with its validation rules.

use vstd::prelude::*;

verus! {

/// Target proving framework for a blueprint.
#[derive(Clone, Copy, Debug, PartialEq, Eq, Structural)]
pub enum ZkFramework {
    Circom,
    Noir,
}

/// Lifecycle state of a blueprint in the surrounding build system.
#[derive(Clone, Copy, Debug, PartialEq, Eq, Structural)]
pub enum Status {
    Draft,
    InProgress,
    Done,
    Failed,
}

/// Where a regex is matched: the email header or the email body.
#[derive(Clone, Copy, Debug, PartialEq, Eq, Structural)]
pub enum Location {
    Header,
    Body,
}

/// Creation or update time, as seconds and nanoseconds since the epoch.
#[derive(Clone, Copy, Debug, PartialEq, Eq, Structural)]
pub struct Timestamp {
    pub seconds: usize,
    pub nanos: usize,
}

/// A value supplied at proof time outside the email, still subject to
/// field-element packing.
pub struct ExternalInput {
    pub name: String,
    pub max_length: usize,
}

/// One part of a decomposed regex: private parts only constrain the match,
/// public parts are revealed.  A public part must declare the byte capacity
/// of its revealed substring.
pub struct DecomposedRegexPart {
    pub is_public: bool,
    pub regex_def: String,
    pub max_length: Option<usize>,
}

/// A pattern split into ordered parts, matched against the header or body.
pub struct DecomposedRegex {
    pub name: String,
    pub max_match_length: usize,
    pub location: Location,
    pub is_hashed: bool,
    pub parts: Vec<DecomposedRegexPart>,
}

/// Declarative description of one email-proof circuit.
pub struct Blueprint {
    pub circuit_name: String,
    pub email_header_max_length: usize,
    pub email_body_max_length: usize,
    pub ignore_body_hash_check: bool,
    pub enable_header_masking: bool,
    pub enable_body_masking: bool,
    pub remove_soft_line_breaks: bool,
    pub sender_domain: Option<String>,
    pub decomposed_regexes: Vec<DecomposedRegex>,
    pub external_inputs: Vec<ExternalInput>,
    pub zk_framework: Option<ZkFramework>,
}

/// A blueprint that is missing a required field, reported before any
/// layout or rendering begins.
#[derive(Debug, Clone, PartialEq, Eq)]
pub enum ValidationError {
    /// A public part of the named regex declares no maximum length.
    MissingPartLength { regex_name: String },
    /// The blueprint has no sender domain, which the decode contract needs.
    MissingSenderDomain,
}

/// Every public part of the regex declares the byte capacity of its
/// revealed substring.
pub open spec fn parts_have_lengths(rx: DecomposedRegex) -> bool {
    forall|k: int|
        0 <= k < rx.parts@.len() ==> ((#[trigger] rx.parts@[k]).is_public
            ==> rx.parts@[k].max_length is Some)
}

/// Every public part of every regex of the blueprint declares its length.
pub open spec fn blueprint_parts_valid(bp: Blueprint) -> bool {
    forall|i: int|
        0 <= i < bp.decomposed_regexes@.len() ==> parts_have_lengths(
            #[trigger] bp.decomposed_regexes@[i],
        )
}

/// Checks that every public part of every regex declares a maximum
/// length.  Fails with the name of the first regex that has a public part
/// without one; a regex reveal cannot be sized without it.
pub fn validate_blueprint(bp: &Blueprint) -> (r: Result<(), ValidationError>)
    ensures
        r is Ok <==> blueprint_parts_valid(*bp),
        r matches Err(e) ==> ({
            &&& e matches ValidationError::MissingPartLength { regex_name }
            &&& exists|i: int|
                {
                    &&& 0 <= i < bp.decomposed_regexes@.len()
                    &&& !parts_have_lengths(#[trigger] bp.decomposed_regexes@[i])
                    &&& regex_name@ == bp.decomposed_regexes@[i].name@
                    &&& forall|j: int| 0 <= j < i ==> parts_have_lengths(bp.decomposed_regexes@[j])
                }
        }),
{
    let num_regexes = bp.decomposed_regexes.len();
    for i in 0..num_regexes
        invariant
            num_regexes == bp.decomposed_regexes@.len(),
            forall|j: int|
                0 <= j < i ==> parts_have_lengths(#[trigger] bp.decomposed_regexes@[j]),
    {
        let rx = &bp.decomposed_regexes[i];
        let num_parts = rx.parts.len();
        for k in 0..num_parts
            invariant
                num_regexes == bp.decomposed_regexes@.len(),
                i < num_regexes,
                *rx == bp.decomposed_regexes@[i as int],
                num_parts == rx.parts@.len(),
                forall|j: int|
                    0 <= j < i ==> parts_have_lengths(#[trigger] bp.decomposed_regexes@[j]),
                forall|l: int|
                    0 <= l < k ==> ((#[trigger] rx.parts@[l]).is_public ==> rx.parts@[l].max_length
                        is Some),
        {
            let part = &rx.parts[k];
            if part.is_public && part.max_length.is_none() {
                let e = ValidationError::MissingPartLength { regex_name: rx.name.clone() };
                proof {
                    assert(!parts_have_lengths(bp.decomposed_regexes@[i as int]));
                }
                return Err(e);
            }
        }
        proof {
            assert(parts_have_lengths(bp.decomposed_regexes@[i as int]));
        }
    }
    Ok(())
}

/// One pattern part in the form the regex-to-automaton collaborator
/// consumes: a public part carries the byte capacity of its revealed
/// substring, a private part only its pattern.
#[derive(Debug, Clone, PartialEq, Eq)]
pub enum PatternPart {
    Public { regex_def: String, max_length: usize },
    Private { regex_def: String },
}

/// `c` is the collaborator form of part `p`.
pub open spec fn pattern_part_matches(p: DecomposedRegexPart, c: PatternPart) -> bool {
    if p.is_public {
        c matches PatternPart::Public { regex_def, max_length } && regex_def@ == p.regex_def@
            && max_length == p.max_length->0
    } else {
        c matches PatternPart::Private { regex_def } && regex_def@ == p.regex_def@
    }
}

/// Converts a regex's parts, in order, into the configuration handed to
/// the regex-to-automaton collaborator.  Fails with the regex's name
/// exactly when a public part declares no maximum length.
pub fn pattern_parts(rx: &DecomposedRegex) -> (r: Result<Vec<PatternPart>, ValidationError>)
    ensures
        r is Ok <==> parts_have_lengths(*rx),
        r matches Ok(v) ==> v@.len() == rx.parts@.len() && forall|i: int|
            0 <= i < v@.len() ==> #[trigger] pattern_part_matches(rx.parts@[i], v@[i]),
        r matches Err(e) ==> ({
            &&& e matches ValidationError::MissingPartLength { regex_name }
            &&& regex_name@ == rx.name@
            &&& !parts_have_lengths(*rx)
        }),
{
    let mut out: Vec<PatternPart> = Vec::new();
    let num_parts = rx.parts.len();
    for k in 0..num_parts
        invariant
            num_parts == rx.parts@.len(),
            out@.len() == k,
            forall|l: int|
                0 <= l < k ==> #[trigger] pattern_part_matches(rx.parts@[l], out@[l]),
            forall|l: int|
                0 <= l < k ==> ((#[trigger] rx.parts@[l]).is_public ==> rx.parts@[l].max_length
                    is Some),
    {
        let part = &rx.parts[k];
        if part.is_public {
            match part.max_length {
                Some(m) => {
                    out.push(PatternPart::Public { regex_def: part.regex_def.clone(), max_length: m });
                },
                None => {
                    proof {
                        assert(!parts_have_lengths(*rx));
                    }
                    return Err(ValidationError::MissingPartLength { regex_name: rx.name.clone() });
                },
            }
        } else {
            out.push(PatternPart::Private { regex_def: part.regex_def.clone() });
        }
        proof {
            assert(pattern_part_matches(rx.parts@[k as int], out@[k as int]));
        }
    }
    Ok(out)
}

/// Maps the wire encoding of a blueprint status to the enum.
/// Codes outside 1..=4 are not valid statuses.
pub fn status_from_code(code: u64) -> (r: Option<Status>)
    ensures
        code == 1 ==> r == Some(Status::Draft),
        code == 2 ==> r == Some(Status::InProgress),
        code == 3 ==> r == Some(Status::Done),
        code == 4 ==> r == Some(Status::Failed),
        (code == 0 || code > 4) ==> r is None,
{
    match code {
        1 => Some(Status::Draft),
        2 => Some(Status::InProgress),
        3 => Some(Status::Done),
        4 => Some(Status::Failed),
        _ => None,
    }
}

} // verus!
