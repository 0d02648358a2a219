//! Building a stage from its serialized description: each primitive's URN
//! is resolved to an operator kind and its wiring is checked before any
//! element is processed.

use vstd::prelude::*;

use crate::element::same_str;
use crate::urns::{
    CREATE_URN, DATA_INPUT_URN, DATA_OUTPUT_URN, FLATTEN_URN, GROUP_BY_KEY_URN, IMPULSE_URN,
    PAR_DO_URN,
};

verus! {

#[derive(Clone, Copy, Debug, PartialEq, Eq, Structural)]
pub enum PrimitiveKind {
    DataInput,
    DataOutput,
    ParDo,
    GroupByKey,
    Flatten,
    Impulse,
    Create,
}

/// One primitive of a stage description: its URN and the positions, in the
/// description, of the primitives whose outputs it receives.
#[derive(Debug)]
pub struct PrimitiveSpec {
    pub urn: String,
    pub inputs: Vec<usize>,
}

/// Why a stage could not be built; `index` is the primitive at fault.
#[derive(Clone, Copy, Debug, PartialEq, Eq, Structural)]
pub enum ConstructionError {
    UnknownUrn { index: usize },
    BadWiring { index: usize },
}

/// The operator kind that `urn` names.
pub open spec fn kind_for_urn(urn: Seq<char>) -> Option<PrimitiveKind> {
    if urn == DATA_INPUT_URN@ {
        Some(PrimitiveKind::DataInput)
    } else if urn == DATA_OUTPUT_URN@ {
        Some(PrimitiveKind::DataOutput)
    } else if urn == PAR_DO_URN@ {
        Some(PrimitiveKind::ParDo)
    } else if urn == GROUP_BY_KEY_URN@ {
        Some(PrimitiveKind::GroupByKey)
    } else if urn == FLATTEN_URN@ {
        Some(PrimitiveKind::Flatten)
    } else if urn == IMPULSE_URN@ {
        Some(PrimitiveKind::Impulse)
    } else if urn == CREATE_URN@ {
        Some(PrimitiveKind::Create)
    } else {
        None
    }
}

/// The primitive at position `i` of kind `k` is wired correctly: it takes
/// the number of inputs its kind needs (none for a source, one for a
/// transform or a sink, at least one for a flatten), and every input comes
/// earlier in the description, so that the description is in data-dependency
/// order.
pub open spec fn wiring_ok(k: PrimitiveKind, inputs: Seq<usize>, i: int) -> bool {
    &&& match k {
        PrimitiveKind::DataInput | PrimitiveKind::Impulse | PrimitiveKind::Create => inputs.len() == 0,
        PrimitiveKind::ParDo | PrimitiveKind::GroupByKey | PrimitiveKind::DataOutput => inputs.len() == 1,
        PrimitiveKind::Flatten => inputs.len() >= 1,
    }
    &&& forall|j: int| 0 <= j < inputs.len() ==> #[trigger] inputs[j] < i
}

/// The primitive `p` at position `i` is resolved and wired correctly.
pub open spec fn primitive_ok(p: PrimitiveSpec, i: int) -> bool {
    &&& kind_for_urn(p.urn@) is Some
    &&& wiring_ok(kind_for_urn(p.urn@)->0, p.inputs@, i)
}

/// Resolves the URN of one primitive.
pub fn kind_from_urn(urn: &str) -> (r: Option<PrimitiveKind>)
    ensures
        r == kind_for_urn(urn@),
{
    if same_str(urn, DATA_INPUT_URN) {
        Some(PrimitiveKind::DataInput)
    } else if same_str(urn, DATA_OUTPUT_URN) {
        Some(PrimitiveKind::DataOutput)
    } else if same_str(urn, PAR_DO_URN) {
        Some(PrimitiveKind::ParDo)
    } else if same_str(urn, GROUP_BY_KEY_URN) {
        Some(PrimitiveKind::GroupByKey)
    } else if same_str(urn, FLATTEN_URN) {
        Some(PrimitiveKind::Flatten)
    } else if same_str(urn, IMPULSE_URN) {
        Some(PrimitiveKind::Impulse)
    } else if same_str(urn, CREATE_URN) {
        Some(PrimitiveKind::Create)
    } else {
        None
    }
}

fn check_wiring(k: PrimitiveKind, inputs: &Vec<usize>, i: usize) -> (r: bool)
    ensures
        r == wiring_ok(k, inputs@, i as int),
{
    let arity_ok = match k {
        PrimitiveKind::DataInput | PrimitiveKind::Impulse | PrimitiveKind::Create => inputs.len() == 0,
        PrimitiveKind::ParDo | PrimitiveKind::GroupByKey | PrimitiveKind::DataOutput => inputs.len() == 1,
        PrimitiveKind::Flatten => inputs.len() >= 1,
    };
    if !arity_ok {
        return false;
    }
    let mut j: usize = 0;
    while j < inputs.len()
        invariant
            j <= inputs@.len(),
            forall|m: int| 0 <= m < j ==> #[trigger] inputs@[m] < i,
        decreases inputs@.len() - j,
    {
        if inputs[j] >= i {
            return false;
        }
        j = j + 1;
    }
    true
}

/// Builds the operator kinds of a stage from its description, in order.
/// The first primitive, in description order, whose URN is unknown or whose
/// wiring is wrong stops construction with the matching error.
pub fn plan_stage(prims: &Vec<PrimitiveSpec>) -> (r: Result<Vec<PrimitiveKind>, ConstructionError>)
    ensures
        r is Ok <==> forall|i: int| 0 <= i < prims@.len() ==> primitive_ok(#[trigger] prims@[i], i),
        r matches Ok(kinds) ==> kinds@.len() == prims@.len() && forall|i: int|
            0 <= i < kinds@.len() ==> Some(#[trigger] kinds@[i]) == kind_for_urn(prims@[i].urn@),
        r matches Err(e) ==> ({
            let index = match e {
                ConstructionError::UnknownUrn { index } => index,
                ConstructionError::BadWiring { index } => index,
            };
            &&& index < prims@.len()
            &&& forall|i: int| 0 <= i < index ==> primitive_ok(#[trigger] prims@[i], i)
            &&& !primitive_ok(prims@[index as int], index as int)
            &&& (e is UnknownUrn <==> kind_for_urn(prims@[index as int].urn@) is None)
        }),
{
    let mut kinds: Vec<PrimitiveKind> = Vec::new();
    let mut i: usize = 0;
    while i < prims.len()
        invariant
            i <= prims@.len(),
            kinds@.len() == i,
            forall|m: int| 0 <= m < i ==> primitive_ok(#[trigger] prims@[m], m),
            forall|m: int| 0 <= m < i ==> Some(#[trigger] kinds@[m]) == kind_for_urn(prims@[m].urn@),
        decreases prims@.len() - i,
    {
        let p = &prims[i];
        match kind_from_urn(p.urn.as_str()) {
            None => {
                return Err(ConstructionError::UnknownUrn { index: i });
            },
            Some(k) => {
                if !check_wiring(k, &p.inputs, i) {
                    return Err(ConstructionError::BadWiring { index: i });
                }
                kinds.push(k);
            },
        }
        i = i + 1;
    }
    Ok(kinds)
}

} // verus!
