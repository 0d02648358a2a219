//! URNs that name the primitive operations of a stage.

use vstd::prelude::*;

verus! {

pub const DATA_INPUT_URN: &'static str = "beam:runner:source:v1";
pub const DATA_OUTPUT_URN: &'static str = "beam:runner:sink:v1";
pub const IMPULSE_URN: &'static str = "beam:transform:impulse:v1";
pub const PAR_DO_URN: &'static str = "beam:beam:pardo:v1";
pub const GROUP_BY_KEY_URN: &'static str = "beam:beam:group_by_key:v1";
pub const FLATTEN_URN: &'static str = "beam:beam:flatten:v1";
pub const IDENTITY_DOFN_URN: &'static str = "beam:dofn:identity:0.1";
pub const CREATE_URN: &'static str = "create";

} // verus!
