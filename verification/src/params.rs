//! The parameter list of a control sequence, as the `vte` parser hands it
//! over, read into plain vectors.

use vstd::prelude::*;
use vte::Params;

verus! {

/// The `vte` parser's list of CSI parameters, opaque to the proofs.
#[verifier::external_type_specification]
#[verifier::external_body]
pub struct ExParams(Params);

/// The parameters that a `vte::Params` holds, in order, each with its
/// subparameters (`38:5:200` is one parameter of three values).
pub uninterp spec fn param_groups(params: Params) -> Seq<Seq<u16>>;

/// The values of a vector of parameters.
pub open spec fn groups_view(groups: Vec<Vec<u16>>) -> Seq<Seq<u16>> {
    groups@.map_values(|g: Vec<u16>| g@)
}

/// Every parameter holds at least its main value.
pub open spec fn groups_nonempty(ps: Seq<Seq<u16>>) -> bool {
    forall|k: int| 0 <= k < ps.len() ==> (#[trigger] ps[k]).len() >= 1
}

/// Walks `vte::Params::iter`, which yields each parameter as the slice of
/// its value and subparameters. The contract claims that the result is what
/// the parameters hold, and that no slice is empty: `Params` records for
/// each parameter the count of its values, one more than its subparameters.
#[verifier::external_body]
pub(crate) fn read_params(params: &Params) -> (groups: Vec<Vec<u16>>)
    ensures
        groups_view(groups) == param_groups(*params),
        groups_nonempty(groups_view(groups)),
{
    let mut groups = Vec::new();
    for p in params.iter() {
        groups.push(p.to_vec());
    }
    groups
}

} // verus!
