use vstd::prelude::*;

verus! {

/// A wall-clock time point (`std::time::SystemTime`), carried through the
/// library without being inspected.
#[verifier::external_type_specification]
#[verifier::external_body]
pub struct ExSystemTime(std::time::SystemTime);

} // verus!
