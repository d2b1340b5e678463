use vstd::prelude::*;

pub mod address;
pub mod lifecycle;
pub mod protocol;
pub mod relay;
pub mod status;
pub mod tunnel;

verus! {

} // verus!
