use vstd::prelude::*;

pub mod devices;
pub mod hex;
pub mod name;
pub mod path;

verus! {

} // verus!
