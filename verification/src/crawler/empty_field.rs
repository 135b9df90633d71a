use vstd::prelude::*;

verus! {

/// One column of a series: its name and the unit its values are given in.
#[derive(Debug, Clone)]
pub struct EmptyField {
    pub name: String,
    pub unit: String,
}

} // verus!
