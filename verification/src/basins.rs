//! The four fuzzy basins of being: the functional modes the mind settles in.
use vstd::prelude::*;

verus! {

#[derive(Clone, Copy, PartialEq, Eq, Structural, Debug)]
pub enum Basin {
    Rest,
    Engaged,
    Defensive,
    Recovery,
}

} // verus!
