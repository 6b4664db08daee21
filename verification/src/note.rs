use vstd::prelude::*;

verus! {

/// Which way the stem of a drawn note points.
#[derive(PartialEq, Eq, Structural, Clone, Copy, Debug)]
pub enum StemDirection {
    UP,
    DOWN,
}

} // verus!
