use vstd::prelude::*;
use crate::geometry::{Pos, Way};

verus! {

/// A barrier on the `side` of the cell at `pos`.
#[derive(Clone, Copy, Debug, PartialEq, Eq, Structural)]
pub struct Wall {
    pub pos: Pos,
    pub side: Way,
}

} // verus!
