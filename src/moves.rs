use vstd::prelude::*;
use crate::geometry::Way;

verus! {

/// Which directions a robot may leave a cell by.
#[derive(Clone, Copy, Debug, PartialEq, Eq, Structural)]
pub struct MovePossibility {
    pub up: bool,
    pub down: bool,
    pub left: bool,
    pub right: bool,
}

/// The flag of `m` for direction `w`.
pub open spec fn can_go_spec(m: MovePossibility, w: Way) -> bool {
    match w {
        Way::Up => m.up,
        Way::Down => m.down,
        Way::Left => m.left,
        Way::Right => m.right,
    }
}

pub open spec fn all_open() -> MovePossibility {
    MovePossibility { up: true, down: true, left: true, right: true }
}

/// `m` with the side facing `w` closed and the others as they were.
pub open spec fn closed_towards(m: MovePossibility, w: Way) -> MovePossibility {
    match w {
        Way::Up => MovePossibility { up: false, ..m },
        Way::Down => MovePossibility { down: false, ..m },
        Way::Left => MovePossibility { left: false, ..m },
        Way::Right => MovePossibility { right: false, ..m },
    }
}

impl MovePossibility {
    /// Open on every side.
    pub fn all() -> (r: MovePossibility)
        ensures
            r == all_open(),
    {
        MovePossibility { up: true, down: true, left: true, right: true }
    }

    pub fn can_go(&self, way: &Way) -> (r: bool)
        ensures
            r == can_go_spec(*self, *way),
    {
        match way {
            Way::Up => self.up,
            Way::Down => self.down,
            Way::Left => self.left,
            Way::Right => self.right,
        }
    }

    /// Closes the side facing `way`.
    pub fn close(&mut self, way: &Way)
        ensures
            *final(self) == closed_towards(*old(self), *way),
    {
        match way {
            Way::Up => self.up = false,
            Way::Down => self.down = false,
            Way::Left => self.left = false,
            Way::Right => self.right = false,
        }
    }
}

} // verus!
