use vstd::prelude::*;

verus! {

/// The extent of a board: `rows` cells high and `columns` cells wide.
#[derive(Clone, Copy, Debug, PartialEq, Eq, Structural)]
pub struct Dimensions {
    pub rows: u32,
    pub columns: u32,
}

/// A zero-based board coordinate: `x` is the column, `y` the row.
#[derive(Clone, Copy, Debug, PartialEq, Eq, Hash, Structural)]
pub struct Pos {
    pub x: u32,
    pub y: u32,
}

/// One of the four cardinal directions. `Up` decreases `y`, `Left` decreases `x`.
#[derive(Clone, Copy, Debug, PartialEq, Eq, Hash, Structural)]
pub enum Way {
    Up,
    Down,
    Left,
    Right,
}

/// The outcome of a slide: the cell where the robot rests and how many
/// cells it travelled.
#[derive(Clone, Copy, Debug, PartialEq, Eq, Structural)]
pub struct Hit {
    pub pos: Pos,
    pub distance: u32,
}

/// Whether `p` lies on a board of extent `dim`.
pub open spec fn on_board(p: Pos, dim: Dimensions) -> bool {
    p.x < dim.columns && p.y < dim.rows
}

pub open spec fn opposite_spec(w: Way) -> Way {
    match w {
        Way::Up => Way::Down,
        Way::Down => Way::Up,
        Way::Left => Way::Right,
        Way::Right => Way::Left,
    }
}

pub open spec fn clockwise_spec(w: Way) -> Way {
    match w {
        Way::Up => Way::Right,
        Way::Right => Way::Down,
        Way::Down => Way::Left,
        Way::Left => Way::Up,
    }
}

/// The signed number of cells from `a` to `b` measured along `w`:
/// positive when `b` lies ahead of `a` in direction `w`.
pub open spec fn distance_spec(a: Pos, b: Pos, w: Way) -> int {
    match w {
        Way::Up => a.y - b.y,
        Way::Down => b.y - a.y,
        Way::Left => a.x - b.x,
        Way::Right => b.x - a.x,
    }
}

/// The position `d` cells away from `p` in direction `w`.
pub open spec fn advance(p: Pos, w: Way, d: int) -> Pos {
    match w {
        Way::Up => Pos { x: p.x, y: (p.y - d) as u32 },
        Way::Down => Pos { x: p.x, y: (p.y + d) as u32 },
        Way::Left => Pos { x: (p.x - d) as u32, y: p.y },
        Way::Right => Pos { x: (p.x + d) as u32, y: p.y },
    }
}

/// How many cells separate `p` from the board edge that faces `w`.
pub open spec fn edge_distance(p: Pos, w: Way, dim: Dimensions) -> int {
    match w {
        Way::Up => p.y as int,
        Way::Down => dim.rows - 1 - p.y,
        Way::Left => p.x as int,
        Way::Right => dim.columns - 1 - p.x,
    }
}

/// The positions strictly between `a` and `b`, from the one next to `a` to
/// the one next to `b`; empty unless the two share a row or a column.
pub open spec fn direct_path(a: Pos, b: Pos) -> Seq<Pos> {
    if a.y == b.y && a.x < b.x {
        Seq::new((b.x - a.x - 1) as nat, |i: int| Pos { x: (a.x + 1 + i) as u32, y: a.y })
    } else if a.y == b.y && b.x < a.x {
        Seq::new((a.x - b.x - 1) as nat, |i: int| Pos { x: (a.x - 1 - i) as u32, y: a.y })
    } else if a.x == b.x && a.y < b.y {
        Seq::new((b.y - a.y - 1) as nat, |i: int| Pos { x: a.x, y: (a.y + 1 + i) as u32 })
    } else if a.x == b.x && b.y < a.y {
        Seq::new((a.y - b.y - 1) as nat, |i: int| Pos { x: a.x, y: (a.y - 1 - i) as u32 })
    } else {
        Seq::empty()
    }
}

impl Way {
    /// The direction pointing the other way.
    pub fn opposite(&self) -> (r: Way)
        ensures
            r == opposite_spec(*self),
    {
        match self {
            Way::Up => Way::Down,
            Way::Down => Way::Up,
            Way::Left => Way::Right,
            Way::Right => Way::Left,
        }
    }

    /// The direction a quarter turn clockwise from this one.
    pub fn clockwise(&self) -> (r: Way)
        ensures
            r == clockwise_spec(*self),
    {
        match self {
            Way::Up => Way::Right,
            Way::Right => Way::Down,
            Way::Down => Way::Left,
            Way::Left => Way::Up,
        }
    }
}

impl Pos {
    pub fn new(x: u32, y: u32) -> (r: Pos)
        ensures
            r == (Pos { x, y }),
    {
        Pos { x, y }
    }

    /// Signed number of cells from `self` to `other` along `way`.
    pub fn distance_to(&self, other: &Pos, way: Way) -> (r: i64)
        ensures
            r == distance_spec(*self, *other, way),
    {
        match way {
            Way::Up => self.y as i64 - other.y as i64,
            Way::Down => other.y as i64 - self.y as i64,
            Way::Left => self.x as i64 - other.x as i64,
            Way::Right => other.x as i64 - self.x as i64,
        }
    }

    /// The positions strictly between `self` and `target`, in order from
    /// `self` towards `target`; empty when they share no row or column.
    pub fn direct_path_to(&self, target: &Pos) -> (r: Vec<Pos>)
        ensures
            r@ == direct_path(*self, *target),
    {
        let a = *self;
        let b = *target;
        let mut v: Vec<Pos> = Vec::new();
        if a.y == b.y && a.x < b.x {
            let mut k: u32 = a.x + 1;
            while k < b.x
                invariant
                    a.x < k <= b.x,
                    v@.len() == k - a.x - 1,
                    forall|i: int| 0 <= i < v@.len() ==> v@[i] == (Pos { x: (a.x + 1 + i) as u32, y: a.y }),
                decreases b.x - k,
            {
                v.push(Pos { x: k, y: a.y });
                k = k + 1;
            }
        } else if a.y == b.y && b.x < a.x {
            let mut k: u32 = a.x - 1;
            while k > b.x
                invariant
                    b.x <= k < a.x,
                    v@.len() == a.x - 1 - k,
                    forall|i: int| 0 <= i < v@.len() ==> v@[i] == (Pos { x: (a.x - 1 - i) as u32, y: a.y }),
                decreases k,
            {
                v.push(Pos { x: k, y: a.y });
                k = k - 1;
            }
        } else if a.x == b.x && a.y < b.y {
            let mut k: u32 = a.y + 1;
            while k < b.y
                invariant
                    a.y < k <= b.y,
                    v@.len() == k - a.y - 1,
                    forall|i: int| 0 <= i < v@.len() ==> v@[i] == (Pos { x: a.x, y: (a.y + 1 + i) as u32 }),
                decreases b.y - k,
            {
                v.push(Pos { x: a.x, y: k });
                k = k + 1;
            }
        } else if a.x == b.x && b.y < a.y {
            let mut k: u32 = a.y - 1;
            while k > b.y
                invariant
                    b.y <= k < a.y,
                    v@.len() == a.y - 1 - k,
                    forall|i: int| 0 <= i < v@.len() ==> v@[i] == (Pos { x: a.x, y: (a.y - 1 - i) as u32 }),
                decreases k,
            {
                v.push(Pos { x: a.x, y: k });
                k = k - 1;
            }
        }
        assert(v@ =~= direct_path(a, b));
        v
    }
}

} // verus!
