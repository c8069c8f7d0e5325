use vstd::prelude::*;
use crate::geometry::{Dimensions, Hit, Pos, Way, on_board, advance, edge_distance, direct_path};
use crate::moves::{MovePossibility, can_go_spec, all_open, closed_towards};
use crate::wall::Wall;
use crate::board::{Board, EditableBoard, Error, blocked_at, neighbor};

verus! {

/// A cell whose openness differs from the default.
#[derive(Clone, Copy, Debug)]
struct Cell {
    pos: Pos,
    moves: MovePossibility,
}

/// The override that `cells` holds for `p`: its last entry at `p`, if any.
spec fn lookup(cells: Seq<Cell>, p: Pos) -> Option<MovePossibility>
    decreases cells.len(),
{
    if cells.len() == 0 {
        None
    } else if cells.last().pos == p {
        Some(cells.last().moves)
    } else {
        lookup(cells.drop_last(), p)
    }
}

proof fn lemma_lookup_push(cells: Seq<Cell>, c: Cell, q: Pos)
    ensures
        lookup(cells.push(c), q) == (if q == c.pos { Some(c.moves) } else { lookup(cells, q) }),
{
    assert(cells.push(c).drop_last() =~= cells);
}

proof fn lemma_lookup_update(cells: Seq<Cell>, i: int, c: Cell, q: Pos)
    requires
        0 <= i < cells.len(),
        cells[i].pos == c.pos,
        forall|j: int| i < j < cells.len() ==> cells[j].pos != c.pos,
    ensures
        lookup(cells.update(i, c), q) == (if q == c.pos { Some(c.moves) } else { lookup(cells, q) }),
    decreases cells.len(),
{
    let s = cells.update(i, c);
    if i == cells.len() - 1 {
        assert(s.drop_last() =~= cells.drop_last());
    } else {
        assert(s.drop_last() =~= cells.drop_last().update(i, c));
        lemma_lookup_update(cells.drop_last(), i, c, q);
    }
}

/// A board that stores only the cells whose openness was changed by a wall.
pub struct BoardByIndividualCells {
    dim: Dimensions,
    cells: Vec<Cell>,
}

impl BoardByIndividualCells {
    /// An empty board of no extent.
    pub fn new() -> (r: BoardByIndividualCells)
        ensures
            r.wf(),
            r.dim_spec() == (Dimensions { rows: 0, columns: 0 }),
            forall|p: Pos| #[trigger] r.cell_at(p) == all_open(),
    {
        BoardByIndividualCells { dim: Dimensions { rows: 0, columns: 0 }, cells: Vec::new() }
    }

    fn contains(&self, p: &Pos) -> (r: bool)
        ensures
            r == on_board(*p, self.dim_spec()),
    {
        p.x < self.dim.columns && p.y < self.dim.rows
    }

    /// The index of the last stored entry at `p`.
    fn find(&self, p: &Pos) -> (r: Option<usize>)
        ensures
            match r {
                Some(i) => i < self.cells@.len() && self.cells@[i as int].pos == *p
                    && lookup(self.cells@, *p) == Some(self.cells@[i as int].moves)
                    && (forall|j: int| i < j < self.cells@.len() ==> self.cells@[j].pos != *p),
                None => lookup(self.cells@, *p) is None,
            },
    {
        let mut i: usize = self.cells.len();
        assert(self.cells@.subrange(0, i as int) =~= self.cells@);
        while i > 0
            invariant
                i <= self.cells@.len(),
                forall|j: int| i <= j < self.cells@.len() ==> self.cells@[j].pos != *p,
                lookup(self.cells@, *p) == lookup(self.cells@.subrange(0, i as int), *p),
            decreases i,
        {
            if self.cells[i - 1].pos == *p {
                assert(self.cells@.subrange(0, i as int).last() == self.cells@[i - 1]);
                return Some(i - 1);
            }
            assert(self.cells@.subrange(0, i as int).drop_last() =~= self.cells@.subrange(0, i - 1));
            i = i - 1;
        }
        None
    }

    /// Closes the side of the cell at `p` that faces `way`.
    fn close_side(&mut self, p: &Pos, way: &Way)
        requires
            old(self).wf(),
            on_board(*p, old(self).dim_spec()),
        ensures
            final(self).wf(),
            final(self).dim_spec() == old(self).dim_spec(),
            forall|q: Pos| #[trigger] final(self).cell_at(q) == (if q == *p {
                closed_towards(old(self).cell_at(*p), *way)
            } else {
                old(self).cell_at(q)
            }),
    {
        match self.find(p) {
            Some(i) => {
                let mut m = self.cells[i].moves;
                m.close(way);
                let c = Cell { pos: *p, moves: m };
                proof {
                    assert forall|q: Pos| #[trigger] lookup(self.cells@.update(i as int, c), q) == (if q == c.pos {
                        Some(c.moves)
                    } else {
                        lookup(self.cells@, q)
                    }) by {
                        lemma_lookup_update(self.cells@, i as int, c, q);
                    }
                }
                let ghost before = self.cells@;
                self.cells.set(i, c);
                assert(!can_go_spec(c.moves, *way));
                assert forall|j: int| 0 <= j < self.cells@.len() implies on_board(
                    #[trigger] self.cells@[j].pos,
                    self.dim,
                ) && self.cells@[j].moves != all_open() by {
                    if j == i {
                        assert(self.cells@[j] == c);
                    } else {
                        assert(self.cells@[j] == before[j]);
                        assert(on_board(before[j].pos, self.dim));
                    }
                }
            },
            None => {
                let mut m = MovePossibility::all();
                m.close(way);
                let c = Cell { pos: *p, moves: m };
                proof {
                    assert forall|q: Pos| #[trigger] lookup(self.cells@.push(c), q) == (if q == c.pos {
                        Some(c.moves)
                    } else {
                        lookup(self.cells@, q)
                    }) by {
                        lemma_lookup_push(self.cells@, c, q);
                    }
                }
                self.cells.push(c);
                assert(!can_go_spec(c.moves, *way));
                assert(self.cells@[self.cells@.len() - 1] == c);
            },
        }
    }

    fn neighbor_of(&self, p: &Pos, way: &Way) -> (r: Option<Pos>)
        requires
            on_board(*p, self.dim_spec()),
        ensures
            r == neighbor(*p, *way, self.dim_spec()),
            r matches Some(n) ==> on_board(n, self.dim_spec()),
    {
        match way {
            Way::Up => if p.y > 0 { Some(Pos { x: p.x, y: p.y - 1 }) } else { None },
            Way::Down => if p.y + 1 < self.dim.rows { Some(Pos { x: p.x, y: p.y + 1 }) } else { None },
            Way::Left => if p.x > 0 { Some(Pos { x: p.x - 1, y: p.y }) } else { None },
            Way::Right => if p.x + 1 < self.dim.columns { Some(Pos { x: p.x + 1, y: p.y }) } else { None },
        }
    }

    /// The cell on the board edge that faces `way`, in line with `start`.
    fn side_hit(&self, start: &Pos, way: &Way) -> (r: Hit)
        requires
            on_board(*start, self.dim_spec()),
        ensures
            r.distance == edge_distance(*start, *way, self.dim_spec()),
            r.pos == advance(*start, *way, r.distance as int),
            on_board(r.pos, self.dim_spec()),
    {
        match way {
            Way::Up => Hit { pos: Pos { x: start.x, y: 0 }, distance: start.y },
            Way::Down => Hit {
                pos: Pos { x: start.x, y: self.dim.rows - 1 },
                distance: self.dim.rows - 1 - start.y,
            },
            Way::Left => Hit { pos: Pos { x: 0, y: start.y }, distance: start.x },
            Way::Right => Hit {
                pos: Pos { x: self.dim.columns - 1, y: start.y },
                distance: self.dim.columns - 1 - start.x,
            },
        }
    }

    /// Whether the cell at `p` stops a robot moving in direction `way`; a
    /// position off the board stops nothing.
    fn blocks(&self, p: &Pos, way: &Way) -> (r: bool)
        ensures
            on_board(*p, self.dim_spec()) ==> r == blocked_at(self.cell_at(*p), *p, self.dim_spec(), *way),
            !on_board(*p, self.dim_spec()) ==> !r,
    {
        match self.moves_from(p) {
            Err(_) => false,
            Ok(m) => !m.can_go(way),
        }
    }
}

impl Board for BoardByIndividualCells {
    closed spec fn dim_spec(&self) -> Dimensions {
        self.dim
    }

    closed spec fn cell_at(&self, p: Pos) -> MovePossibility {
        match lookup(self.cells@, p) {
            Some(m) => m,
            None => all_open(),
        }
    }

    /// Any cell may hold a robot at the start.
    open spec fn start_allowed(&self, p: Pos) -> bool {
        true
    }

    fn dim(&self) -> Dimensions {
        self.dim
    }

    fn is_start_pos(&self, _pos: &Pos) -> Result<bool, Error> {
        Ok(true)
    }

    fn moves_from(&self, start: &Pos) -> Result<MovePossibility, Error> {
        if !self.contains(start) {
            return Err(Error::PositionNotOnBoard);
        }
        let mut moves = match self.find(start) {
            Some(i) => self.cells[i].moves,
            None => MovePossibility::all(),
        };
        moves.up = moves.up && start.y > 0;
        moves.down = moves.down && start.y + 1 < self.dim.rows;
        moves.left = moves.left && start.x > 0;
        moves.right = moves.right && start.x + 1 < self.dim.columns;
        Ok(moves)
    }

    fn hit_from(&self, start: &Pos, way: Way) -> Result<Hit, Error> {
        if !self.contains(start) {
            return Err(Error::PositionNotOnBoard);
        }
        // The edge cell is where the slide ends when nothing stops it sooner.
        let edge = self.side_hit(start, &way);
        assert(advance(*start, way, 0) == *start);
        // A wall on the far side of the start cell keeps the robot where it is.
        if self.blocks(start, &way) {
            return Ok(Hit { pos: *start, distance: 0 });
        }
        assert(edge.distance >= 1);
        // The cells strictly between, nearest first: the first one that cannot
        // be left in direction `way` is the nearest wall.
        let path = start.direct_path_to(&edge.pos);
        proof {
            lemma_path_along(*start, way, edge.distance as int, self.dim_spec());
        }
        let mut i: usize = 0;
        while i < path.len()
            invariant
                on_board(*start, self.dim_spec()),
                edge.distance == edge_distance(*start, way, self.dim_spec()),
                edge.pos == advance(*start, way, edge.distance as int),
                path@.len() + 1 == edge.distance,
                forall|k: int| 0 <= k < path@.len() ==> #[trigger] path@[k] == advance(*start, way, k + 1),
                i <= path@.len(),
                forall|d: int|
                    0 <= d <= i ==> !blocked_at(
                        self.cell_at(advance(*start, way, d)),
                        #[trigger] advance(*start, way, d),
                        self.dim_spec(),
                        way,
                    ),
            decreases path@.len() - i,
        {
            let p = path[i];
            assert(p == advance(*start, way, i + 1));
            if self.blocks(&p, &way) {
                let distance = start.distance_to(&p, way);
                return Ok(Hit { pos: p, distance: distance as u32 });
            }
            i = i + 1;
        }
        Ok(edge)
    }
}

impl EditableBoard for BoardByIndividualCells {
    /// Every stored cell lies on the board and has a closed side.
    closed spec fn wf(&self) -> bool {
        forall|i: int|
            0 <= i < self.cells@.len() ==> on_board(#[trigger] self.cells@[i].pos, self.dim)
                && self.cells@[i].moves != all_open()
    }

    fn reset(&mut self, dim: Dimensions) -> Result<(), Error> {
        if dim.rows >= 2 && dim.columns >= 2 {
            self.cells = Vec::new();
            self.dim = dim;
            Ok(())
        } else {
            Err(Error::DimensionsNotSuitableForBoard)
        }
    }

    fn put_wall(&mut self, wall: &Wall) -> Result<(), Error> {
        if !self.contains(&wall.pos) {
            return Err(Error::PositionNotOnBoard);
        }
        self.close_side(&wall.pos, &wall.side);
        match self.neighbor_of(&wall.pos, &wall.side) {
            Some(n) => self.close_side(&n, &wall.side.opposite()),
            None => {},
        }
        Ok(())
    }
}

/// The cells from `start` towards `advance(start, w, e)` lie one step apart.
proof fn lemma_path_along(start: Pos, w: Way, e: int, dim: Dimensions)
    requires
        on_board(start, dim),
        1 <= e <= edge_distance(start, w, dim),
    ensures
        direct_path(start, advance(start, w, e)).len() == e - 1,
        forall|k: int|
            0 <= k < e - 1 ==> #[trigger] direct_path(start, advance(start, w, e))[k] == advance(start, w, k + 1),
{
}

} // verus!
