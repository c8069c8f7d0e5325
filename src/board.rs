use vstd::prelude::*;
use crate::geometry::{Dimensions, Hit, Pos, Way, on_board, opposite_spec, advance, edge_distance};
use crate::moves::{MovePossibility, can_go_spec, all_open, closed_towards};
use crate::wall::Wall;

verus! {

#[derive(Clone, Copy, Debug, PartialEq, Eq, Structural)]
pub enum Error {
    /// A board needs at least two rows and two columns.
    DimensionsNotSuitableForBoard,
    /// The position lies outside the board.
    PositionNotOnBoard,
}

/// The moves of `m` at `p`, with every side that faces the edge of a board
/// of extent `dim` closed.
pub open spec fn edge_clip(m: MovePossibility, p: Pos, dim: Dimensions) -> MovePossibility {
    MovePossibility {
        up: m.up && p.y > 0,
        down: m.down && p.y + 1 < dim.rows,
        left: m.left && p.x > 0,
        right: m.right && p.x + 1 < dim.columns,
    }
}

/// The cell next to `p` in direction `w`, where it lies on the board.
pub open spec fn neighbor(p: Pos, w: Way, dim: Dimensions) -> Option<Pos> {
    match w {
        Way::Up => if p.y > 0 { Some(Pos { x: p.x, y: (p.y - 1) as u32 }) } else { None },
        Way::Down => if p.y + 1 < dim.rows { Some(Pos { x: p.x, y: (p.y + 1) as u32 }) } else { None },
        Way::Left => if p.x > 0 { Some(Pos { x: (p.x - 1) as u32, y: p.y }) } else { None },
        Way::Right => if p.x + 1 < dim.columns { Some(Pos { x: (p.x + 1) as u32, y: p.y }) } else { None },
    }
}

/// The sides of the cell at `p` left open once `w` is placed on a board of
/// extent `dim`, where `m` were its open sides before.
pub open spec fn wall_effect(m: MovePossibility, w: Wall, dim: Dimensions, p: Pos) -> MovePossibility {
    if p == w.pos {
        closed_towards(m, w.side)
    } else if neighbor(w.pos, w.side, dim) == Some(p) {
        closed_towards(m, opposite_spec(w.side))
    } else {
        m
    }
}

/// The sides of the cell at `p` left open once `walls` are placed in order,
/// where `m` were its open sides before.
pub open spec fn cell_after_walls(m: MovePossibility, walls: Seq<Wall>, dim: Dimensions, p: Pos) -> MovePossibility
    decreases walls.len(),
{
    if walls.len() == 0 {
        m
    } else {
        wall_effect(cell_after_walls(m, walls.drop_last(), dim, p), walls.last(), dim, p)
    }
}

/// A robot at `p`, in a cell whose open sides are `m` on a board of extent
/// `dim`, cannot go on in direction `w`.
pub open spec fn blocked_at(m: MovePossibility, p: Pos, dim: Dimensions, w: Way) -> bool {
    !can_go_spec(edge_clip(m, p, dim), w)
}

/// `h` is where a robot leaving `start` in direction `way` comes to rest on
/// a board of extent `dim` whose cells have the open sides `cells`: the
/// nearest cell, from `start` itself up to the board edge, that it cannot
/// leave in direction `way`, and how many cells away it is.
pub open spec fn is_hit(dim: Dimensions, cells: spec_fn(Pos) -> MovePossibility, start: Pos, way: Way, h: Hit) -> bool {
    &&& h.distance <= edge_distance(start, way, dim)
    &&& h.pos == advance(start, way, h.distance as int)
    &&& on_board(h.pos, dim)
    &&& blocked_at(cells(h.pos), h.pos, dim, way)
    &&& forall|d: int|
        0 <= d < h.distance ==> !blocked_at(cells(advance(start, way, d)), #[trigger] advance(start, way, d), dim, way)
}

/// The two boards have the same extent and the same walls.
pub open spec fn same_state<B: Board>(a: B, b: B) -> bool {
    a.dim_spec() == b.dim_spec() && forall|p: Pos| #[trigger] a.cell_at(p) == b.cell_at(p)
}

/// `next` is `prev` with `w` placed.
pub open spec fn wall_applied<B: EditableBoard>(prev: B, next: B, w: Wall) -> bool {
    &&& next.wf()
    &&& next.dim_spec() == prev.dim_spec()
    &&& forall|p: Pos| #[trigger] next.cell_at(p) == wall_effect(prev.cell_at(p), w, prev.dim_spec(), p)
}

/// What can be read of a board.
pub trait Board: Sized {
    /// The board's extent.
    spec fn dim_spec(&self) -> Dimensions;

    /// The sides of the cell at `p` that no wall closed, before the board
    /// edge is taken into account.
    spec fn cell_at(&self, p: Pos) -> MovePossibility;

    /// Whether a robot may start at `p`.
    spec fn start_allowed(&self, p: Pos) -> bool;

    fn dim(&self) -> (r: Dimensions)
        ensures
            r == self.dim_spec(),
    ;

    fn is_start_pos(&self, pos: &Pos) -> (r: Result<bool, Error>)
        ensures
            r == Ok::<bool, Error>(self.start_allowed(*pos)),
    ;

    /// Which directions a robot at `start` may leave by: the sides that no
    /// wall closed, less those facing the board edge.
    fn moves_from(&self, start: &Pos) -> (r: Result<MovePossibility, Error>)
        ensures
            on_board(*start, self.dim_spec()) ==> r == Ok::<MovePossibility, Error>(edge_clip(self.cell_at(*start), *start, self.dim_spec())),
            !on_board(*start, self.dim_spec()) ==> r == Err::<MovePossibility, Error>(Error::PositionNotOnBoard),
    ;

    /// Where a robot leaving `start` in direction `way` comes to rest: at
    /// the first wall in its way, or at the board edge.
    fn hit_from(&self, start: &Pos, way: Way) -> (r: Result<Hit, Error>)
        ensures
            on_board(*start, self.dim_spec()) <==> r is Ok,
            !on_board(*start, self.dim_spec()) ==> r == Err::<Hit, Error>(Error::PositionNotOnBoard),
            r matches Ok(h) ==> is_hit(self.dim_spec(), |p: Pos| self.cell_at(p), *start, way, h),
    ;
}

/// What can be changed on a board.
pub trait EditableBoard: Board {
    /// The representation is consistent.
    spec fn wf(&self) -> bool;

    /// Adopts `dim` and removes every wall, where `dim` has at least two rows
    /// and two columns; otherwise leaves the board as it was.
    fn reset(&mut self, dim: Dimensions) -> (r: Result<(), Error>)
        ensures
            (dim.rows >= 2 && dim.columns >= 2) <==> r is Ok,
            r is Ok ==> final(self).wf() && final(self).dim_spec() == dim,
            r is Ok ==> forall|p: Pos| #[trigger] final(self).cell_at(p) == all_open(),
            r is Ok ==> forall|p: Pos|
                on_board(p, dim) ==> edge_clip(#[trigger] final(self).cell_at(p), p, dim) == edge_clip(all_open(), p, dim),
            r is Err ==> r == Err::<(), Error>(Error::DimensionsNotSuitableForBoard) && *final(self) == *old(self),
    ;

    /// Places `wall`: closes its side of its cell and, where the cell behind
    /// that side is on the board, the facing side of that cell too.
    fn put_wall(&mut self, wall: &Wall) -> (r: Result<(), Error>)
        requires
            old(self).wf(),
        ensures
            final(self).wf(),
            on_board(wall.pos, old(self).dim_spec()) <==> r is Ok,
            r is Err ==> r == Err::<(), Error>(Error::PositionNotOnBoard) && *final(self) == *old(self),
            r is Ok ==> final(self).dim_spec() == old(self).dim_spec(),
            r is Ok ==> forall|p: Pos| #[trigger] final(self).cell_at(p) == wall_effect(
                old(self).cell_at(p),
                *wall,
                old(self).dim_spec(),
                p,
            ),
            r is Ok ==> blocked_at(final(self).cell_at(wall.pos), wall.pos, final(self).dim_spec(), wall.side),
            r is Ok ==> match neighbor(wall.pos, wall.side, old(self).dim_spec()) {
                Some(n) => blocked_at(final(self).cell_at(n), n, final(self).dim_spec(), opposite_spec(wall.side)),
                None => forall|p: Pos| p != wall.pos ==> #[trigger] final(self).cell_at(p) == old(self).cell_at(p),
            },
    ;
}

/// Placing the same wall a second time leaves the board as the first
/// placement left it.
pub proof fn put_wall_idempotent<B: EditableBoard>(b0: B, b1: B, b2: B, w: Wall)
    requires
        wall_applied(b0, b1, w),
        wall_applied(b1, b2, w),
    ensures
        same_state(b2, b1),
{
    assert forall|p: Pos| #[trigger] b2.cell_at(p) == b1.cell_at(p) by {
        assert(b2.cell_at(p) == wall_effect(b1.cell_at(p), w, b1.dim_spec(), p));
        assert(b1.cell_at(p) == wall_effect(b0.cell_at(p), w, b0.dim_spec(), p));
    }
}

/// A slide has one outcome: two resting places that both meet the
/// description of a hit are the same.
pub proof fn hit_is_unique(dim: Dimensions, cells: spec_fn(Pos) -> MovePossibility, start: Pos, way: Way, h1: Hit, h2: Hit)
    requires
        is_hit(dim, cells, start, way, h1),
        is_hit(dim, cells, start, way, h2),
    ensures
        h1 == h2,
{
    if h1.distance < h2.distance {
        assert(!blocked_at(cells(advance(start, way, h1.distance as int)), advance(start, way, h1.distance as int), dim, way));
    } else if h2.distance < h1.distance {
        assert(!blocked_at(cells(advance(start, way, h2.distance as int)), advance(start, way, h2.distance as int), dim, way));
    }
}

} // verus!
