use vstd::prelude::*;
use rand::Rng;
use crate::geometry::{Dimensions, Pos, on_board};
use crate::moves::all_open;
use crate::wall::Wall;
use crate::board::{Board, EditableBoard, Error, cell_after_walls};

verus! {

/// A wall layout, placed on a board one wall after the other.
#[derive(Debug)]
pub struct TileSet {
    pub walls: Vec<Wall>,
}

/// Whether every wall of `walls` stands on a board of extent `dim`.
pub open spec fn fits(walls: Seq<Wall>, dim: Dimensions) -> bool {
    forall|k: int| 0 <= k < walls.len() ==> on_board(#[trigger] walls[k].pos, dim)
}

impl TileSet {
    /// Places every wall of the layout on `board`, or none of them when one
    /// lies off the board.
    pub fn build<B: EditableBoard>(&self, board: &mut B) -> (r: Result<(), Error>)
        requires
            old(board).wf(),
        ensures
            final(board).wf(),
            final(board).dim_spec() == old(board).dim_spec(),
            fits(self.walls@, old(board).dim_spec()) <==> r is Ok,
            r is Ok ==> forall|p: Pos| #[trigger] final(board).cell_at(p) == cell_after_walls(
                old(board).cell_at(p),
                self.walls@,
                old(board).dim_spec(),
                p,
            ),
            r is Err ==> r == Err::<(), Error>(Error::PositionNotOnBoard) && *final(board) == *old(board),
    {
        let dim = board.dim();
        let mut k: usize = 0;
        while k < self.walls.len()
            invariant
                *board == *old(board),
                old(board).wf(),
                dim == old(board).dim_spec(),
                k <= self.walls@.len(),
                forall|j: int| 0 <= j < k ==> on_board(#[trigger] self.walls@[j].pos, dim),
            decreases self.walls@.len() - k,
        {
            let pos = self.walls[k].pos;
            if !(pos.x < dim.columns && pos.y < dim.rows) {
                assert(!on_board(self.walls@[k as int].pos, dim));
                return Err(Error::PositionNotOnBoard);
            }
            k = k + 1;
        }
        let ghost start = *board;
        let mut i: usize = 0;
        while i < self.walls.len()
            invariant
                fits(self.walls@, dim),
                dim == start.dim_spec(),
                board.wf(),
                board.dim_spec() == dim,
                i <= self.walls@.len(),
                forall|p: Pos| #[trigger] board.cell_at(p) == cell_after_walls(
                    start.cell_at(p),
                    self.walls@.take(i as int),
                    dim,
                    p,
                ),
            decreases self.walls@.len() - i,
        {
            let w = self.walls[i];
            let r = board.put_wall(&w);
            assert(r is Ok);
            assert(self.walls@.take(i + 1).drop_last() =~= self.walls@.take(i as int));
            i = i + 1;
        }
        assert(self.walls@.take(i as int) =~= self.walls@);
        Ok(())
    }
}

/// Lays out boards of one extent, each time from a tile set drawn at random.
pub struct Builder {
    board_dim: Dimensions,
    tile_sets: Vec<TileSet>,
}

/// Relies on rand's `thread_rng` and `Rng::gen_range`: a number drawn from
/// `0..n`, which must not be empty.
#[verifier::external_body]
fn random_index(n: usize) -> (r: usize)
    requires
        n > 0,
    ensures
        r < n,
{
    rand::thread_rng().gen_range(0..n)
}

impl Builder {
    pub closed spec fn board_dim_spec(&self) -> Dimensions {
        self.board_dim
    }

    pub closed spec fn tile_sets_spec(&self) -> Seq<TileSet> {
        self.tile_sets@
    }

    pub fn new(board_dim: Dimensions, tile_sets: Vec<TileSet>) -> (r: Builder)
        ensures
            r.board_dim_spec() == board_dim,
            r.tile_sets_spec() == tile_sets@,
    {
        Builder { board_dim, tile_sets }
    }

    /// What building from tile set `index` gives: `next` is `prev` reset to
    /// the builder's extent with that set's walls placed; the board is left
    /// as it was where the extent is too small, and left empty where a wall
    /// lies off the board.
    pub open spec fn built<B: EditableBoard>(
        &self,
        prev: B,
        next: B,
        index: int,
        r: Result<(), Error>,
    ) -> bool {
        let dim = self.board_dim_spec();
        let walls = self.tile_sets_spec()[index].walls@;
        if !(dim.rows >= 2 && dim.columns >= 2) {
            r == Err::<(), Error>(Error::DimensionsNotSuitableForBoard) && next == prev
        } else if !fits(walls, dim) {
            &&& r == Err::<(), Error>(Error::PositionNotOnBoard)
            &&& next.wf()
            &&& next.dim_spec() == dim
            &&& forall|p: Pos| #[trigger] next.cell_at(p) == all_open()
        } else {
            &&& r is Ok
            &&& next.wf()
            &&& next.dim_spec() == dim
            &&& forall|p: Pos| #[trigger] next.cell_at(p) == cell_after_walls(all_open(), walls, dim, p)
        }
    }

    /// Resets `board` to the builder's extent and places the walls of the
    /// tile set at `index`.
    pub fn build_with<B: EditableBoard>(&self, board: &mut B, index: usize) -> (r: Result<(), Error>)
        requires
            index < self.tile_sets_spec().len(),
        ensures
            self.built(*old(board), *final(board), index as int, r),
    {
        board.reset(self.board_dim)?;
        self.tile_sets[index].build(board)
    }

    /// Resets `board` to the builder's extent and places the walls of a tile
    /// set drawn at random.
    pub fn build_on<B: EditableBoard>(&self, board: &mut B) -> (r: Result<(), Error>)
        requires
            self.tile_sets_spec().len() > 0,
        ensures
            exists|index: int|
                0 <= index < self.tile_sets_spec().len() && self.built(*old(board), *final(board), index, r),
    {
        let index = random_index(self.tile_sets.len());
        let r = self.build_with(board, index);
        assert(self.built(*old(board), *board, index as int, r));
        r
    }
}

} // verus!
