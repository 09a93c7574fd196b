//! The seven pieces, their four orientations and the cells they cover.

use crate::board::{apart, Output};
use crate::command::Command;
use crate::random::pick;
use vstd::prelude::*;

verus! {

/// The kind of a piece: one of the seven four-cell shapes.
#[derive(Debug, Clone, Copy, PartialEq, Eq, Structural)]
pub enum Block {
    I,
    J,
    L,
    O,
    S,
    T,
    Z,
}

/// The orientation of a piece.  Rotation steps through
/// `Up`, `Right`, `Down`, `Left` and back to `Up`.
#[derive(Debug, Clone, Copy, PartialEq, Eq, Structural)]
pub enum Angle {
    Up,
    Down,
    Right,
    Left,
}

/// Where the active piece stands: the pivot cell (column `x`, row `y`, origin
/// at the top left) and the orientation.
#[derive(Debug, Clone, Copy, PartialEq, Eq, Structural)]
pub struct Position {
    pub x: usize,
    pub y: usize,
    pub angle: Angle,
}

impl Angle {
    /// The orientation one rotation step further.
    pub open spec fn turned(self) -> Angle {
        match self {
            Angle::Up => Angle::Right,
            Angle::Right => Angle::Down,
            Angle::Down => Angle::Left,
            Angle::Left => Angle::Up,
        }
    }

    /// Advances the orientation by one step of the rotation cycle.
    pub fn rotate(self) -> (next: Angle)
        ensures
            next == self.turned(),
    {
        match self {
            Angle::Up => Angle::Right,
            Angle::Down => Angle::Left,
            Angle::Right => Angle::Down,
            Angle::Left => Angle::Up,
        }
    }
}

impl Position {
    /// The position after one rotation step: same pivot, next orientation.
    pub open spec fn turned(self) -> Position {
        Position { x: self.x, y: self.y, angle: self.angle.turned() }
    }

    /// The position after a one-cell move.  Only `Down`, `MoveLeft` and
    /// `MoveRight` move; the pivot must not leave the `usize` range.
    pub open spec fn moved(self, command: Command) -> Position {
        match command {
            Command::Down => Position { x: self.x, y: (self.y + 1) as usize, angle: self.angle },
            Command::MoveRight => Position { x: (self.x + 1) as usize, y: self.y, angle: self.angle },
            Command::MoveLeft => Position { x: (self.x - 1) as usize, y: self.y, angle: self.angle },
            _ => self,
        }
    }

    /// Whether the move keeps the pivot within the `usize` range.
    pub open spec fn can_move(self, command: Command) -> bool {
        match command {
            Command::Down => self.y < usize::MAX,
            Command::MoveRight => self.x < usize::MAX,
            Command::MoveLeft => self.x > 0,
            _ => false,
        }
    }

    /// A position with the given pivot and a randomly drawn orientation.
    pub fn create_at(x: usize, y: usize) -> (position: Position)
        ensures
            position.x == x,
            position.y == y,
    {
        let mut rng = rand::thread_rng();
        let angles = [Angle::Up, Angle::Down, Angle::Right, Angle::Left];
        let angle = match pick(&mut rng, &angles) {
            Some(angle) => angle,
            None => Angle::Up,
        };
        Position { x, y, angle }
    }

    /// Turns the piece by one step; the pivot stays.
    pub fn rotate(self) -> (next: Position)
        ensures
            next == self.turned(),
    {
        Position { x: self.x, y: self.y, angle: self.angle.rotate() }
    }

    /// Shifts the pivot by one cell: `Down` adds one to `y`, `MoveRight` adds
    /// one to `x`, `MoveLeft` takes one from `x`.  The orientation stays.
    pub fn move_by(self, command: &Command) -> (next: Position)
        requires
            self.can_move(*command),
        ensures
            next == self.moved(*command),
    {
        match *command {
            Command::Down => Position { x: self.x, y: self.y + 1, angle: self.angle },
            Command::MoveRight => Position { x: self.x + 1, y: self.y, angle: self.angle },
            _ => Position { x: self.x - 1, y: self.y, angle: self.angle },
        }
    }
}

/// The geometry table: the four cells that a piece of the given kind covers
/// in the given orientation, as offsets `(dx, dy)` from its pivot.
#[verifier::opaque]
pub open spec fn offsets(kind: Block, angle: Angle) -> Seq<(int, int)> {
    match (kind, angle) {
        (Block::I, Angle::Up) => seq![(0, 0), (0, 1), (0, -1), (0, -2)],
        (Block::I, Angle::Down) => seq![(0, 0), (0, -1), (0, 1), (0, 2)],
        (Block::I, Angle::Right) => seq![(0, 0), (-1, 0), (1, 0), (2, 0)],
        (Block::I, Angle::Left) => seq![(0, 0), (1, 0), (-1, 0), (-2, 0)],
        (Block::J, Angle::Up) => seq![(0, 0), (0, -1), (0, -2), (-1, 0)],
        (Block::J, Angle::Down) => seq![(0, 0), (1, 0), (0, 1), (0, 2)],
        (Block::J, Angle::Right) => seq![(0, 0), (0, -1), (1, 0), (2, 0)],
        (Block::J, Angle::Left) => seq![(0, 0), (0, 1), (-1, 0), (-2, 0)],
        (Block::L, Angle::Up) => seq![(0, 0), (0, -1), (0, -2), (1, 0)],
        (Block::L, Angle::Down) => seq![(0, 0), (-1, 0), (0, 1), (0, 2)],
        (Block::L, Angle::Right) => seq![(0, 0), (0, 1), (1, 0), (2, 0)],
        (Block::L, Angle::Left) => seq![(0, 0), (0, -1), (-1, 0), (-2, 0)],
        (Block::O, Angle::Up) => seq![(0, 0), (1, 0), (0, -1), (1, -1)],
        (Block::O, Angle::Down) => seq![(0, 0), (-1, 0), (0, 1), (-1, 1)],
        (Block::O, Angle::Right) => seq![(0, 0), (0, 1), (1, 0), (1, 1)],
        (Block::O, Angle::Left) => seq![(0, 0), (-1, 0), (0, -1), (-1, -1)],
        (Block::Z, Angle::Up) => seq![(0, 0), (-1, -1), (0, -1), (1, 0)],
        (Block::Z, Angle::Down) => seq![(0, 0), (-1, 0), (0, 1), (1, 1)],
        (Block::Z, Angle::Right) => seq![(0, 0), (0, 1), (1, 0), (1, -1)],
        (Block::Z, Angle::Left) => seq![(0, 0), (0, -1), (-1, 0), (-1, 1)],
        (Block::S, Angle::Up) => seq![(0, 0), (1, -1), (0, -1), (-1, 0)],
        (Block::S, Angle::Down) => seq![(0, 0), (1, 0), (0, 1), (-1, 1)],
        (Block::S, Angle::Right) => seq![(0, 0), (0, -1), (1, 0), (1, 1)],
        (Block::S, Angle::Left) => seq![(0, 0), (0, 1), (-1, 0), (-1, -1)],
        (Block::T, Angle::Up) => seq![(0, 0), (-1, 0), (1, 0), (0, 1)],
        (Block::T, Angle::Down) => seq![(0, 0), (-1, 0), (1, 0), (0, -1)],
        (Block::T, Angle::Right) => seq![(0, 0), (-1, 0), (0, 1), (0, -1)],
        (Block::T, Angle::Left) => seq![(0, 0), (1, 0), (0, 1), (0, -1)],
    }
}

/// Whether the cell at `offset` from the pivot of `position` has coordinates
/// that `usize` can hold.
pub open spec fn offset_fits(position: Position, offset: (int, int)) -> bool {
    &&& 0 <= position.x + offset.0 <= usize::MAX
    &&& 0 <= position.y + offset.1 <= usize::MAX
}

/// The cell at `offset` from the pivot of `position`, marked as locked.
pub open spec fn cell_at(position: Position, offset: (int, int)) -> (usize, usize, Output) {
    ((position.x + offset.0) as usize, (position.y + offset.1) as usize, Output::locked())
}

impl Block {
    /// Whether all four cells of the piece at `position` have coordinates
    /// that `usize` can hold.
    pub open spec fn fits_at(self, position: Position) -> bool {
        let table = offsets(self, position.angle);
        &&& offset_fits(position, table[0])
        &&& offset_fits(position, table[1])
        &&& offset_fits(position, table[2])
        &&& offset_fits(position, table[3])
    }

    /// The four cells that the piece covers at `position`: pivot plus offset,
    /// in the order of the geometry table.
    pub open spec fn cells_at(self, position: Position) -> Seq<(usize, usize, Output)> {
        Seq::new(4, |i: int| cell_at(position, offsets(self, position.angle)[i]))
    }

    /// Draws a kind at random.
    pub fn new() -> Block {
        let mut rng = rand::thread_rng();
        let blocks = [Block::I, Block::J, Block::L, Block::O, Block::S, Block::T, Block::Z];
        match pick(&mut rng, &blocks) {
            Some(block) => block,
            None => Block::I,
        }
    }

    /// The absolute cells of the piece at `position`, each carrying the
    /// marker of a locked cell.
    pub fn get_location_by(&self, position: &Position) -> (cells: Vec<(usize, usize, Output)>)
        requires
            self.fits_at(*position),
        ensures
            cells@ == self.cells_at(*position),
    {
        proof {
            reveal(offsets);
        }
        let x = position.x;
        let y = position.y;
        let o = Output::with_shape('O', 'b');
        let cells = match (*self, position.angle) {
            (Block::I, Angle::Up) => vec![(x, y, o), (x, y + 1, o), (x, y - 1, o), (x, y - 2, o)],
            (Block::I, Angle::Down) => vec![(x, y, o), (x, y - 1, o), (x, y + 1, o), (x, y + 2, o)],
            (Block::I, Angle::Right) => vec![(x, y, o), (x - 1, y, o), (x + 1, y, o), (x + 2, y, o)],
            (Block::I, Angle::Left) => vec![(x, y, o), (x + 1, y, o), (x - 1, y, o), (x - 2, y, o)],
            (Block::J, Angle::Up) => vec![(x, y, o), (x, y - 1, o), (x, y - 2, o), (x - 1, y, o)],
            (Block::J, Angle::Down) => vec![(x, y, o), (x + 1, y, o), (x, y + 1, o), (x, y + 2, o)],
            (Block::J, Angle::Right) => vec![(x, y, o), (x, y - 1, o), (x + 1, y, o), (x + 2, y, o)],
            (Block::J, Angle::Left) => vec![(x, y, o), (x, y + 1, o), (x - 1, y, o), (x - 2, y, o)],
            (Block::L, Angle::Up) => vec![(x, y, o), (x, y - 1, o), (x, y - 2, o), (x + 1, y, o)],
            (Block::L, Angle::Down) => vec![(x, y, o), (x - 1, y, o), (x, y + 1, o), (x, y + 2, o)],
            (Block::L, Angle::Right) => vec![(x, y, o), (x, y + 1, o), (x + 1, y, o), (x + 2, y, o)],
            (Block::L, Angle::Left) => vec![(x, y, o), (x, y - 1, o), (x - 1, y, o), (x - 2, y, o)],
            (Block::O, Angle::Up) => vec![(x, y, o), (x + 1, y, o), (x, y - 1, o), (x + 1, y - 1, o)],
            (Block::O, Angle::Down) => vec![(x, y, o), (x - 1, y, o), (x, y + 1, o), (x - 1, y + 1, o)],
            (Block::O, Angle::Right) => vec![(x, y, o), (x, y + 1, o), (x + 1, y, o), (x + 1, y + 1, o)],
            (Block::O, Angle::Left) => vec![(x, y, o), (x - 1, y, o), (x, y - 1, o), (x - 1, y - 1, o)],
            (Block::Z, Angle::Up) => vec![(x, y, o), (x - 1, y - 1, o), (x, y - 1, o), (x + 1, y, o)],
            (Block::Z, Angle::Down) => vec![(x, y, o), (x - 1, y, o), (x, y + 1, o), (x + 1, y + 1, o)],
            (Block::Z, Angle::Right) => vec![(x, y, o), (x, y + 1, o), (x + 1, y, o), (x + 1, y - 1, o)],
            (Block::Z, Angle::Left) => vec![(x, y, o), (x, y - 1, o), (x - 1, y, o), (x - 1, y + 1, o)],
            (Block::S, Angle::Up) => vec![(x, y, o), (x + 1, y - 1, o), (x, y - 1, o), (x - 1, y, o)],
            (Block::S, Angle::Down) => vec![(x, y, o), (x + 1, y, o), (x, y + 1, o), (x - 1, y + 1, o)],
            (Block::S, Angle::Right) => vec![(x, y, o), (x, y - 1, o), (x + 1, y, o), (x + 1, y + 1, o)],
            (Block::S, Angle::Left) => vec![(x, y, o), (x, y + 1, o), (x - 1, y, o), (x - 1, y - 1, o)],
            (Block::T, Angle::Up) => vec![(x, y, o), (x - 1, y, o), (x + 1, y, o), (x, y + 1, o)],
            (Block::T, Angle::Down) => vec![(x, y, o), (x - 1, y, o), (x + 1, y, o), (x, y - 1, o)],
            (Block::T, Angle::Right) => vec![(x, y, o), (x - 1, y, o), (x, y + 1, o), (x, y - 1, o)],
            (Block::T, Angle::Left) => vec![(x, y, o), (x + 1, y, o), (x, y + 1, o), (x, y - 1, o)],
        };
        assert(cells@ =~= self.cells_at(*position));
        cells
    }
}

/// Every entry of the geometry table holds four offsets, no two of them
/// equal.
pub proof fn lemma_offsets_distinct(kind: Block, angle: Angle)
    ensures
        offsets(kind, angle).len() == 4,
        forall|i: int, j: int| 0 <= i < j < 4 ==> offsets(kind, angle)[i] != offsets(kind, angle)[j],
{
    reveal(offsets);
}

/// Every piece covers its pivot first, and no cell of it lies more than two
/// columns or two rows away from the pivot.
pub proof fn lemma_offsets_near_pivot(kind: Block, angle: Angle)
    ensures
        offsets(kind, angle)[0] == (0int, 0int),
        forall|i: int|
            0 <= i < 4 ==> -2 <= (#[trigger] offsets(kind, angle)[i]).0 <= 2 && -2 <= offsets(
                kind,
                angle,
            )[i].1 <= 2,
{
    reveal(offsets);
}

/// A piece whose pivot is at least two cells away from the limits of `usize`
/// has cells with coordinates that `usize` can hold.
pub proof fn lemma_fits_near_pivot(kind: Block, position: Position)
    requires
        2 <= position.x,
        position.x + 2 <= usize::MAX,
        2 <= position.y,
        position.y + 2 <= usize::MAX,
    ensures
        kind.fits_at(position),
{
    lemma_offsets_near_pivot(kind, position.angle);
}

/// The four cells of a piece stand at four different positions, and each
/// carries the marker of a locked cell.
pub proof fn lemma_cells_apart(kind: Block, position: Position)
    requires
        kind.fits_at(position),
    ensures
        kind.cells_at(position).len() == 4,
        apart(kind.cells_at(position)),
        forall|i: int| 0 <= i < 4 ==> (#[trigger] kind.cells_at(position)[i]).2 == Output::locked(),
{
    lemma_offsets_distinct(kind, position.angle);
    let table = offsets(kind, position.angle);
    let cells = kind.cells_at(position);
    assert forall|i: int, j: int| 0 <= i < j < cells.len() implies (#[trigger] cells[i]).0 != (
    #[trigger] cells[j]).0 || cells[i].1 != cells[j].1 by {
        assert(table[i] != table[j]);
        assert(offset_fits(position, table[i]) && offset_fits(position, table[j]));
    }
}

/// Four rotation steps bring a position back to where it was.
pub proof fn lemma_rotate_cycle(position: Position)
    ensures
        position.turned().turned().turned().turned() == position,
        position.turned().x == position.x,
        position.turned().y == position.y,
{
}

/// Four rotation steps bring an orientation back to itself, and fewer do not.
pub proof fn lemma_angle_cycle(angle: Angle)
    ensures
        angle.turned().turned().turned().turned() == angle,
        angle.turned() != angle,
        angle.turned().turned() != angle,
        angle.turned().turned().turned() != angle,
{
}

} // verus!
