//! The game state and its transitions.

use crate::board::{
    blank_board, blank_grid, cleared_count, covers, grid_of, is_occupied, lemma_blank_grid_count,
    lemma_blank_grid_resolved, lemma_blank_grid_unoccupied, lemma_count_push, lemma_placed_cell,
    lemma_placed_count, lemma_placed_rectangular, lemma_resolved_count, lemma_resolved_height,
    lemma_resolved_idempotent, lemma_resolved_rectangular, lemma_row_count_bound, occupied_at,
    occupied_count, occupied_in_row, on_grid, placed, put, rectangular, resolved, row_full,
    survives, Grid, Output,
};
use crate::command::Command;
use crate::piece::{
    lemma_cells_apart, lemma_fits_near_pivot, lemma_offsets_near_pivot, Angle, Block, Position,
};
use vstd::prelude::*;
use vstd::slice::slice_to_vec;

verus! {

/// What the player has achieved so far.  The score is a placeholder: no
/// transition changes it.
#[derive(Debug, Clone, Copy, PartialEq, Eq, Structural)]
pub struct User {
    pub score: usize,
}

impl User {
    /// A player who has not scored yet.
    pub fn new() -> (user: User)
        ensures
            user.score == 0,
    {
        User { score: 0 }
    }
}

/// The state of one game: the board of locked cells, the falling piece, the
/// piece that comes next and the piece held in reserve.
pub struct Tetris {
    width: usize,
    height: usize,
    next: Block,
    reserve: Block,
    current: (Block, Position),
    board: Vec<Vec<Output>>,
    user_status: User,
}

/// The mathematical model of a game state.
pub struct TetrisView {
    pub width: nat,
    pub height: nat,
    pub next: Block,
    pub reserve: Block,
    pub current: (Block, Position),
    pub board: Grid,
    pub score: nat,
}

/// The pivot at which a piece enters a board of the given width: the middle
/// column of the fourth row.
pub open spec fn spawn(width: nat, angle: Angle) -> Position {
    Position { x: (width / 2) as usize, y: 3, angle }
}

/// Whether a cell keeps the required distance from the walls and the floor:
/// more than two columns from either side, more than two rows from the bottom.
pub open spec fn cell_in_range(width: nat, height: nat, cell: (usize, usize, Output)) -> bool {
    width > cell.0 + 2 && height > cell.1 + 2 && cell.0 > 2
}

impl View for Tetris {
    type V = TetrisView;

    closed spec fn view(&self) -> TetrisView {
        TetrisView {
            width: self.width as nat,
            height: self.height as nat,
            next: self.next,
            reserve: self.reserve,
            current: self.current,
            board: grid_of(self.board@),
            score: self.user_status.score as nat,
        }
    }
}

impl TetrisView {
    /// The state at the start of a game: a blank board, the given piece at
    /// the spawn position, and no score.
    pub open spec fn initial(
        width: nat,
        height: nat,
        current: Block,
        angle: Angle,
        next: Block,
        reserve: Block,
    ) -> TetrisView {
        TetrisView {
            width,
            height,
            next,
            reserve,
            current: (current, spawn(width, angle)),
            board: blank_grid(width, height),
            score: 0,
        }
    }

    /// Well-formedness: the board is at least six by six and small enough for
    /// its cells to be counted, it has `height` rows of `width` cells, and the
    /// pivot of the falling piece keeps three cells from every edge, so that
    /// the piece lies on the board whatever its kind and orientation.
    pub open spec fn wf(self) -> bool {
        &&& 6 <= self.width <= usize::MAX
        &&& 6 <= self.height <= usize::MAX
        &&& self.width * self.height <= usize::MAX
        &&& rectangular(self.board, self.width, self.height)
        &&& 3 <= self.current.1.x
        &&& self.current.1.x + 3 <= self.width
        &&& 3 <= self.current.1.y
        &&& self.current.1.y + 3 <= self.height
    }

    /// Whether no full row is waiting to be cleared: a resolution pass would
    /// leave the board as it is.
    pub open spec fn settled(self) -> bool {
        resolved(self.board, self.width) == self.board
    }

    /// The cells that the falling piece covers.
    pub open spec fn active_cells(self) -> Seq<(usize, usize, Output)> {
        self.current.0.cells_at(self.current.1)
    }

    /// Whether every cell keeps the required distance from walls and floor.
    pub open spec fn in_range(self, cells: Seq<(usize, usize, Output)>) -> bool {
        forall|i: int| 0 <= i < cells.len() ==> cell_in_range(self.width, self.height, #[trigger] cells[i])
    }

    /// Whether none of the cells is occupied on the board.
    pub open spec fn not_collide(self, cells: Seq<(usize, usize, Output)>) -> bool {
        forall|i: int|
            0 <= i < cells.len() ==> !occupied_at(self.board, (#[trigger] cells[i]).0 as int, cells[i].1 as int)
    }

    /// Whether the falling piece may stand at `position`.
    pub open spec fn legal(self, position: Position) -> bool {
        let cells = self.current.0.cells_at(position);
        self.in_range(cells) && self.not_collide(cells)
    }

    /// The outcome of a command.  `Ok` carries the state after an accepted
    /// command, `Err` the unchanged state after a rejected one.
    ///
    /// `Rotate` and the three moves are accepted when the falling piece may
    /// stand at the new position, and then only the position changes.
    /// `Reserve` swaps the kind of the falling piece with the held kind and
    /// checks nothing.  Every other command is accepted and changes nothing.
    pub open spec fn applied(self, command: Command) -> Result<TetrisView, TetrisView> {
        match command {
            Command::Rotate => self.shifted(self.current.1.turned()),
            Command::MoveRight | Command::MoveLeft | Command::Down => self.shifted(
                self.current.1.moved(command),
            ),
            Command::Reserve => Ok(
                TetrisView { current: (self.reserve, self.current.1), reserve: self.current.0, ..self },
            ),
            _ => Ok(self),
        }
    }

    /// The falling piece taken to `position` if it may stand there.
    pub open spec fn shifted(self, position: Position) -> Result<TetrisView, TetrisView> {
        if self.legal(position) {
            Ok(TetrisView { current: (self.current.0, position), ..self })
        } else {
            Err(self)
        }
    }

    /// The cells of the falling piece as a snapshot shows them.
    pub open spec fn shown_cells(self) -> Seq<(usize, usize, Output)> {
        Seq::new(4, |i: int| (self.active_cells()[i].0, self.active_cells()[i].1, Output::falling()))
    }

    /// The grid to show: the board with the falling piece drawn over it.
    pub open spec fn snapshot(self) -> Grid {
        placed(self.board, self.shown_cells())
    }

    /// The state after a resolution pass over the board.
    pub open spec fn resolved(self) -> TetrisView {
        TetrisView { board: resolved(self.board, self.width), ..self }
    }

    /// The state after the falling piece has landed: its cells are written
    /// into the board, the piece that was next enters at the spawn position
    /// in the orientation `angle`, and `next` is the piece to come.
    pub open spec fn locked(self, next: Block, angle: Angle) -> TetrisView {
        TetrisView {
            current: (self.next, spawn(self.width, angle)),
            next,
            board: placed(self.board, self.active_cells()),
            ..self
        }
    }

    /// The state after a command: the command is applied if it is accepted,
    /// and a resolution pass follows either way.
    pub open spec fn updated(self, command: Command) -> TetrisView {
        match self.applied(command) {
            Ok(after) => after.resolved(),
            Err(same) => same.resolved(),
        }
    }

    /// The state after a gravity tick: the falling piece sinks by one row if
    /// it may; otherwise it lands, with `next` and `angle` as the draws for
    /// the piece to come and for the orientation of the entering piece.  A
    /// resolution pass follows either way.
    pub open spec fn ticked(self, next: Block, angle: Angle) -> TetrisView {
        match self.applied(Command::Down) {
            Ok(after) => after.resolved(),
            Err(same) => same.locked(next, angle).resolved(),
        }
    }

    /// A position at which the falling piece may stand has its pivot more
    /// than two columns from either wall and more than two rows from the
    /// floor.
    pub proof fn lemma_legal_pivot(self, position: Position)
        requires
            self.legal(position),
        ensures
            2 < position.x,
            position.x + 2 < self.width,
            position.y + 2 < self.height,
    {
        lemma_offsets_near_pivot(self.current.0, position.angle);
        let cells = self.current.0.cells_at(position);
        assert(cell_in_range(self.width, self.height, cells[0]));
    }

    /// In a well-formed state the falling piece lies on the board.
    pub proof fn lemma_active_cells_on_grid(self)
        requires
            self.wf(),
        ensures
            self.current.0.fits_at(self.current.1),
            forall|i: int| 0 <= i < 4 ==> on_grid(self.board, #[trigger] self.active_cells()[i]),
    {
        lemma_offsets_near_pivot(self.current.0, self.current.1.angle);
    }

    /// On a blank board nothing collides: whatever cells are tested, none of
    /// them is occupied.
    pub proof fn lemma_blank_board_free(self, cells: Seq<(usize, usize, Output)>)
        requires
            self.board == blank_grid(self.width, self.height),
        ensures
            self.not_collide(cells),
    {
        assert forall|i: int| 0 <= i < cells.len() implies !occupied_at(
            self.board,
            (#[trigger] cells[i]).0 as int,
            cells[i].1 as int,
        ) by {
            lemma_blank_grid_unoccupied(self.width, self.height, cells[i].0 as int, cells[i].1 as int);
        }
    }

    /// At the start of a game the falling piece does not collide with the
    /// board, whatever its kind and orientation.
    pub proof fn lemma_spawn_not_colliding(
        width: nat,
        height: nat,
        current: Block,
        angle: Angle,
        next: Block,
        reserve: Block,
    )
        ensures
            ({
                let start = TetrisView::initial(width, height, current, angle, next, reserve);
                start.not_collide(start.active_cells())
            }),
    {
        let start = TetrisView::initial(width, height, current, angle, next, reserve);
        start.lemma_blank_board_free(start.active_cells());
    }

    /// After an accepted rotation or move the falling piece stands where it
    /// may: inside the margins and on free cells.  Board and pieces in store
    /// are as before.
    pub proof fn lemma_accepted_is_legal(self, command: Command)
        requires
            command == Command::Rotate || command.is_move(),
            self.applied(command) is Ok,
        ensures
            ({
                let after = self.applied(command)->Ok_0;
                &&& after.in_range(after.active_cells())
                &&& after.not_collide(after.active_cells())
                &&& after.board == self.board
                &&& after.current.0 == self.current.0
                &&& after.next == self.next
                &&& after.reserve == self.reserve
            }),
    {
    }

    /// A rejected command leaves a settled state exactly as it was, the
    /// resolution pass that follows included.
    pub proof fn lemma_rejected_unchanged(self, command: Command)
        requires
            self.settled(),
            self.applied(command) is Err,
        ensures
            self.updated(command) == self,
    {
    }

    /// Swapping with the reserve twice brings a settled state back to where
    /// it was.
    pub proof fn lemma_reserve_twice(self)
        requires
            self.settled(),
        ensures
            self.updated(Command::Reserve).updated(Command::Reserve) == self,
    {
    }

    /// A resolution pass settles the board and keeps its shape; a second pass
    /// changes nothing.
    pub proof fn lemma_resolved_settled(self)
        ensures
            self.resolved().settled(),
            self.resolved().resolved() == self.resolved(),
            self.resolved().board.len() == self.board.len(),
            self.settled() ==> self.resolved() == self,
    {
        lemma_resolved_idempotent(self.board, self.width);
        lemma_resolved_height(self.board, self.width);
    }

    /// Landing writes exactly the cells of the falling piece: every position
    /// that the piece covers holds a locked cell afterwards, and every other
    /// position of the board holds what it held before.
    pub proof fn lemma_locked_board(self, next: Block, angle: Angle)
        requires
            self.wf(),
        ensures
            self.locked(next, angle).wf(),
            forall|x: int, y: int|
                0 <= x < self.width && 0 <= y < self.height ==> #[trigger] self.locked(next, angle).board[y][x]
                    == if covers(self.active_cells(), x, y) {
                    Output::locked()
                } else {
                    self.board[y][x]
                },
    {
        let cells = self.active_cells();
        self.lemma_active_cells_on_grid();
        lemma_cells_apart(self.current.0, self.current.1);
        lemma_placed_rectangular(self.board, cells, self.width, self.height);
        assert forall|x: int, y: int| 0 <= x < self.width && 0 <= y < self.height implies #[trigger] self.locked(
            next,
            angle,
        ).board[y][x] == if covers(cells, x, y) {
            Output::locked()
        } else {
            self.board[y][x]
        } by {
            lemma_placed_cell(self.board, cells, x, y);
        }
    }

    /// Landing on free cells raises the number of occupied cells by four.
    pub proof fn lemma_locked_count(self, next: Block, angle: Angle)
        requires
            self.wf(),
            self.not_collide(self.active_cells()),
        ensures
            occupied_count(self.locked(next, angle).board) == occupied_count(self.board) + 4,
    {
        self.lemma_active_cells_on_grid();
        lemma_cells_apart(self.current.0, self.current.1);
        lemma_placed_count(self.board, self.active_cells());
    }

    /// A gravity tick that lands the piece on free cells raises the number of
    /// occupied cells by four, less the occupied cells of the rows that the
    /// landing has filled.
    pub proof fn lemma_landing_count(self, next: Block, angle: Angle)
        requires
            self.wf(),
            self.not_collide(self.active_cells()),
            self.applied(Command::Down) is Err,
        ensures
            occupied_count(self.ticked(next, angle).board) + cleared_count(
                self.locked(next, angle).board,
                self.width,
            ) == occupied_count(self.board) + 4,
    {
        self.lemma_locked_count(next, angle);
        lemma_resolved_count(self.locked(next, angle).board, self.width);
    }

    /// A gravity tick under which the piece sinks changes nothing but the
    /// row of the pivot, which grows by one.
    pub proof fn lemma_sinking_tick(self, next: Block, angle: Angle)
        requires
            self.settled(),
            self.applied(Command::Down) is Ok,
        ensures
            self.ticked(next, angle) == (TetrisView {
                current: (self.current.0, self.current.1.moved(Command::Down)),
                ..self
            }),
    {
    }
}

impl Tetris {
    /// Well-formedness of the state; see [`TetrisView::wf`].
    pub open spec fn wf(&self) -> bool {
        self@.wf()
    }

    /// A new game on a blank board of the given size.  The falling piece,
    /// its orientation, the piece to come and the piece in reserve are drawn
    /// at random; the falling piece stands at the spawn position.
    pub fn new(width: usize, height: usize) -> (game: Tetris)
        requires
            6 <= width,
            6 <= height,
            width * height <= usize::MAX,
        ensures
            game.wf(),
            game@.settled(),
            game@ == TetrisView::initial(
                width as nat,
                height as nat,
                game@.current.0,
                game@.current.1.angle,
                game@.next,
                game@.reserve,
            ),
    {
        let next = Block::new();
        let reserve = Block::new();
        let current = Block::new();
        let position = Position::create_at(width / 2, 3);
        Tetris::with_pieces(width, height, current, position.angle, next, reserve)
    }

    /// A game on a blank board of the given size with the given pieces: the
    /// falling piece stands at the spawn position in the given orientation.
    pub fn with_pieces(
        width: usize,
        height: usize,
        current: Block,
        angle: Angle,
        next: Block,
        reserve: Block,
    ) -> (game: Tetris)
        requires
            6 <= width,
            6 <= height,
            width * height <= usize::MAX,
        ensures
            game.wf(),
            game@.settled(),
            game@ == TetrisView::initial(width as nat, height as nat, current, angle, next, reserve),
    {
        let position = Position { x: width / 2, y: 3, angle };
        let user_status = User::new();
        let board = blank_board(width, height);
        proof {
            lemma_blank_grid_resolved(width as nat, height as nat);
        }
        Tetris { width, height, next, reserve, current: (current, position), board, user_status }
    }

    /// Whether every cell of `location` keeps the required distance from the
    /// walls and the floor.
    pub fn in_range(&self, location: &[(usize, usize, Output)]) -> (ok: bool)
        ensures
            ok == self@.in_range(location@),
    {
        let mut i: usize = 0;
        while i < location.len()
            invariant
                i <= location.len(),
                forall|k: int| 0 <= k < i ==> cell_in_range(self@.width, self@.height, #[trigger] location@[k]),
            decreases location.len() - i,
        {
            let (x, y, _) = location[i];
            let inside = x > 2 && x <= usize::MAX - 2 && self.width > x + 2 && y <= usize::MAX - 2
                && self.height > y + 2;
            if !inside {
                return false;
            }
            i += 1;
        }
        true
    }

    /// Whether none of the cells of `location` is occupied on the board.
    pub fn not_collide(&self, location: &[(usize, usize, Output)]) -> (ok: bool)
        ensures
            ok == self@.not_collide(location@),
    {
        let mut i: usize = 0;
        while i < location.len()
            invariant
                i <= location.len(),
                forall|k: int|
                    0 <= k < i ==> !occupied_at(
                        self@.board,
                        (#[trigger] location@[k]).0 as int,
                        location@[k].1 as int,
                    ),
            decreases location.len() - i,
        {
            let (x, y, _) = location[i];
            if self.does_collide(x, y) {
                return false;
            }
            i += 1;
        }
        true
    }

    /// Whether column `x` of row `y` lies on the board and is occupied.
    pub fn does_collide(&self, x: usize, y: usize) -> (hit: bool)
        ensures
            hit == occupied_at(self@.board, x as int, y as int),
    {
        y < self.board.len() && x < self.board[y].len() && self.board[y][x].not_default()
    }

    /// Applies a command to the state.  `Ok` carries the state after an
    /// accepted command, `Err` hands the state back after a rejected one.
    pub fn apply(self, command: Command) -> (outcome: Result<Tetris, Tetris>)
        requires
            self.wf(),
            command != Command::Quit,
        ensures
            outcome matches Ok(game) ==> game.wf() && self@.applied(command) == Ok::<
                TetrisView,
                TetrisView,
            >(game@),
            outcome matches Err(game) ==> game == self && self@.applied(command) == Err::<
                TetrisView,
                TetrisView,
            >(self@),
    {
        let mut game = self;
        match command {
            Command::Immd => Ok(game.immediatly()),
            Command::Rotate => {
                let (block, position) = game.current;
                let position = position.rotate();
                proof {
                    lemma_fits_near_pivot(block, position);
                }
                let result = block.get_location_by(&position);
                if game.in_range(result.as_slice()) && game.not_collide(result.as_slice()) {
                    proof {
                        game@.lemma_legal_pivot(position);
                    }
                    game.current = (block, position);
                    Ok(game)
                } else {
                    Err(game)
                }
            },
            Command::MoveRight | Command::MoveLeft | Command::Down => {
                if game.is_valid_after(&command) {
                    let (block, position) = game.current;
                    let position = position.move_by(&command);
                    proof {
                        game@.lemma_legal_pivot(position);
                    }
                    game.current = (block, position);
                    Ok(game)
                } else {
                    Err(game)
                }
            },
            Command::Reserve => {
                let (current, position) = game.current;
                game.current = (game.reserve, position);
                game.reserve = current;
                Ok(game)
            },
            _ => Ok(game),
        }
    }

    /// The hard drop.  It is not part of the game yet: the state comes back
    /// as it was.
    pub fn immediatly(self) -> (game: Tetris)
        ensures
            game == self,
    {
        self
    }

    /// Whether the falling piece may make the given one-cell move.
    pub fn is_valid_after(&self, command: &Command) -> (ok: bool)
        requires
            self.wf(),
            command.is_move(),
        ensures
            ok == self@.legal(self@.current.1.moved(*command)),
    {
        let position = self.current.1.move_by(command);
        proof {
            lemma_fits_near_pivot(self.current.0, position);
        }
        let positions = self.current.0.get_location_by(&position);
        self.in_range(positions.as_slice()) && self.not_collide(positions.as_slice())
    }

    /// Writes the cells of `location` into the board, one after the other.
    pub fn add(board: Vec<Vec<Output>>, location: &[(usize, usize, Output)]) -> (after: Vec<Vec<Output>>)
        requires
            forall|i: int| 0 <= i < location@.len() ==> on_grid(grid_of(board@), #[trigger] location@[i]),
        ensures
            grid_of(after@) == placed(grid_of(board@), location@),
    {
        let ghost start = grid_of(board@);
        let mut board = board;
        let mut i: usize = 0;
        while i < location.len()
            invariant
                i <= location.len(),
                grid_of(board@).len() == start.len(),
                forall|r: int| 0 <= r < start.len() ==> (#[trigger] grid_of(board@)[r]).len() == start[r].len(),
                forall|k: int| 0 <= k < location@.len() ==> on_grid(start, #[trigger] location@[k]),
                grid_of(board@) == placed(start, location@.take(i as int)),
            decreases location.len() - i,
        {
            let (x, y, output) = location[i];
            assert(on_grid(start, location@[i as int]));
            let ghost before = grid_of(board@);
            assert(before[y as int].len() == start[y as int].len());
            board[y][x] = output;
            proof {
                assert(grid_of(board@) =~~= put(before, location@[i as int]));
                assert(location@.take(i + 1).drop_last() =~= location@.take(i as int));
            }
            i += 1;
        }
        assert(location@.take(location@.len() as int) =~= location@);
        board
    }

    /// Tests one row of the board: `None` for a full row, which is to be
    /// cleared, and a copy of the row otherwise.
    pub fn line_resolve(line: &[Output], width: usize) -> (kept: Option<Vec<Output>>)
        ensures
            kept is None <==> row_full(line@, width as int),
            kept matches Some(row) ==> row@ == line@,
    {
        let mut c: usize = 3;
        while c < line.len() && width >= 3 && c < width - 3
            invariant
                3 <= c,
                forall|k: int| 3 <= k < c && k < width - 3 && k < line@.len() ==> (#[trigger] line@[k]).occupied(),
            decreases line.len() - c,
        {
            if !line[c].not_default() {
                return Some(slice_to_vec(line));
            }
            c += 1;
        }
        None
    }

    /// Runs a resolution pass: clears the full rows, lets the others sink and
    /// fills the top with blank rows.
    pub fn resolve(self) -> (game: Tetris)
        requires
            self.wf(),
        ensures
            game.wf(),
            game@.settled(),
            game@ == self@.resolved(),
    {
        let ghost grid = grid_of(self.board@);
        let ghost keep = survives(self.width as int);
        let mut board: Vec<Vec<Output>> = Vec::new();
        let mut i: usize = 0;
        while i < self.board.len()
            invariant
                i <= self.board@.len(),
                grid == grid_of(self.board@),
                keep == survives(self.width as int),
                grid_of(board@) == grid.take(i as int).filter(keep),
            decreases self.board.len() - i,
        {
            let kept = Tetris::line_resolve(self.board[i].as_slice(), self.width);
            proof {
                assert(grid.take(i + 1) =~= grid.take(i as int).push(grid[i as int]));
                grid.take(i as int).lemma_filter_push(grid[i as int], keep);
            }
            let ghost before = grid_of(board@);
            match kept {
                Some(line) => {
                    board.push(line);
                    assert(grid_of(board@) =~= before.push(grid[i as int]));
                },
                None => {},
            }
            i += 1;
        }
        proof {
            assert(grid.take(grid.len() as int) =~= grid);
            grid.lemma_filter_len(keep);
        }
        let ghost kept = grid_of(board@);
        let mut padding = blank_board(self.width, self.height - board.len());
        let ghost blanks = grid_of(padding@);
        let board = if padding.len() > 0 {
            padding.append(&mut board);
            assert(grid_of(padding@) =~= blanks + kept);
            padding
        } else {
            assert(kept =~= blanks + kept);
            board
        };
        assert(grid_of(board@) == resolved(grid, self.width as nat));
        proof {
            lemma_resolved_rectangular(grid, self.width as nat, self.height as nat);
            lemma_resolved_idempotent(grid, self.width as nat);
        }
        Tetris { board, ..self }
    }

    /// Lands the falling piece with the given draws: its cells are written
    /// into the board, the piece that was next enters at the spawn position
    /// in the orientation `angle`, and `next` becomes the piece to come.
    pub fn next_block_with(self, next: Block, angle: Angle) -> (game: Tetris)
        requires
            self.wf(),
        ensures
            game.wf(),
            game@ == self@.locked(next, angle),
    {
        let position = Position { x: self.width / 2, y: 3, angle };
        let block = self.next;
        proof {
            lemma_fits_near_pivot(self.current.0, self.current.1);
            self@.lemma_active_cells_on_grid();
            lemma_placed_rectangular(self@.board, self@.active_cells(), self@.width, self@.height);
        }
        let cells = self.current.0.get_location_by(&self.current.1);
        let board = Tetris::add(self.board, cells.as_slice());
        Tetris { current: (block, position), next, board, ..self }
    }

    /// Lands the falling piece and draws at random the orientation of the
    /// entering piece and the kind of the piece to come.
    pub fn next_block(self) -> (game: Tetris)
        requires
            self.wf(),
        ensures
            game.wf(),
            game@ == self@.locked(game@.next, game@.current.1.angle),
    {
        let position = Position::create_at(self.width / 2, 3);
        let next = Block::new();
        self.next_block_with(next, position.angle)
    }

    /// Handles one command of the player and runs a resolution pass.  A
    /// command that is not accepted leaves piece and pieces in store as they
    /// were.
    pub fn update(self, command: Command) -> (game: Tetris)
        requires
            self.wf(),
            command != Command::Quit,
        ensures
            game.wf(),
            game@.settled(),
            game@ == self@.updated(command),
    {
        match self.apply(command) {
            Ok(game) => game.resolve(),
            Err(game) => game.resolve(),
        }
    }

    /// One gravity tick with the given draws: the falling piece sinks by one
    /// row if it may, and lands otherwise; a resolution pass follows.
    pub fn interval_update_with(self, next: Block, angle: Angle) -> (game: Tetris)
        requires
            self.wf(),
        ensures
            game.wf(),
            game@.settled(),
            game@ == self@.ticked(next, angle),
    {
        match self.apply(Command::Down) {
            Ok(game) => game.resolve(),
            Err(game) => game.next_block_with(next, angle).resolve(),
        }
    }

    /// One gravity tick: the falling piece sinks by one row if it may;
    /// otherwise it lands, and the orientation of the entering piece and the
    /// kind of the piece to come are drawn at random.  A resolution pass
    /// follows.
    pub fn interval_update(self) -> (game: Tetris)
        requires
            self.wf(),
        ensures
            game.wf(),
            game@.settled(),
            game@ == self@.ticked(game@.next, game@.current.1.angle),
    {
        match self.apply(Command::Down) {
            Ok(game) => game.resolve(),
            Err(game) => game.next_block().resolve(),
        }
    }

    /// The number of columns of the board.
    pub fn width(&self) -> (width: usize)
        ensures
            width == self@.width,
    {
        self.width
    }

    /// The number of rows of the board.
    pub fn height(&self) -> (height: usize)
        ensures
            height == self@.height,
    {
        self.height
    }

    /// The kind of the piece that enters when the falling one has landed.
    pub fn next(&self) -> (kind: Block)
        ensures
            kind == self@.next,
    {
        self.next
    }

    /// The kind of the piece held in reserve.
    pub fn reserve(&self) -> (kind: Block)
        ensures
            kind == self@.reserve,
    {
        self.reserve
    }

    /// The falling piece: its kind and where it stands.
    pub fn current(&self) -> (piece: (Block, Position))
        ensures
            piece == self@.current,
    {
        self.current
    }

    /// The score of the player.
    pub fn score(&self) -> (score: usize)
        ensures
            score == self@.score,
    {
        self.user_status.score
    }

    /// A copy of the board of locked cells, without the falling piece.
    pub fn board(&self) -> (rows: Vec<Vec<Output>>)
        ensures
            grid_of(rows@) == self@.board,
    {
        let rows = self.board.clone();
        assert(grid_of(rows@) =~~= grid_of(self.board@));
        rows
    }

    /// The grid to show: the board with the cells of the falling piece drawn
    /// over it.
    pub fn snapshot(&self) -> (rows: Vec<Vec<Output>>)
        requires
            self.wf(),
        ensures
            grid_of(rows@) == self@.snapshot(),
    {
        proof {
            self@.lemma_active_cells_on_grid();
        }
        let cells = self.current.0.get_location_by(&self.current.1);
        let mut shown: Vec<(usize, usize, Output)> = Vec::new();
        let mut i: usize = 0;
        while i < cells.len()
            invariant
                i <= cells@.len(),
                cells@ == self@.active_cells(),
                shown@ == self@.shown_cells().take(i as int),
            decreases cells.len() - i,
        {
            let (x, y, _) = cells[i];
            shown.push((x, y, Output::with_shape('#', 'b')));
            assert(shown@ =~= self@.shown_cells().take(i + 1));
            i += 1;
        }
        assert(shown@ =~= self@.shown_cells());
        Tetris::add(self.board(), shown.as_slice())
    }

    /// The number of occupied cells on the board.
    pub fn occupied_cells(&self) -> (count: usize)
        requires
            self.wf(),
        ensures
            count == occupied_count(self@.board),
    {
        let ghost grid = grid_of(self.board@);
        let mut count: usize = 0;
        let mut r: usize = 0;
        proof {
            assert(grid.take(0) =~= Seq::<Seq<Output>>::empty());
            lemma_blank_grid_count(0, 0);
            assert(blank_grid(0, 0) =~= Seq::<Seq<Output>>::empty());
        }
        while r < self.board.len()
            invariant
                self.wf(),
                grid == grid_of(self.board@),
                r <= grid.len(),
                count == occupied_count(grid.take(r as int)),
                count <= r * self.width,
            decreases self.board.len() - r,
        {
            let ghost above = count;
            let ghost row = grid[r as int];
            let mut c: usize = 0;
            proof {
                assert(row.take(0) =~= Seq::<Output>::empty());
                lemma_row_count_bound(row.take(0));
            }
            while c < self.board[r as usize].len()
                invariant
                    self.wf(),
                    grid == grid_of(self.board@),
                    r < grid.len(),
                    row == grid[r as int],
                    row.len() == self.width,
                    c <= row.len(),
                    above <= r * self.width,
                    count == above + occupied_in_row(row.take(c as int)),
                    count <= above + c,
                decreases self.board[r as int].len() - c,
            {
                proof {
                    assert(row.take(c + 1) =~= row.take(c as int).push(row[c as int]));
                    row.take(c as int).lemma_filter_push(row[c as int], is_occupied());
                    assert(r * self.width + self.width <= self.width * self.height) by (nonlinear_arith)
                        requires
                            r + 1 <= self.height,
                    ;
                    assert(self@.width * self@.height <= usize::MAX);
                }
                if self.board[r][c].not_default() {
                    count += 1;
                }
                c += 1;
            }
            proof {
                assert(row.take(row.len() as int) =~= row);
                assert(grid.take(r + 1) =~= grid.take(r as int).push(row));
                lemma_count_push(grid.take(r as int), row);
                assert((r + 1) * self.width == r * self.width + self.width) by (nonlinear_arith);
            }
            r += 1;
        }
        assert(grid.take(grid.len() as int) =~= grid);
        count
    }
}

} // verus!
