//! Cells and the grid they form: occupancy, placement, full rows.

use vstd::prelude::*;
use vstd::seq_lib::lemma_flatten_concat;

verus! {

/// One cell of the grid: a glyph and a colour tag.  A cell is blank when both
/// are a space, and occupied otherwise.
#[derive(Debug, Clone, Copy, PartialEq, Eq, Structural)]
pub struct Output {
    pub shape: char,
    pub color: char,
}

impl Output {
    /// The blank cell.
    pub open spec fn blank() -> Output {
        Output { shape: ' ', color: ' ' }
    }

    /// The cell that a locked piece leaves behind.
    pub open spec fn locked() -> Output {
        Output { shape: 'O', color: 'b' }
    }

    /// The cell that shows the falling piece in a snapshot.
    pub open spec fn falling() -> Output {
        Output { shape: '#', color: 'b' }
    }

    /// Whether the cell is occupied.
    pub open spec fn occupied(self) -> bool {
        self.shape != ' ' || self.color != ' '
    }

    /// A blank cell.
    pub fn new() -> (cell: Output)
        ensures
            cell == Output::blank(),
            !cell.occupied(),
    {
        Output { shape: ' ', color: ' ' }
    }

    /// A cell with the given glyph and colour tag.
    pub fn with_shape(shape: char, color: char) -> (cell: Output)
        ensures
            cell == (Output { shape, color }),
    {
        Output { shape, color }
    }

    /// Whether the cell is occupied, that is, differs from the blank cell.
    pub fn not_default(&self) -> (occupied: bool)
        ensures
            occupied == self.occupied(),
            occupied == (*self != Output::blank()),
    {
        self.shape != ' ' || self.color != ' '
    }
}

/// The mathematical model of a board: rows from top to bottom, each a
/// sequence of cells from left to right.
pub type Grid = Seq<Seq<Output>>;

/// The model of a board held as a vector of rows.
pub open spec fn grid_of(rows: Seq<Vec<Output>>) -> Grid {
    Seq::new(rows.len(), |r: int| rows[r]@)
}

/// Whether the grid has `height` rows of `width` cells each.
pub open spec fn rectangular(grid: Grid, width: nat, height: nat) -> bool {
    &&& grid.len() == height
    &&& forall|r: int| 0 <= r < grid.len() ==> (#[trigger] grid[r]).len() == width
}

/// A row of `width` blank cells.
pub open spec fn blank_row(width: nat) -> Seq<Output> {
    Seq::new(width, |c: int| Output::blank())
}

/// A grid of `height` blank rows.
pub open spec fn blank_grid(width: nat, height: nat) -> Grid {
    Seq::new(height, |r: int| blank_row(width))
}

/// A board of `height` blank rows of `width` cells each.
pub fn blank_board(width: usize, height: usize) -> (board: Vec<Vec<Output>>)
    ensures
        grid_of(board@) == blank_grid(width as nat, height as nat),
{
    let board = vec![vec![Output::new(); width]; height];
    assert(grid_of(board@) =~~= blank_grid(width as nat, height as nat));
    board
}

/// Whether column `x` of row `y` lies on the grid and holds an occupied cell.
pub open spec fn occupied_at(grid: Grid, x: int, y: int) -> bool {
    &&& 0 <= y < grid.len()
    &&& 0 <= x < grid[y].len()
    &&& grid[y][x].occupied()
}

/// Whether the cell lies on the grid.
pub open spec fn on_grid(grid: Grid, cell: (usize, usize, Output)) -> bool {
    cell.1 < grid.len() && cell.0 < grid[cell.1 as int].len()
}

/// Whether one of the cells stands at column `x` of row `y`.
pub open spec fn covers(cells: Seq<(usize, usize, Output)>, x: int, y: int) -> bool {
    exists|i: int| 0 <= i < cells.len() && (#[trigger] cells[i]).0 == x && cells[i].1 == y
}

/// The grid with one cell overwritten.  A cell off the grid changes nothing.
pub open spec fn put(grid: Grid, cell: (usize, usize, Output)) -> Grid {
    if on_grid(grid, cell) {
        grid.update(cell.1 as int, grid[cell.1 as int].update(cell.0 as int, cell.2))
    } else {
        grid
    }
}

/// The grid with the cells written into it one after the other.
pub open spec fn placed(grid: Grid, cells: Seq<(usize, usize, Output)>) -> Grid
    decreases cells.len(),
{
    if cells.len() == 0 {
        grid
    } else {
        put(placed(grid, cells.drop_last()), cells.last())
    }
}

/// Whether a row is full: every cell of the scoring band, the columns from
/// 3 up to `width - 3`, is occupied.  An empty band makes every row full.
pub open spec fn row_full(row: Seq<Output>, width: int) -> bool {
    forall|c: int| 3 <= c < width - 3 && c < row.len() ==> (#[trigger] row[c]).occupied()
}

/// The test that the rows surviving a resolution pass meet: not full.
pub open spec fn survives(width: int) -> spec_fn(Seq<Output>) -> bool {
    |row: Seq<Output>| !row_full(row, width)
}

/// The grid after a resolution pass: the full rows are gone, the others keep
/// their order and sink to the bottom, and blank rows of `width` cells fill
/// the top so that the number of rows stays.
pub open spec fn resolved(grid: Grid, width: nat) -> Grid {
    let kept = grid.filter(survives(width as int));
    blank_grid(width, (grid.len() - kept.len()) as nat) + kept
}

/// The test that counts a cell as occupied.
pub open spec fn is_occupied() -> spec_fn(Output) -> bool {
    |cell: Output| cell.occupied()
}

/// The number of occupied cells in a row.
pub open spec fn occupied_in_row(row: Seq<Output>) -> nat {
    row.filter(is_occupied()).len()
}

/// The number of occupied cells on the grid.
pub open spec fn occupied_count(grid: Grid) -> nat {
    grid.flatten().filter(is_occupied()).len()
}

/// The number of occupied cells that a resolution pass removes: those of the
/// full rows.
pub open spec fn cleared_count(grid: Grid, width: nat) -> nat {
    occupied_count(grid.filter(|row: Seq<Output>| row_full(row, width as int)))
}

/// Filtering keeps a sequence whole when every element meets the test.
proof fn lemma_filter_keeps_all<A>(s: Seq<A>, pred: spec_fn(A) -> bool)
    requires
        forall|i: int| 0 <= i < s.len() ==> pred(#[trigger] s[i]),
    ensures
        s.filter(pred) == s,
    decreases s.len(),
{
    reveal(Seq::filter);
    if s.len() > 0 {
        lemma_filter_keeps_all(s.drop_last(), pred);
        assert(s.drop_last().push(s.last()) =~= s);
    }
}

/// Filtering leaves nothing when no element meets the test.
proof fn lemma_filter_drops_all<A>(s: Seq<A>, pred: spec_fn(A) -> bool)
    requires
        forall|i: int| 0 <= i < s.len() ==> !pred(#[trigger] s[i]),
    ensures
        s.filter(pred) == Seq::<A>::empty(),
    decreases s.len(),
{
    reveal(Seq::filter);
    if s.len() > 0 {
        lemma_filter_drops_all(s.drop_last(), pred);
    }
}

/// Every element of a filtered sequence meets the test and occurs in the
/// sequence that was filtered.
proof fn lemma_filter_members<A>(s: Seq<A>, pred: spec_fn(A) -> bool)
    ensures
        s.filter(pred).len() <= s.len(),
        forall|i: int|
            0 <= i < s.filter(pred).len() ==> pred(#[trigger] s.filter(pred)[i]) && s.contains(
                s.filter(pred)[i],
            ),
    decreases s.len(),
{
    reveal(Seq::filter);
    if s.len() > 0 {
        let front = s.drop_last();
        lemma_filter_members(front, pred);
        assert forall|i: int| 0 <= i < s.filter(pred).len() implies pred(#[trigger] s.filter(pred)[i])
            && s.contains(s.filter(pred)[i]) by {
            if i < front.filter(pred).len() {
                let k = choose|k: int| 0 <= k < front.len() && front[k] == front.filter(pred)[i];
                assert(s[k] == s.filter(pred)[i]);
            } else {
                assert(s[s.len() - 1] == s.filter(pred)[i]);
            }
        }
    }
}

/// A resolution pass keeps the number of rows.
pub proof fn lemma_resolved_height(grid: Grid, width: nat)
    ensures
        resolved(grid, width).len() == grid.len(),
{
    lemma_filter_members(grid, survives(width as int));
}

/// A resolution pass keeps the shape of the board: as many rows as before,
/// each as wide as before.
pub proof fn lemma_resolved_rectangular(grid: Grid, width: nat, height: nat)
    requires
        rectangular(grid, width, height),
    ensures
        rectangular(resolved(grid, width), width, height),
{
    let kept = grid.filter(survives(width as int));
    lemma_filter_members(grid, survives(width as int));
    let after = resolved(grid, width);
    assert forall|r: int| 0 <= r < after.len() implies (#[trigger] after[r]).len() == width by {
        let blanks = grid.len() - kept.len();
        if r >= blanks {
            assert(after[r] == kept[r - blanks]);
            assert(grid.contains(kept[r - blanks]));
        }
    }
}

/// After a resolution pass no row that came from the board is full, and
/// every row above those is blank.
pub proof fn lemma_resolved_rows(grid: Grid, width: nat)
    ensures
        resolved(grid, width).len() == grid.len(),
        forall|r: int|
            0 <= r < grid.len() - grid.filter(survives(width as int)).len() ==> #[trigger] resolved(
                grid,
                width,
            )[r] == blank_row(width),
        forall|r: int|
            grid.len() - grid.filter(survives(width as int)).len() <= r < grid.len() ==> !row_full(
                #[trigger] resolved(grid, width)[r],
                width as int,
            ) && grid.contains(resolved(grid, width)[r]),
{
    let kept = grid.filter(survives(width as int));
    lemma_filter_members(grid, survives(width as int));
    let after = resolved(grid, width);
    let blanks = grid.len() - kept.len();
    assert forall|r: int| blanks <= r < grid.len() implies !row_full(#[trigger] after[r], width as int)
        && grid.contains(after[r]) by {
        assert(after[r] == kept[r - blanks]);
        assert(survives(width as int)(kept[r - blanks]));
    }
}

/// Resolving a board without a full row changes nothing.
pub proof fn lemma_resolved_without_full_row(grid: Grid, width: nat)
    requires
        forall|r: int| 0 <= r < grid.len() ==> !row_full(#[trigger] grid[r], width as int),
    ensures
        resolved(grid, width) == grid,
{
    assert forall|r: int| 0 <= r < grid.len() implies survives(width as int)(#[trigger] grid[r]) by {}
    lemma_filter_keeps_all(grid, survives(width as int));
    assert(resolved(grid, width) =~= grid);
}

/// A second resolution pass changes nothing.
pub proof fn lemma_resolved_idempotent(grid: Grid, width: nat)
    ensures
        resolved(resolved(grid, width), width) == resolved(grid, width),
{
    let keep = survives(width as int);
    let kept = grid.filter(keep);
    lemma_filter_members(grid, keep);
    let blanks = blank_grid(width, (grid.len() - kept.len()) as nat);
    let once = resolved(grid, width);
    assert(once == blanks + kept);
    Seq::filter_distributes_over_add(blanks, kept, keep);
    lemma_filter_keeps_all(kept, keep);
    if row_full(blank_row(width), width as int) {
        assert forall|r: int| 0 <= r < blanks.len() implies !keep(#[trigger] blanks[r]) by {}
        lemma_filter_drops_all(blanks, keep);
        assert(once.filter(keep) =~= kept);
        assert(resolved(once, width) =~= once);
    } else {
        assert forall|r: int| 0 <= r < blanks.len() implies keep(#[trigger] blanks[r]) by {}
        lemma_filter_keeps_all(blanks, keep);
        assert(once.filter(keep) =~= once);
        assert(resolved(once, width) =~= once);
    }
}

/// A resolution pass leaves a blank board blank.
pub proof fn lemma_blank_grid_resolved(width: nat, height: nat)
    ensures
        resolved(blank_grid(width, height), width) == blank_grid(width, height),
{
    let grid = blank_grid(width, height);
    let keep = survives(width as int);
    if row_full(blank_row(width), width as int) {
        assert forall|r: int| 0 <= r < grid.len() implies !keep(#[trigger] grid[r]) by {}
        lemma_filter_drops_all(grid, keep);
    } else {
        assert forall|r: int| 0 <= r < grid.len() implies keep(#[trigger] grid[r]) by {}
        lemma_filter_keeps_all(grid, keep);
    }
    assert(resolved(grid, width) =~= grid);
}

/// Writing one cell keeps the shape of the board.
pub proof fn lemma_put_rectangular(grid: Grid, cell: (usize, usize, Output), width: nat, height: nat)
    requires
        rectangular(grid, width, height),
    ensures
        rectangular(put(grid, cell), width, height),
{
}

/// Writing cells keeps the shape of the board.
pub proof fn lemma_placed_rectangular(
    grid: Grid,
    cells: Seq<(usize, usize, Output)>,
    width: nat,
    height: nat,
)
    requires
        rectangular(grid, width, height),
    ensures
        rectangular(placed(grid, cells), width, height),
    decreases cells.len(),
{
    if cells.len() > 0 {
        lemma_placed_rectangular(grid, cells.drop_last(), width, height);
        lemma_put_rectangular(placed(grid, cells.drop_last()), cells.last(), width, height);
    }
}

/// No cell of a blank board is occupied.
pub proof fn lemma_blank_grid_unoccupied(width: nat, height: nat, x: int, y: int)
    ensures
        !occupied_at(blank_grid(width, height), x, y),
{
}

/// Writing cells keeps the number of rows and the length of each row.
pub proof fn lemma_placed_shape(grid: Grid, cells: Seq<(usize, usize, Output)>)
    ensures
        placed(grid, cells).len() == grid.len(),
        forall|r: int| 0 <= r < grid.len() ==> (#[trigger] placed(grid, cells)[r]).len() == grid[r].len(),
    decreases cells.len(),
{
    if cells.len() > 0 {
        lemma_placed_shape(grid, cells.drop_last());
    }
}

/// Writing cells changes the board at the positions of those cells and
/// nowhere else: a position that no cell covers keeps what it held, and a
/// covered position holds what one of the cells standing there carries.
pub proof fn lemma_placed_cell(grid: Grid, cells: Seq<(usize, usize, Output)>, x: int, y: int)
    requires
        0 <= y < grid.len(),
        0 <= x < grid[y].len(),
    ensures
        placed(grid, cells).len() == grid.len(),
        placed(grid, cells)[y].len() == grid[y].len(),
        !covers(cells, x, y) ==> placed(grid, cells)[y][x] == grid[y][x],
        covers(cells, x, y) ==> exists|i: int|
            0 <= i < cells.len() && (#[trigger] cells[i]).0 == x && cells[i].1 == y && placed(grid, cells)[y][x]
                == cells[i].2,
    decreases cells.len(),
{
    lemma_placed_shape(grid, cells);
    if cells.len() > 0 {
        let front = cells.drop_last();
        let last = cells.last();
        lemma_placed_cell(grid, front, x, y);
        lemma_placed_shape(grid, front);
        if last.0 == x && last.1 == y {
            assert(cells[cells.len() - 1] == last);
        } else if covers(cells, x, y) {
            let i = choose|i: int| 0 <= i < cells.len() && (#[trigger] cells[i]).0 == x && cells[i].1 == y;
            assert(front[i] == cells[i]);
            let k = choose|k: int|
                0 <= k < front.len() && (#[trigger] front[k]).0 == x && front[k].1 == y && placed(grid, front)[y][x]
                    == front[k].2;
            assert(cells[k] == front[k]);
        } else {
            assert forall|i: int| 0 <= i < front.len() implies !((#[trigger] front[i]).0 == x && front[i].1
                == y) by {
                assert(cells[i] == front[i]);
            }
        }
    }
}

/// One for an occupied cell, nothing for a blank one.
pub open spec fn weight(cell: Output) -> nat {
    if cell.occupied() {
        1
    } else {
        0
    }
}

/// Overwriting one cell of a row changes the count of the row by the
/// difference between what the new cell and the old cell weigh.
proof fn lemma_row_count_update(row: Seq<Output>, x: int, cell: Output)
    requires
        0 <= x < row.len(),
    ensures
        occupied_in_row(row.update(x, cell)) + weight(row[x]) == occupied_in_row(row) + weight(cell),
{
    let occ = is_occupied();
    let left = row.take(x);
    let right = row.skip(x + 1);
    assert(row =~= left.push(row[x]) + right);
    assert(row.update(x, cell) =~= left.push(cell) + right);
    Seq::filter_distributes_over_add(left.push(row[x]), right, occ);
    Seq::filter_distributes_over_add(left.push(cell), right, occ);
    left.lemma_filter_push(row[x], occ);
    left.lemma_filter_push(cell, occ);
}

/// The count of a board made of two parts is the sum of the counts of the
/// parts, and a board of one row counts what the row counts.
proof fn lemma_count_parts(upper: Grid, lower: Grid)
    ensures
        occupied_count(upper + lower) == occupied_count(upper) + occupied_count(lower),
{
    lemma_flatten_concat(upper, lower);
    Seq::filter_distributes_over_add(upper.flatten(), lower.flatten(), is_occupied());
}

/// A row at the bottom adds its own count to that of the board.
pub proof fn lemma_count_push(grid: Grid, row: Seq<Output>)
    ensures
        occupied_count(grid.push(row)) == occupied_count(grid) + occupied_in_row(row),
{
    grid.lemma_flatten_push(row);
    Seq::filter_distributes_over_add(grid.flatten(), row, is_occupied());
}

/// Replacing one row changes the count of the board by the difference
/// between the counts of the new row and the old row.
proof fn lemma_count_update(grid: Grid, y: int, row: Seq<Output>)
    requires
        0 <= y < grid.len(),
    ensures
        occupied_count(grid.update(y, row)) + occupied_in_row(grid[y]) == occupied_count(grid)
            + occupied_in_row(row),
{
    let upper = grid.take(y);
    let lower = grid.skip(y + 1);
    assert(grid =~= upper.push(grid[y]) + lower);
    assert(grid.update(y, row) =~= upper.push(row) + lower);
    lemma_count_parts(upper.push(grid[y]), lower);
    lemma_count_parts(upper.push(row), lower);
    lemma_count_push(upper, grid[y]);
    lemma_count_push(upper, row);
}

/// Writing one cell changes the count of the board by the difference
/// between what the new cell and the old cell weigh.
pub proof fn lemma_put_count(grid: Grid, cell: (usize, usize, Output))
    requires
        on_grid(grid, cell),
    ensures
        occupied_count(put(grid, cell)) + weight(grid[cell.1 as int][cell.0 as int]) == occupied_count(grid)
            + weight(cell.2),
{
    let x = cell.0 as int;
    let y = cell.1 as int;
    lemma_row_count_update(grid[y], x, cell.2);
    lemma_count_update(grid, y, grid[y].update(x, cell.2));
}

/// Whether no two of the cells stand at the same position.
pub open spec fn apart(cells: Seq<(usize, usize, Output)>) -> bool {
    forall|i: int, j: int|
        0 <= i < j < cells.len() ==> (#[trigger] cells[i]).0 != (#[trigger] cells[j]).0 || cells[i].1
            != cells[j].1
}

/// Writing occupied cells at distinct free positions of the board raises the
/// count of occupied cells by the number of cells written.
pub proof fn lemma_placed_count(grid: Grid, cells: Seq<(usize, usize, Output)>)
    requires
        apart(cells),
        forall|i: int| 0 <= i < cells.len() ==> on_grid(grid, #[trigger] cells[i]),
        forall|i: int| 0 <= i < cells.len() ==> !occupied_at(grid, (#[trigger] cells[i]).0 as int, cells[i].1 as int),
        forall|i: int| 0 <= i < cells.len() ==> (#[trigger] cells[i]).2.occupied(),
    ensures
        occupied_count(placed(grid, cells)) == occupied_count(grid) + cells.len(),
    decreases cells.len(),
{
    if cells.len() > 0 {
        let front = cells.drop_last();
        let last = cells.last();
        assert forall|i: int| 0 <= i < front.len() implies on_grid(grid, #[trigger] front[i]) && !occupied_at(
            grid,
            front[i].0 as int,
            front[i].1 as int,
        ) && front[i].2.occupied() by {
            assert(front[i] == cells[i]);
        }
        assert(apart(front)) by {
            assert forall|i: int, j: int| 0 <= i < j < front.len() implies (#[trigger] front[i]).0 != (
            #[trigger] front[j]).0 || front[i].1 != front[j].1 by {
                assert(front[i] == cells[i] && front[j] == cells[j]);
            }
        }
        lemma_placed_count(grid, front);
        let before = placed(grid, front);
        assert(on_grid(grid, cells[cells.len() - 1]));
        assert(!covers(front, last.0 as int, last.1 as int)) by {
            if covers(front, last.0 as int, last.1 as int) {
                let i = choose|i: int|
                    0 <= i < front.len() && (#[trigger] front[i]).0 == last.0 as int && front[i].1
                        == last.1 as int;
                assert(front[i] == cells[i]);
                assert(cells[cells.len() - 1] == last);
            }
        }
        lemma_placed_cell(grid, front, last.0 as int, last.1 as int);
        lemma_put_count(before, last);
    }
}

/// A blank board holds no occupied cell.
pub proof fn lemma_blank_grid_count(width: nat, height: nat)
    ensures
        occupied_count(blank_grid(width, height)) == 0,
    decreases height,
{
    if height == 0 {
        assert(blank_grid(width, height) =~= Seq::<Seq<Output>>::empty());
        assert(occupied_count(Seq::<Seq<Output>>::empty()) == 0) by {
            reveal(Seq::filter);
        }
    } else {
        let above = blank_grid(width, (height - 1) as nat);
        lemma_blank_grid_count(width, (height - 1) as nat);
        assert(blank_grid(width, height) =~= above.push(blank_row(width)));
        lemma_count_push(above, blank_row(width));
        lemma_filter_drops_all(blank_row(width), is_occupied());
    }
}

/// The rows that meet a test and the rows that fail it share the occupied
/// cells of the board between them.
proof fn lemma_count_split(grid: Grid, pass: spec_fn(Seq<Output>) -> bool, fail: spec_fn(Seq<Output>) -> bool)
    requires
        forall|row: Seq<Output>| #[trigger] fail(row) == !pass(row),
    ensures
        occupied_count(grid.filter(pass)) + occupied_count(grid.filter(fail)) == occupied_count(grid),
    decreases grid.len(),
{
    if grid.len() == 0 {
        assert(grid.filter(pass) =~= grid && grid.filter(fail) =~= grid) by {
            reveal(Seq::filter);
        }
        assert(occupied_count(grid) == 0) by {
            assert(grid.flatten() =~= Seq::<Output>::empty());
            reveal(Seq::filter);
        }
    } else {
        let front = grid.drop_last();
        let last = grid.last();
        lemma_count_split(front, pass, fail);
        assert(grid =~= front.push(last));
        front.lemma_filter_push(last, pass);
        front.lemma_filter_push(last, fail);
        lemma_count_push(front, last);
        lemma_count_push(front.filter(pass), last);
        lemma_count_push(front.filter(fail), last);
        assert(fail(last) == !pass(last));
    }
}

/// A resolution pass lowers the count of occupied cells by exactly the
/// occupied cells of the full rows.
pub proof fn lemma_resolved_count(grid: Grid, width: nat)
    ensures
        occupied_count(resolved(grid, width)) + cleared_count(grid, width) == occupied_count(grid),
{
    let keep = survives(width as int);
    let full = |row: Seq<Output>| row_full(row, width as int);
    let kept = grid.filter(keep);
    lemma_filter_members(grid, keep);
    lemma_count_split(grid, keep, full);
    lemma_blank_grid_count(width, (grid.len() - kept.len()) as nat);
    lemma_count_parts(blank_grid(width, (grid.len() - kept.len()) as nat), kept);
}

/// A row holds no more occupied cells than it has cells.
pub proof fn lemma_row_count_bound(row: Seq<Output>)
    ensures
        occupied_in_row(row) <= row.len(),
{
    row.lemma_filter_len(is_occupied());
}

} // verus!
