use tetris::{Angle, Block, Command, Output, Position, Tetris};

const BLANK: Output = Output { shape: ' ', color: ' ' };
const LOCKED: Output = Output { shape: 'O', color: 'b' };
const FALLING: Output = Output { shape: '#', color: 'b' };

fn blank_rows(width: usize, height: usize) -> Vec<Vec<Output>> {
    vec![vec![BLANK; width]; height]
}

fn with_locked(mut rows: Vec<Vec<Output>>, cells: &[(usize, usize)]) -> Vec<Vec<Output>> {
    for &(x, y) in cells {
        rows[y][x] = LOCKED;
    }
    rows
}

fn tick(mut game: Tetris, times: usize, next: Block, angle: Angle) -> Tetris {
    for _ in 0..times {
        game = game.interval_update_with(next, angle);
    }
    game
}

fn square_on_the_floor() -> Tetris {
    let game = Tetris::with_pieces(10, 20, Block::O, Angle::Up, Block::I, Block::T);
    tick(game, 15, Block::I, Angle::Up)
}

#[test]
fn a_game_starts_on_a_blank_board() {
    let game = Tetris::with_pieces(10, 20, Block::O, Angle::Up, Block::I, Block::T);
    assert_eq!(game.width(), 10);
    assert_eq!(game.height(), 20);
    assert_eq!(game.current(), (Block::O, Position { x: 5, y: 3, angle: Angle::Up }));
    assert_eq!(game.next(), Block::I);
    assert_eq!(game.reserve(), Block::T);
    assert_eq!(game.score(), 0);
    assert_eq!(game.board(), blank_rows(10, 20));
    assert_eq!(game.occupied_cells(), 0);
}

#[test]
fn a_random_game_starts_at_the_spawn_position() {
    for _ in 0..20 {
        let game = Tetris::new(40, 40);
        assert_eq!(game.width(), 40);
        assert_eq!(game.height(), 40);
        let (_, position) = game.current();
        assert_eq!((position.x, position.y), (20, 3));
        assert_eq!(game.score(), 0);
        assert_eq!(game.board(), blank_rows(40, 40));
    }
}

#[test]
fn the_smallest_board_is_six_by_six() {
    let game = Tetris::with_pieces(6, 6, Block::T, Angle::Down, Block::I, Block::I);
    assert_eq!(game.current().1, Position { x: 3, y: 3, angle: Angle::Down });
    assert_eq!(game.board(), blank_rows(6, 6));
}

#[test]
fn the_spawned_piece_does_not_collide_with_the_blank_board() {
    let kinds = [Block::I, Block::J, Block::L, Block::O, Block::S, Block::T, Block::Z];
    let angles = [Angle::Up, Angle::Right, Angle::Down, Angle::Left];
    for kind in kinds {
        for angle in angles {
            let game = Tetris::with_pieces(10, 20, kind, angle, Block::I, Block::T);
            let (block, position) = game.current();
            let cells = block.get_location_by(&position);
            assert!(game.not_collide(&cells));
        }
    }
}

#[test]
fn soft_drop_five_times_lowers_the_pivot_by_five() {
    let mut game = Tetris::with_pieces(10, 20, Block::O, Angle::Up, Block::I, Block::T);
    for _ in 0..5 {
        game = game.update(Command::Down);
    }
    assert_eq!(game.current(), (Block::O, Position { x: 5, y: 8, angle: Angle::Up }));
    assert_eq!(game.next(), Block::I);
    assert_eq!(game.reserve(), Block::T);
    assert_eq!(game.board(), blank_rows(10, 20));
    assert_eq!(game.occupied_cells(), 0);
}

#[test]
fn moves_to_the_side_shift_the_pivot() {
    let game = Tetris::with_pieces(10, 20, Block::O, Angle::Up, Block::I, Block::T);
    let game = game.update(Command::MoveLeft);
    assert_eq!(game.current().1, Position { x: 4, y: 3, angle: Angle::Up });
    let game = game.update(Command::MoveRight).update(Command::MoveRight);
    assert_eq!(game.current().1, Position { x: 6, y: 3, angle: Angle::Up });
}

#[test]
fn a_move_into_the_margin_is_rejected() {
    let mut game = Tetris::with_pieces(10, 20, Block::O, Angle::Up, Block::I, Block::T);
    for _ in 0..6 {
        game = game.update(Command::MoveLeft);
    }
    assert_eq!(game.current().1, Position { x: 3, y: 3, angle: Angle::Up });
    for _ in 0..9 {
        game = game.update(Command::MoveRight);
    }
    assert_eq!(game.current().1, Position { x: 6, y: 3, angle: Angle::Up });
    assert!(!game.is_valid_after(&Command::MoveRight));
    assert!(game.is_valid_after(&Command::MoveLeft));
}

#[test]
fn a_manual_drop_onto_the_floor_margin_does_not_lock() {
    let mut game = Tetris::with_pieces(10, 20, Block::O, Angle::Up, Block::I, Block::T);
    for _ in 0..30 {
        game = game.update(Command::Down);
    }
    assert_eq!(game.current(), (Block::O, Position { x: 5, y: 17, angle: Angle::Up }));
    assert_eq!(game.board(), blank_rows(10, 20));
    assert_eq!(game.next(), Block::I);
}

#[test]
fn an_accepted_rotation_turns_the_piece_in_place() {
    let game = Tetris::with_pieces(10, 20, Block::T, Angle::Up, Block::I, Block::O);
    let game = game.update(Command::Rotate);
    assert_eq!(game.current(), (Block::T, Position { x: 5, y: 3, angle: Angle::Right }));
    let game = game.update(Command::Rotate);
    assert_eq!(game.current(), (Block::T, Position { x: 5, y: 3, angle: Angle::Down }));
}

#[test]
fn a_rotation_out_of_range_leaves_the_position_unchanged() {
    let game = Tetris::with_pieces(10, 20, Block::I, Angle::Up, Block::O, Block::T);
    let game = game.update(Command::MoveRight).update(Command::MoveRight);
    assert_eq!(game.current().1, Position { x: 7, y: 3, angle: Angle::Up });
    let rotated = Block::I.get_location_by(&Position { x: 7, y: 3, angle: Angle::Right });
    assert!(!game.in_range(&rotated));
    let game = game.update(Command::Rotate);
    assert_eq!(game.current(), (Block::I, Position { x: 7, y: 3, angle: Angle::Up }));
    assert_eq!(game.next(), Block::O);
    assert_eq!(game.reserve(), Block::T);
    assert_eq!(game.board(), blank_rows(10, 20));
}

#[test]
fn apply_tells_accepted_from_rejected() {
    let game = Tetris::with_pieces(10, 20, Block::I, Angle::Up, Block::O, Block::T);
    let game = match game.apply(Command::MoveRight) {
        Ok(game) => game,
        Err(_) => panic!("a free move was rejected"),
    };
    let game = match game.apply(Command::MoveRight) {
        Ok(game) => game,
        Err(_) => panic!("a free move was rejected"),
    };
    match game.apply(Command::Rotate) {
        Ok(_) => panic!("a rotation into the margin was accepted"),
        Err(game) => {
            assert_eq!(game.current(), (Block::I, Position { x: 7, y: 3, angle: Angle::Up }));
        },
    }
}

#[test]
fn reserve_twice_restores_both_kinds() {
    let game = Tetris::with_pieces(10, 20, Block::S, Angle::Left, Block::I, Block::T);
    let game = game.update(Command::Reserve);
    assert_eq!(game.current(), (Block::T, Position { x: 5, y: 3, angle: Angle::Left }));
    assert_eq!(game.reserve(), Block::S);
    assert_eq!(game.next(), Block::I);
    let game = game.update(Command::Reserve);
    assert_eq!(game.current(), (Block::S, Position { x: 5, y: 3, angle: Angle::Left }));
    assert_eq!(game.reserve(), Block::T);
    assert_eq!(game.next(), Block::I);
    assert_eq!(game.board(), blank_rows(10, 20));
}

#[test]
fn reserve_is_not_checked_against_the_margins() {
    let game = Tetris::with_pieces(10, 20, Block::O, Angle::Right, Block::I, Block::I);
    let mut game = game;
    for _ in 0..4 {
        game = game.update(Command::MoveRight);
    }
    assert_eq!(game.current().1, Position { x: 6, y: 3, angle: Angle::Right });
    let game = game.update(Command::Reserve);
    assert_eq!(game.current(), (Block::I, Position { x: 6, y: 3, angle: Angle::Right }));
    let (block, position) = game.current();
    assert!(!game.in_range(&block.get_location_by(&position)));
}

#[test]
fn hard_drop_and_no_op_change_nothing() {
    let game = Tetris::with_pieces(10, 20, Block::Z, Angle::Down, Block::I, Block::T);
    let game = game.update(Command::Immd).update(Command::NoOp);
    assert_eq!(game.current(), (Block::Z, Position { x: 5, y: 3, angle: Angle::Down }));
    assert_eq!(game.next(), Block::I);
    assert_eq!(game.reserve(), Block::T);
    assert_eq!(game.board(), blank_rows(10, 20));
    let game = game.immediatly();
    assert_eq!(game.current(), (Block::Z, Position { x: 5, y: 3, angle: Angle::Down }));
}

#[test]
fn a_tick_lowers_the_piece_by_one_row() {
    let game = Tetris::with_pieces(10, 20, Block::O, Angle::Up, Block::I, Block::T);
    let game = game.interval_update_with(Block::Z, Angle::Left);
    assert_eq!(game.current(), (Block::O, Position { x: 5, y: 4, angle: Angle::Up }));
    assert_eq!(game.next(), Block::I);
    assert_eq!(game.board(), blank_rows(10, 20));
    let game = game.interval_update();
    assert_eq!(game.current(), (Block::O, Position { x: 5, y: 5, angle: Angle::Up }));
    assert_eq!(game.next(), Block::I);
    assert_eq!(game.board(), blank_rows(10, 20));
}

#[test]
fn a_tick_at_the_floor_margin_locks_the_piece() {
    let game = Tetris::with_pieces(10, 20, Block::O, Angle::Up, Block::I, Block::T);
    let game = tick(game, 14, Block::Z, Angle::Left);
    assert_eq!(game.current(), (Block::O, Position { x: 5, y: 17, angle: Angle::Up }));
    assert_eq!(game.occupied_cells(), 0);
    let game = game.interval_update_with(Block::J, Angle::Right);
    assert_eq!(game.current(), (Block::I, Position { x: 5, y: 3, angle: Angle::Right }));
    assert_eq!(game.next(), Block::J);
    assert_eq!(game.reserve(), Block::T);
    assert_eq!(game.board(), with_locked(blank_rows(10, 20), &[(5, 17), (6, 17), (5, 16), (6, 16)]));
    assert_eq!(game.occupied_cells(), 4);
}

#[test]
fn a_tick_onto_an_occupied_cell_locks_the_piece_and_spawns_the_next() {
    let game = square_on_the_floor();
    assert_eq!(game.current(), (Block::I, Position { x: 5, y: 3, angle: Angle::Up }));
    let game = tick(game, 11, Block::Z, Angle::Left);
    assert_eq!(game.current(), (Block::I, Position { x: 5, y: 14, angle: Angle::Up }));
    assert_eq!(game.occupied_cells(), 4);
    assert!(!game.is_valid_after(&Command::Down));
    let below = Block::I.get_location_by(&Position { x: 5, y: 15, angle: Angle::Up });
    assert!(game.in_range(&below));
    assert!(!game.not_collide(&below));
    let game = game.interval_update_with(Block::L, Angle::Right);
    assert_eq!(game.current(), (Block::I, Position { x: 5, y: 3, angle: Angle::Right }));
    assert_eq!(game.next(), Block::L);
    assert_eq!(game.reserve(), Block::T);
    let expected = with_locked(
        blank_rows(10, 20),
        &[(5, 17), (6, 17), (5, 16), (6, 16), (5, 15), (5, 14), (5, 13), (5, 12)],
    );
    assert_eq!(game.board(), expected);
    assert_eq!(game.occupied_cells(), 8);
}

#[test]
fn a_manual_drop_onto_an_occupied_cell_is_rejected() {
    let game = square_on_the_floor();
    let game = tick(game, 11, Block::Z, Angle::Left);
    let game = game.update(Command::Down);
    assert_eq!(game.current(), (Block::I, Position { x: 5, y: 14, angle: Angle::Up }));
    assert_eq!(game.occupied_cells(), 4);
}

#[test]
fn a_random_tick_that_locks_spawns_at_the_spawn_position() {
    let game = Tetris::with_pieces(10, 20, Block::O, Angle::Up, Block::I, Block::T);
    let game = tick(game, 14, Block::Z, Angle::Left);
    let game = game.interval_update();
    let (kind, position) = game.current();
    assert_eq!(kind, Block::I);
    assert_eq!((position.x, position.y), (5, 3));
    assert_eq!(game.reserve(), Block::T);
    assert_eq!(game.board(), with_locked(blank_rows(10, 20), &[(5, 17), (6, 17), (5, 16), (6, 16)]));
    let game = game.next_block();
    assert_eq!(game.current().1.x, 5);
    assert_eq!(game.current().1.y, 3);
    assert_eq!(game.occupied_cells(), 8);
}

#[test]
fn a_full_row_is_cleared_and_a_blank_row_enters_at_the_top() {
    let game = Tetris::with_pieces(10, 20, Block::I, Angle::Right, Block::O, Block::T);
    let game = game.update(Command::MoveLeft);
    let game = tick(game, 14, Block::Z, Angle::Left);
    assert_eq!(game.current(), (Block::I, Position { x: 4, y: 17, angle: Angle::Right }));
    let game = game.interval_update_with(Block::Z, Angle::Left);
    assert_eq!(game.current(), (Block::O, Position { x: 5, y: 3, angle: Angle::Left }));
    assert_eq!(game.board(), blank_rows(10, 20));
    assert_eq!(game.board().len(), 20);
    assert_eq!(game.occupied_cells(), 0);
}

#[test]
fn rows_above_a_cleared_row_sink() {
    let game = square_on_the_floor();
    let game = game.update(Command::MoveLeft).update(Command::MoveLeft);
    let game = tick(game, 13, Block::Z, Angle::Left);
    assert_eq!(game.current(), (Block::I, Position { x: 3, y: 16, angle: Angle::Up }));
    let game = game.interval_update_with(Block::O, Angle::Up);
    let stacked = with_locked(
        blank_rows(10, 20),
        &[(5, 17), (6, 17), (5, 16), (6, 16), (3, 17), (3, 16), (3, 15), (3, 14)],
    );
    assert_eq!(game.board(), stacked);
    assert_eq!(game.occupied_cells(), 8);
    assert_eq!(game.current(), (Block::I, Position { x: 5, y: 3, angle: Angle::Up }));
    let game = game.update(Command::MoveLeft);
    let game = tick(game, 13, Block::Z, Angle::Left);
    assert_eq!(game.current(), (Block::I, Position { x: 4, y: 16, angle: Angle::Up }));
    assert_eq!(game.board(), stacked);
    let game = game.interval_update_with(Block::Z, Angle::Left);
    let expected = with_locked(blank_rows(10, 20), &[(3, 16), (4, 16), (3, 17), (4, 17)]);
    assert_eq!(game.board(), expected);
    assert_eq!(game.board().len(), 20);
    assert_eq!(game.occupied_cells(), 4);
    assert_eq!(game.current(), (Block::O, Position { x: 5, y: 3, angle: Angle::Left }));
    assert_eq!(game.next(), Block::Z);
}

#[test]
fn landing_with_the_given_draws_writes_the_four_cells() {
    let game = Tetris::with_pieces(10, 20, Block::T, Angle::Up, Block::S, Block::O);
    let game = game.next_block_with(Block::L, Angle::Down);
    assert_eq!(game.current(), (Block::S, Position { x: 5, y: 3, angle: Angle::Down }));
    assert_eq!(game.next(), Block::L);
    assert_eq!(game.reserve(), Block::O);
    assert_eq!(game.board(), with_locked(blank_rows(10, 20), &[(5, 3), (4, 3), (6, 3), (5, 4)]));
    assert_eq!(game.occupied_cells(), 4);
}

#[test]
fn resolving_a_settled_board_changes_nothing() {
    let game = square_on_the_floor();
    let before = game.board();
    let game = game.resolve();
    assert_eq!(game.board(), before);
    assert_eq!(game.board().len(), 20);
    let game = game.resolve();
    assert_eq!(game.board(), before);
    assert_eq!(game.current(), (Block::I, Position { x: 5, y: 3, angle: Angle::Up }));
}

#[test]
fn on_a_board_without_a_band_every_row_is_cleared() {
    let game = Tetris::with_pieces(6, 8, Block::O, Angle::Left, Block::I, Block::T);
    let game = game.next_block_with(Block::J, Angle::Up);
    assert_eq!(game.occupied_cells(), 4);
    let game = game.resolve();
    assert_eq!(game.board(), blank_rows(6, 8));
    assert_eq!(game.occupied_cells(), 0);
}

#[test]
fn the_snapshot_shows_the_falling_piece_over_the_board() {
    let game = square_on_the_floor();
    let mut expected = with_locked(blank_rows(10, 20), &[(5, 17), (6, 17), (5, 16), (6, 16)]);
    for (x, y) in [(5usize, 3usize), (5, 4), (5, 2), (5, 1)] {
        expected[y][x] = FALLING;
    }
    assert_eq!(game.snapshot(), expected);
    assert_eq!(game.board(), with_locked(blank_rows(10, 20), &[(5, 17), (6, 17), (5, 16), (6, 16)]));
}

#[test]
fn cells_are_in_range_inside_the_margins_only() {
    let game = Tetris::with_pieces(10, 20, Block::O, Angle::Up, Block::I, Block::T);
    assert!(game.in_range(&[(3, 0, LOCKED), (7, 17, LOCKED)]));
    assert!(!game.in_range(&[(2, 5, LOCKED)]));
    assert!(!game.in_range(&[(8, 5, LOCKED)]));
    assert!(!game.in_range(&[(5, 18, LOCKED)]));
    assert!(!game.in_range(&[(5, 5, LOCKED), (usize::MAX, 5, LOCKED)]));
    assert!(!game.in_range(&[(5, usize::MAX, LOCKED)]));
    assert!(game.in_range(&[]));
}

#[test]
fn only_occupied_cells_on_the_board_collide() {
    let game = square_on_the_floor();
    assert!(game.does_collide(5, 17));
    assert!(game.does_collide(6, 16));
    assert!(!game.does_collide(4, 17));
    assert!(!game.does_collide(5, 15));
    assert!(!game.does_collide(5, 20));
    assert!(!game.does_collide(10, 17));
    assert!(game.not_collide(&[(4, 17, LOCKED), (7, 17, LOCKED)]));
    assert!(!game.not_collide(&[(4, 17, LOCKED), (6, 17, LOCKED)]));
    assert!(game.not_collide(&[]));
}

#[test]
fn a_long_random_game_keeps_the_board_in_shape() {
    let mut game = Tetris::new(12, 16);
    let commands = [Command::MoveLeft, Command::Rotate, Command::MoveRight, Command::Reserve, Command::Down];
    for step in 0..600usize {
        game = game.interval_update();
        game = game.update(commands[step % commands.len()]);
        let board = game.board();
        assert_eq!(board.len(), 16);
        assert!(board.iter().all(|row| row.len() == 12));
        let (_, position) = game.current();
        assert!(3 <= position.x && position.x + 3 <= 12);
        assert!(3 <= position.y && position.y + 3 <= 16);
        let occupied = board.iter().flatten().filter(|cell| cell.not_default()).count();
        assert_eq!(game.occupied_cells(), occupied);
        let full = board.iter().any(|row| row[3..9].iter().all(|cell| cell.not_default()));
        assert!(!full);
        assert_eq!(game.snapshot().len(), 16);
    }
}

#[test]
fn a_swap_onto_a_locked_cell_is_accepted_and_lands_on_it() {
    let game = Tetris::with_pieces(10, 20, Block::O, Angle::Up, Block::J, Block::T);
    let game = tick(game, 15, Block::I, Angle::Up);
    assert_eq!(game.current(), (Block::J, Position { x: 5, y: 3, angle: Angle::Up }));
    let game = tick(game, 12, Block::I, Angle::Up);
    assert_eq!(game.current(), (Block::J, Position { x: 5, y: 15, angle: Angle::Up }));
    assert!(!game.is_valid_after(&Command::Down));
    let game = game.update(Command::Reserve);
    assert_eq!(game.current(), (Block::T, Position { x: 5, y: 15, angle: Angle::Up }));
    assert_eq!(game.reserve(), Block::J);
    let (block, position) = game.current();
    assert!(!game.not_collide(&block.get_location_by(&position)));
    assert_eq!(game.occupied_cells(), 4);
    let game = game.interval_update_with(Block::Z, Angle::Left);
    let expected = with_locked(
        blank_rows(10, 20),
        &[(5, 17), (6, 17), (5, 16), (6, 16), (5, 15), (4, 15), (6, 15)],
    );
    assert_eq!(game.board(), expected);
    assert_eq!(game.occupied_cells(), 7);
    assert_eq!(game.current(), (Block::I, Position { x: 5, y: 3, angle: Angle::Left }));
}
