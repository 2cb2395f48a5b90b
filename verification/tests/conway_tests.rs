use termvm::conway::{conway_frame, Game, AUTOMATON_HEIGHT, AUTOMATON_WIDTH, FRAME_DELAY};
use termvm::rng::Rng;

fn game_from(rows: Vec<Vec<bool>>) -> Game {
    let buffer = rows.clone();
    Game { board: rows, buffer }
}

#[test]
fn rng_rotates_right_by_one_bit() {
    let mut rng = Rng::new(1);
    let bit = rng.next(0);
    assert_eq!(rng.state, 0x8000_0000);
    assert!(!bit);
    let mut rng2 = Rng::new(2);
    let bit2 = rng2.next(0);
    assert_eq!(rng2.state, 1);
    assert!(bit2);
}

#[test]
fn rng_mixes_before_rotating() {
    let mut rng = Rng::new(0);
    let bit = rng.next(3);
    // 0 xor 3 = 3; rotated right by one = 0x8000_0001, low bit set
    assert_eq!(rng.state, 0x8000_0001);
    assert!(bit);
}

#[test]
fn rng_is_deterministic_given_seed() {
    let mut a = Rng::new(42);
    let mut b = Rng::new(42);
    for mix in 0..100u32 {
        assert_eq!(a.next(mix), b.next(mix));
    }
    assert_eq!(a.state, b.state);
}

#[test]
fn new_grid_has_requested_dimensions() {
    let mut rng = Rng::new(0);
    let game = Game::new(7, 4, &mut rng);
    assert_eq!(game.board.len(), 4);
    for row in &game.board {
        assert_eq!(row.len(), 7);
    }
    assert_eq!(game.buffer.len(), 4);
    for row in &game.buffer {
        assert_eq!(row.len(), 7);
    }
}

#[test]
fn new_grid_is_reproducible_given_seed() {
    let mut rng1 = Rng::new(9);
    let mut rng2 = Rng::new(9);
    let a = Game::new(8, 8, &mut rng1);
    let b = Game::new(8, 8, &mut rng2);
    assert_eq!(a.board, b.board);
}

#[test]
fn resize_keeps_existing_cells() {
    let mut rng = Rng::new(5);
    let mut game = Game::new(6, 6, &mut rng);
    let before = game.board.clone();
    game.resize(3, 2, &mut rng);
    assert_eq!(game.board.len(), 2);
    for (i, row) in game.board.iter().enumerate() {
        assert_eq!(row.len(), 3);
        assert_eq!(row[..], before[i][..3]);
    }
}

#[test]
fn step_preserves_dimensions_and_booleans() {
    let mut rng = Rng::new(77);
    let mut game = Game::new(5, 9, &mut rng);
    game.step();
    assert_eq!(game.board.len(), 9);
    for row in &game.board {
        assert_eq!(row.len(), 5);
    }
}

#[test]
fn all_dead_grid_stays_all_dead() {
    let mut game = game_from(vec![vec![false; 6]; 5]);
    game.step();
    for row in &game.board {
        for &cell in row {
            assert!(!cell);
        }
    }
}

#[test]
fn lone_cell_on_one_by_one_torus_dies_of_crowding() {
    // Every one of the nine block positions wraps to the same cell, so the
    // count is nine and the cell dies.
    let mut game = game_from(vec![vec![true]]);
    game.step();
    assert!(!game.board[0][0]);
}

#[test]
fn two_adjacent_cells_survive_with_count_two() {
    let mut rows = vec![vec![false; 5]; 5];
    rows[2][1] = true;
    rows[2][2] = true;
    let mut game = game_from(rows);
    game.step();
    // Each of the pair sees exactly the two of them in its block.
    assert!(game.board[2][1]);
    assert!(game.board[2][2]);
}

#[test]
fn count_three_keeps_cells_as_they_were() {
    let mut rows = vec![vec![false; 5]; 5];
    rows[2][1] = true;
    rows[2][2] = true;
    rows[2][3] = true;
    let mut game = game_from(rows);
    game.step();
    // The middle of the row counts three (itself included) and stays alive.
    assert!(game.board[2][2]);
    // The dead cell above it also counts three and therefore stays dead:
    // the center-inclusive rule shifts the classic birth case.
    assert!(!game.board[1][2]);
}

#[test]
fn five_or_more_around_means_death() {
    let mut rows = vec![vec![false; 5]; 5];
    for y in 1..4 {
        rows[1][y] = true;
        rows[2][y] = true;
    }
    let mut game = game_from(rows);
    game.step();
    // The two middle cells of the block see all six alive cells.
    assert!(!game.board[1][2]);
    assert!(!game.board[2][2]);
}

#[test]
fn neighbor_count_wraps_around_the_torus() {
    // Two cells adjacent only through the wrapped edge survive as a pair.
    let mut rows = vec![vec![false; 4]; 4];
    rows[0][0] = true;
    rows[3][0] = true;
    let mut game = game_from(rows);
    game.step();
    assert!(game.board[0][0]);
    assert!(game.board[3][0]);
}

#[test]
fn render_has_one_line_per_row_of_width_chars() {
    let mut rng = Rng::new(123);
    let game = Game::new(7, 3, &mut rng);
    let text = game.display();
    let lines: Vec<&str> = text.split("\r\n").collect();
    assert_eq!(lines.len(), 4);
    assert_eq!(lines[3], "");
    for line in &lines[..3] {
        assert_eq!(line.chars().count(), 7);
        assert!(line.chars().all(|c| c == 'X' || c == ' '));
    }
}

#[test]
fn render_marks_alive_cells_with_x() {
    let game = game_from(vec![vec![true, false], vec![false, true]]);
    assert_eq!(game.display(), "X \r\n X\r\n");
}

#[test]
fn identically_seeded_games_render_identical_frames() {
    let mut rng1 = Rng::new(31);
    let mut rng2 = Rng::new(31);
    let mut a = Game::new(10, 10, &mut rng1);
    let mut b = Game::new(10, 10, &mut rng2);
    for _ in 0..5 {
        assert_eq!(a.display(), b.display());
        a.step();
        b.step();
    }
    assert_eq!(a.display(), b.display());
}

#[test]
fn swap_exchanges_the_buffers() {
    let mut game = game_from(vec![vec![true, false]]);
    game.buffer = vec![vec![false, true]];
    game.swap();
    assert_eq!(game.board, vec![vec![false, true]]);
    assert_eq!(game.buffer, vec![vec![true, false]]);
}

#[test]
fn recreate_buffer_copies_the_board() {
    let mut game = game_from(vec![vec![true, false, true]]);
    game.buffer = vec![vec![false; 3]];
    game.recreate_buffer();
    assert_eq!(game.buffer, game.board);
}

#[test]
fn idx_wraps_modulo_dimensions() {
    let game = game_from(vec![vec![true, false], vec![false, true]]);
    assert!(game.idx(0, 0));
    assert!(game.idx(2, 2));
    assert!(game.idx(4, 6));
    assert!(!game.idx(0, 1));
    assert!(!game.idx(2, 3));
    assert!(game.idx(1, 1));
    assert!(game.idx(3, 3));
}

#[test]
fn calc_writes_only_the_back_buffer() {
    let mut game = game_from(vec![vec![true, true], vec![false, false]]);
    let board_before = game.board.clone();
    game.calc(0, 0);
    assert_eq!(game.board, board_before);
}

#[test]
fn conway_frame_shows_current_grid_then_steps() {
    let mut rng = Rng::new(1);
    let mut game = Game::new(4, 4, &mut rng);
    let expected = game.display();
    let mut copy = Game { board: game.board.clone(), buffer: game.buffer.clone() };
    copy.step();
    let frame = conway_frame(&mut game);
    assert_eq!(frame, expected);
    assert_eq!(game.board, copy.board);
}

#[test]
fn automaton_constants_match_the_session_defaults() {
    assert_eq!(AUTOMATON_WIDTH, 30);
    assert_eq!(AUTOMATON_HEIGHT, 30);
    assert_eq!(FRAME_DELAY, 300);
}
