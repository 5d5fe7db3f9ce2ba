use tetris::block::{Block, Coord};
use tetris::color::Color;
use tetris::game::{spawn_block, Game};

fn coord(x: usize, y: usize) -> Coord {
    Coord { x, y }
}

/// A game with an empty board, chosen blocks, and zeroed statistics.
fn game_with(block: Block, next_block: Block) -> Game {
    Game {
        board: vec![0u8; 200],
        block,
        next_block,
        lines_cleared: 0,
        level: 0,
        score: 0,
    }
}

fn cell(game: &Game, x: usize, y: usize) -> u8 {
    game.board[y * 10 + x]
}

#[test]
fn new_game_starts_empty_with_spawn_blocks() {
    let game = Game::new();
    assert_eq!(game.score, 0);
    assert_eq!(game.lines_cleared, 0);
    assert_eq!(game.level, 0);
    assert!(game.board.iter().all(|&c| c == 0));
    // both drawn blocks must be one of the seven spawn positions
    let spawns: Vec<Block> = (0..7).map(spawn_block).collect();
    assert!(spawns.contains(&game.block));
    assert!(spawns.contains(&game.next_block));
}

#[test]
fn legal_move_true_on_empty_board() {
    let game = game_with(spawn_block(0), spawn_block(1));
    assert!(game.legal_move());
}

#[test]
fn legal_move_false_on_collision() {
    let mut game = game_with(spawn_block(0), spawn_block(1));
    // occupy one of the four cells of the upright I at column 4
    game.board[2 * 10 + 4] = 7;
    assert!(!game.legal_move());
}

#[test]
fn legal_move_false_out_of_bounds() {
    // a block pushed past the right edge: one cell at x = 10
    let blk = Block {
        a: coord(9, 5),
        b: coord(10, 5),
        c: coord(11, 5),
        d: coord(10, 6),
        color: Color::WHITE,
    };
    let game = game_with(blk, spawn_block(1));
    assert!(!game.legal_move());
    // below the bottom edge
    let blk = Block {
        a: coord(4, 18),
        b: coord(4, 19),
        c: coord(5, 18),
        d: coord(5, 20),
        color: Color::BLUE,
    };
    let game = game_with(blk, spawn_block(1));
    assert!(!game.legal_move());
}

#[test]
fn rejected_shift_left_keeps_coordinates() {
    // square on the left wall
    let blk = Block {
        a: coord(0, 5),
        b: coord(0, 6),
        c: coord(1, 5),
        d: coord(1, 6),
        color: Color::BLUE,
    };
    let mut game = game_with(blk, spawn_block(1));
    assert!(!game.move_block_left());
    assert_eq!(game.block, blk);
}

#[test]
fn rejected_shift_into_occupied_cell_keeps_coordinates() {
    let blk = Block {
        a: coord(4, 5),
        b: coord(4, 6),
        c: coord(5, 5),
        d: coord(5, 6),
        color: Color::BLUE,
    };
    let mut game = game_with(blk, spawn_block(1));
    game.board[5 * 10 + 6] = 3;
    assert!(!game.move_block_right());
    assert_eq!(game.block, blk);
    game.board[7 * 10 + 4] = 3;
    assert!(!game.move_block_down());
    assert_eq!(game.block, blk);
    assert!(game.move_block_left());
    assert_eq!(game.block.a, coord(3, 5));
}

#[test]
fn rejected_rotation_keeps_coordinates() {
    // upright S away from the walls; block the cell its flat form would use
    let blk = Block {
        a: coord(4, 5),
        b: coord(4, 6),
        c: coord(5, 6),
        d: coord(5, 7),
        color: Color::RED,
    };
    let mut game = game_with(blk, spawn_block(1));
    game.board[6 * 10 + 6] = 5;
    assert!(!game.turn_block());
    assert_eq!(game.block, blk);
}

#[test]
fn rejected_rotation_with_wall_kick_keeps_coordinates() {
    // upright S on the right wall: its rotation kicks one column left, so a
    // three-more-turns revert would drift; the engine must restore the
    // stored pre-attempt coordinates instead
    let blk = Block {
        a: coord(8, 5),
        b: coord(8, 6),
        c: coord(9, 6),
        d: coord(9, 7),
        color: Color::RED,
    };
    let mut game = game_with(blk, spawn_block(1));
    // block a cell of the kicked flat position, (7, 7)
    game.board[7 * 10 + 7] = 5;
    assert!(!game.turn_block());
    assert_eq!(game.block, blk);
}

#[test]
fn accepted_rotation_moves_block() {
    let blk = Block {
        a: coord(4, 5),
        b: coord(4, 6),
        c: coord(5, 6),
        d: coord(5, 7),
        color: Color::RED,
    };
    let mut game = game_with(blk, spawn_block(1));
    assert!(game.turn_block());
    assert_eq!(game.block.a, coord(4, 7));
    assert_eq!(game.block.b, coord(5, 6));
    assert_eq!(game.block.c, coord(6, 6));
    assert_eq!(game.block.d, coord(5, 7));
}

#[test]
fn gravity_blocked_at_bottom() {
    // square resting on the floor
    let blk = Block {
        a: coord(4, 18),
        b: coord(4, 19),
        c: coord(5, 18),
        d: coord(5, 19),
        color: Color::BLUE,
    };
    let mut game = game_with(blk, spawn_block(1));
    assert!(!game.move_block_down());
    assert_eq!(game.block, blk);
}

#[test]
fn single_row_clear_shifts_rows_down() {
    let blk = Block {
        a: coord(4, 18),
        b: coord(4, 19),
        c: coord(5, 18),
        d: coord(5, 19),
        color: Color::BLUE,
    };
    let mut game = game_with(blk, spawn_block(1));
    // fill the bottom row except where the square will land
    for x in 0..10 {
        if x != 4 && x != 5 {
            game.board[19 * 10 + x] = 7;
        }
    }
    // a marker two rows up must fall by exactly one row
    game.board[17 * 10 + 2] = 3;
    let lines = game.cement_block();
    assert_eq!(lines, 1);
    assert_eq!(game.lines_cleared, 1);
    // row 19 now holds what row 18 held: the square's upper cells
    assert_eq!(cell(&game, 4, 19), 4);
    assert_eq!(cell(&game, 5, 19), 4);
    assert_eq!(cell(&game, 0, 19), 0);
    // the marker moved from row 17 to row 18
    assert_eq!(cell(&game, 2, 18), 3);
    assert_eq!(cell(&game, 2, 17), 0);
    // the top row is empty
    for x in 0..10 {
        assert_eq!(cell(&game, x, 0), 0);
    }
}

#[test]
fn mid_board_clear_leaves_lower_rows_unchanged() {
    let mut game = game_with(spawn_block(1), spawn_block(1));
    // a complete row in the middle, markers above and below
    for x in 0..10 {
        game.board[10 * 10 + x] = 2;
    }
    game.board[8 * 10 + 3] = 5;
    game.board[15 * 10 + 6] = 6;
    let lines = game.clear_lines();
    assert_eq!(lines, 1);
    // below the cleared row: untouched
    assert_eq!(cell(&game, 6, 15), 6);
    // above: shifted down by one
    assert_eq!(cell(&game, 3, 9), 5);
    assert_eq!(cell(&game, 3, 8), 0);
    // a second pass finds nothing
    assert_eq!(game.clear_lines(), 0);
    assert_eq!(game.lines_cleared, 1);
}

#[test]
fn two_separated_rows_clear_in_one_pass() {
    let mut game = game_with(spawn_block(1), spawn_block(1));
    for x in 0..10 {
        game.board[12 * 10 + x] = 1;
        game.board[17 * 10 + x] = 2;
    }
    game.board[10 * 10 + 0] = 7;  // above both
    game.board[14 * 10 + 1] = 6;  // between them
    game.board[19 * 10 + 2] = 5;  // below both
    let lines = game.clear_lines();
    assert_eq!(lines, 2);
    assert_eq!(game.lines_cleared, 2);
    // below both: unchanged
    assert_eq!(cell(&game, 2, 19), 5);
    // between the two cleared rows: down by one
    assert_eq!(cell(&game, 1, 15), 6);
    assert_eq!(cell(&game, 1, 14), 0);
    // above both: down by two
    assert_eq!(cell(&game, 0, 12), 7);
    assert_eq!(cell(&game, 0, 10), 0);
    // no trace of either complete row remains
    for x in 0..10 {
        assert_eq!(cell(&game, x, 0), 0);
        assert_eq!(cell(&game, x, 1), 0);
    }
}

#[test]
fn cement_without_clear_awards_placement_bonus() {
    let mut game = game_with(spawn_block(1), spawn_block(1));
    let lines = game.cement_block();
    assert_eq!(lines, 0);
    assert_eq!(game.score, 10);
    assert_eq!(game.lines_cleared, 0);
    assert_eq!(game.level, 0);
    // the square's cells now carry its color code
    assert_eq!(cell(&game, 4, 0), 4);
    assert_eq!(cell(&game, 5, 1), 4);
}

#[test]
fn cement_with_one_clear_awards_hundred() {
    let blk = Block {
        a: coord(4, 18),
        b: coord(4, 19),
        c: coord(5, 18),
        d: coord(5, 19),
        color: Color::BLUE,
    };
    let mut game = game_with(blk, spawn_block(1));
    for x in 0..10 {
        if x != 4 && x != 5 {
            game.board[19 * 10 + x] = 7;
        }
    }
    let lines = game.cement_block();
    assert_eq!(lines, 1);
    assert_eq!(game.score, 110);
}

#[test]
fn cement_with_four_clears_celebrates() {
    // upright I in column 4 over four rows that lack only column 4
    let blk = Block {
        a: coord(4, 16),
        b: coord(4, 17),
        c: coord(4, 18),
        d: coord(4, 19),
        color: Color::GREEN,
    };
    let mut game = game_with(blk, spawn_block(1));
    for y in 16..20 {
        for x in 0..10 {
            if x != 4 {
                game.board[y * 10 + x] = 7;
            }
        }
    }
    let lines = game.cement_block();
    assert_eq!(lines, 4, "the distinguished four-row signal fires once");
    assert_eq!(game.score, 810);
    assert_eq!(game.lines_cleared, 4);
    assert!(game.board.iter().all(|&c| c == 0));
}

#[test]
fn bonus_table_values() {
    let mut game = game_with(spawn_block(1), spawn_block(1));
    game.add_lines_to_score(1);
    assert_eq!(game.score, 100);
    game.add_lines_to_score(2);
    assert_eq!(game.score, 350);
    game.add_lines_to_score(3);
    assert_eq!(game.score, 850);
    game.add_lines_to_score(4);
    assert_eq!(game.score, 1650);
}

#[test]
fn level_advances_when_threshold_reached() {
    let blk = Block {
        a: coord(4, 18),
        b: coord(4, 19),
        c: coord(5, 18),
        d: coord(5, 19),
        color: Color::BLUE,
    };
    let mut game = game_with(blk, spawn_block(1));
    game.lines_cleared = 9;
    for x in 0..10 {
        if x != 4 && x != 5 {
            game.board[19 * 10 + x] = 7;
        }
    }
    let lines = game.cement_block();
    assert_eq!(lines, 1);
    assert_eq!(game.lines_cleared, 10);
    assert_eq!(game.level, 1);
}

#[test]
fn level_keeps_still_below_threshold() {
    let mut game = game_with(spawn_block(1), spawn_block(1));
    game.lines_cleared = 9;
    let lines = game.cement_block();
    assert_eq!(lines, 0);
    assert_eq!(game.level, 0);
}

#[test]
fn level_pins_at_last_speed_entry() {
    let blk = Block {
        a: coord(4, 18),
        b: coord(4, 19),
        c: coord(5, 18),
        d: coord(5, 19),
        color: Color::BLUE,
    };
    let mut game = game_with(blk, spawn_block(1));
    game.level = 10;
    game.lines_cleared = 109;
    for x in 0..10 {
        if x != 4 && x != 5 {
            game.board[19 * 10 + x] = 7;
        }
    }
    let lines = game.cement_block();
    assert_eq!(lines, 1);
    assert_eq!(game.lines_cleared, 110);
    assert_eq!(game.level, 10);
}

#[test]
fn spawn_succeeds_on_free_board() {
    let queued = spawn_block(3);
    let mut game = game_with(spawn_block(1), queued);
    assert!(game.next_block());
    assert_eq!(game.block, queued);
}

#[test]
fn spawn_blocked_cell_is_game_over() {
    let queued = spawn_block(3);
    let mut game = game_with(spawn_block(1), queued);
    // occupy exactly one of the queued Z piece's spawn cells, (5, 0)
    game.board[0 * 10 + 5] = 2;
    assert!(!game.next_block());
    assert_eq!(game.block, queued);
}

#[test]
fn spawn_ignores_cells_outside_the_silhouette() {
    let queued = spawn_block(3);
    let mut game = game_with(spawn_block(1), queued);
    // (4, 0) is not one of the Z piece's four spawn cells
    game.board[0 * 10 + 4] = 2;
    assert!(game.next_block());
}

#[test]
fn line_complete_detects_full_and_partial_rows() {
    let mut game = game_with(spawn_block(1), spawn_block(1));
    for x in 0..10 {
        game.board[5 * 10 + x] = 1;
    }
    game.board[6 * 10 + 0] = 1;
    assert!(game.line_complete(5));
    assert!(!game.line_complete(6));
    assert!(!game.line_complete(0));
}

#[test]
fn match_block_hits_only_the_four_cells() {
    let blk = spawn_block(2);
    assert!(Game::match_block(blk, 4, 0));
    assert!(Game::match_block(blk, 5, 2));
    assert!(!Game::match_block(blk, 5, 0));
    assert!(!Game::match_block(blk, 0, 0));
}

#[test]
fn check_free_reads_the_board() {
    let mut game = game_with(spawn_block(1), spawn_block(1));
    game.board[7 * 10 + 3] = 6;
    assert!(!game.check_free(&coord(3, 7)));
    assert!(game.check_free(&coord(3, 6)));
}
