use tic_tac_toe::ai_logic::{best_move, BoardMove};
use tic_tac_toe::config::{
    EASY_AI_DEPTH, EASY_AI_RANDOM_PERCENT, HARD_AI_DEPTH, MEDIUM_AI_DEPTH,
};
use tic_tac_toe::events::{GameOverEvent, PlayerMoveEvent};
use tic_tac_toe::policy::{
    choose_move, first_empty_cell, random_empty_cell, random_percent, search_depth,
};
use tic_tac_toe::random::SeededRng;
use tic_tac_toe::resources::{
    BoardState, CurrentAIDifficulty, CurrentGameMode, GameStats, MoveError,
};
use tic_tac_toe::types::{Board, CellState, Difficulty, GameMode, GameResult, Player};

fn grid(rows: [&str; 3]) -> Board {
    let mut board: Board = [[None; 3]; 3];
    for (r, line) in rows.iter().enumerate() {
        for (c, ch) in line.chars().enumerate() {
            board[r][c] = match ch {
                'X' => Some(Player::X),
                'O' => Some(Player::O),
                _ => None,
            };
        }
    }
    board
}

/// Plays the moves in turn, starting with X, and expects each to be accepted.
fn play(moves: &[(usize, usize)]) -> BoardState {
    let mut game = BoardState::new();
    for &(r, c) in moves {
        let mark = game.current_player();
        assert!(game.submit_move(r, c, mark).is_ok());
    }
    game
}

#[test]
fn new_game_is_empty_with_x_to_move() {
    let game = BoardState::new();
    assert_eq!(game.get_board_snapshot(), grid(["___", "___", "___"]));
    assert_eq!(game.current_player(), Player::X);
    assert_eq!(game.get_outcome(), GameResult::InProgress);
    assert!(!game.game_over());
    assert_eq!(game.winner(), None);
    let game = BoardState::default();
    assert_eq!(game.get_board_snapshot(), grid(["___", "___", "___"]));
    assert_eq!(game.current_player(), Player::X);
}

#[test]
fn accepted_move_marks_cell_and_passes_turn() {
    let mut game = BoardState::new();
    assert_eq!(game.submit_move(1, 2, Player::X), Ok(GameResult::InProgress));
    assert_eq!(game.get_board_snapshot(), grid(["___", "__X", "___"]));
    assert_eq!(game.current_player(), Player::O);
    assert_eq!(game.submit_move(0, 0, Player::O), Ok(GameResult::InProgress));
    assert_eq!(game.get_board_snapshot(), grid(["O__", "__X", "___"]));
    assert_eq!(game.current_player(), Player::X);
}

#[test]
fn same_cell_twice_is_cell_occupied() {
    let mut game = BoardState::new();
    assert_eq!(game.submit_move(1, 1, Player::X), Ok(GameResult::InProgress));
    let before = game.get_board_snapshot();
    assert_eq!(game.submit_move(1, 1, Player::O), Err(MoveError::CellOccupied));
    assert_eq!(game.get_board_snapshot(), before);
    assert_eq!(game.get_board_snapshot(), grid(["___", "_X_", "___"]));
    assert_eq!(game.current_player(), Player::O);
    assert_eq!(game.get_outcome(), GameResult::InProgress);
}

#[test]
fn rejected_moves_change_nothing() {
    let mut game = play(&[(0, 0), (1, 1)]);
    let board = game.get_board_snapshot();
    let attempts: [(usize, usize, Player, MoveError); 7] = [
        (3, 0, Player::X, MoveError::OutOfBounds),
        (0, 3, Player::X, MoveError::OutOfBounds),
        (usize::MAX, usize::MAX, Player::O, MoveError::OutOfBounds),
        (2, 2, Player::O, MoveError::WrongTurn),
        (0, 0, Player::O, MoveError::WrongTurn),
        (0, 0, Player::X, MoveError::CellOccupied),
        (1, 1, Player::X, MoveError::CellOccupied),
    ];
    for &(r, c, mark, error) in attempts.iter() {
        assert_eq!(game.submit_move(r, c, mark), Err(error));
        assert_eq!(game.current_player(), Player::X);
        assert_eq!(game.get_board_snapshot(), board);
        assert_eq!(game.get_outcome(), GameResult::InProgress);
    }
    // The game goes on as if nothing had been tried.
    assert_eq!(game.submit_move(2, 2, Player::X), Ok(GameResult::InProgress));
}

#[test]
fn errors_come_in_a_fixed_order() {
    // X wins on the top row.
    let mut game = play(&[(0, 0), (1, 0), (0, 1), (1, 1), (0, 2)]);
    assert_eq!(game.get_outcome(), GameResult::Win(Player::X));
    // Off the board comes before game over.
    assert_eq!(game.submit_move(5, 5, Player::O), Err(MoveError::OutOfBounds));
    // Game over comes before wrong turn and occupied cell.
    assert_eq!(game.submit_move(2, 2, Player::X), Err(MoveError::GameOver));
    assert_eq!(game.submit_move(0, 0, Player::X), Err(MoveError::GameOver));
    assert_eq!(game.submit_move(2, 2, Player::O), Err(MoveError::GameOver));
    // Wrong turn comes before occupied cell.
    let mut game = play(&[(0, 0)]);
    assert_eq!(game.submit_move(0, 0, Player::X), Err(MoveError::WrongTurn));
    assert_eq!(game.submit_move(0, 0, Player::O), Err(MoveError::CellOccupied));
}

#[test]
fn winning_move_ends_the_game() {
    let mut game = play(&[(0, 0), (1, 0), (0, 1), (1, 1)]);
    assert_eq!(game.submit_move(0, 2, Player::X), Ok(GameResult::Win(Player::X)));
    assert!(game.game_over());
    assert_eq!(game.winner(), Some(Player::X));
    assert_eq!(game.get_outcome(), GameResult::Win(Player::X));
    assert_eq!(game.current_player(), Player::O);
    let board = game.get_board_snapshot();
    assert_eq!(game.submit_move(2, 2, Player::O), Err(MoveError::GameOver));
    assert_eq!(game.get_board_snapshot(), board);
    assert_eq!(game.current_player(), Player::O);
}

#[test]
fn second_player_can_win() {
    let mut game = play(&[(0, 0), (1, 1), (0, 1), (0, 2), (2, 2)]);
    assert_eq!(game.submit_move(2, 0, Player::O), Ok(GameResult::Win(Player::O)));
    assert_eq!(game.winner(), Some(Player::O));
}

#[test]
fn full_board_without_line_is_a_draw() {
    let mut game = play(&[(0, 0), (1, 1), (0, 1), (0, 2), (2, 0), (1, 0), (1, 2), (2, 1)]);
    assert_eq!(game.get_outcome(), GameResult::InProgress);
    assert_eq!(game.submit_move(2, 2, Player::X), Ok(GameResult::Draw));
    assert!(game.game_over());
    assert_eq!(game.winner(), None);
    assert_eq!(game.submit_move(2, 2, Player::O), Err(MoveError::GameOver));
}

#[test]
fn last_cell_can_win() {
    let mut game = play(&[(0, 0), (0, 1), (0, 2), (1, 0), (1, 2), (1, 1), (2, 1), (2, 2)]);
    assert_eq!(game.get_board_snapshot(), grid(["XOX", "OOX", "_XO"]));
    assert_eq!(game.submit_move(2, 0, Player::X), Ok(GameResult::Draw));
    let mut game = play(&[(0, 0), (0, 1), (1, 1), (0, 2), (1, 2), (1, 0), (2, 1), (2, 0)]);
    assert_eq!(game.get_board_snapshot(), grid(["XOO", "OXX", "OX_"]));
    assert_eq!(game.submit_move(2, 2, Player::X), Ok(GameResult::Win(Player::X)));
}

#[test]
fn reset_gives_a_new_game() {
    let mut game = play(&[(0, 0), (1, 0), (0, 1), (1, 1), (0, 2)]);
    assert!(game.game_over());
    game.reset();
    assert_eq!(game.get_board_snapshot(), grid(["___", "___", "___"]));
    assert_eq!(game.get_outcome(), GameResult::InProgress);
    assert_eq!(game.current_player(), Player::X);
    assert_eq!(game.winner(), None);
    assert!(!game.game_over());
    assert_eq!(game.submit_move(1, 1, Player::X), Ok(GameResult::InProgress));
    // Resetting in the middle of a game, with O to move, does the same.
    game.reset();
    assert_eq!(game.get_board_snapshot(), grid(["___", "___", "___"]));
    assert_eq!(game.current_player(), Player::X);
    assert_eq!(game.get_outcome(), GameResult::InProgress);
}

#[test]
fn snapshot_is_a_copy() {
    let mut game = play(&[(0, 0)]);
    let mut snapshot = game.get_board_snapshot();
    snapshot[2][2] = Some(Player::O);
    assert_eq!(game.get_board_snapshot(), grid(["X__", "___", "___"]));
    assert_eq!(game.submit_move(2, 2, Player::O), Ok(GameResult::InProgress));
}

#[test]
fn cell_reads_the_board() {
    let game = play(&[(0, 0), (1, 1)]);
    assert_eq!(game.cell(0, 0), Some(CellState::Occupied(Player::X)));
    assert_eq!(game.cell(1, 1), Some(CellState::Occupied(Player::O)));
    assert_eq!(game.cell(2, 2), Some(CellState::Empty));
    assert_eq!(game.cell(3, 0), None);
    assert_eq!(game.cell(0, 3), None);
}

#[test]
fn awaits_move_from_the_player_to_move() {
    let mut game = BoardState::new();
    assert!(game.awaits_move_from(Player::X));
    assert!(!game.awaits_move_from(Player::O));
    assert!(game.submit_move(0, 0, Player::X).is_ok());
    assert!(game.awaits_move_from(Player::O));
    assert!(!game.awaits_move_from(Player::X));
    let game = play(&[(0, 0), (1, 0), (0, 1), (1, 1), (0, 2)]);
    assert!(!game.awaits_move_from(Player::X));
    assert!(!game.awaits_move_from(Player::O));
}

#[test]
fn automated_move_does_not_touch_the_game() {
    let game = play(&[(0, 0), (0, 1)]);
    let mut rng = SeededRng::new(7);
    let board = game.get_board_snapshot();
    let choice = game.request_automated_move(Difficulty::Hard, &mut rng);
    assert!(choice.is_some());
    assert_eq!(game.get_board_snapshot(), board);
    assert_eq!(game.current_player(), Player::X);
    assert_eq!(rng, SeededRng::new(7));
}

#[test]
fn automated_move_is_the_searched_move() {
    let game = play(&[(0, 0), (1, 1), (0, 1)]);
    let mut rng = SeededRng::new(3);
    // O must block the top row.
    assert_eq!(
        game.request_automated_move(Difficulty::Hard, &mut rng),
        Some(BoardMove { row: 0, col: 2 })
    );
    assert_eq!(
        game.request_automated_move(Difficulty::Medium, &mut rng),
        Some(BoardMove { row: 0, col: 2 })
    );
    assert_eq!(rng, SeededRng::new(3));
    for difficulty in [Difficulty::Medium, Difficulty::Hard] {
        assert_eq!(
            game.request_automated_move(difficulty, &mut rng),
            best_move(&game.get_board_snapshot(), Player::O, search_depth(difficulty))
        );
    }
}

#[test]
fn automated_move_after_the_end_is_none() {
    let won = play(&[(0, 0), (1, 0), (0, 1), (1, 1), (0, 2)]);
    let drawn = play(&[(0, 0), (1, 1), (0, 1), (0, 2), (2, 0), (1, 0), (1, 2), (2, 1), (2, 2)]);
    for game in [&won, &drawn] {
        for difficulty in [Difficulty::Easy, Difficulty::Medium, Difficulty::Hard] {
            let mut rng = SeededRng::new(1);
            assert_eq!(game.request_automated_move(difficulty, &mut rng), None);
            assert_eq!(rng, SeededRng::new(1));
        }
    }
}

#[test]
fn automated_moves_are_always_accepted() {
    for seed in 0..40u64 {
        for difficulty in [Difficulty::Easy, Difficulty::Medium, Difficulty::Hard] {
            let mut rng = SeededRng::new(seed);
            let mut game = BoardState::new();
            let mut plies: u32 = 0;
            while !game.game_over() {
                let mark = game.current_player();
                let m = game
                    .request_automated_move(difficulty, &mut rng)
                    .expect("a move while the game is on");
                assert!(game.submit_move(m.row, m.col, mark).is_ok());
                plies += 1;
            }
            assert!(plies <= 9);
            assert_eq!(game.request_automated_move(difficulty, &mut rng), None);
        }
    }
}

#[test]
fn two_hard_players_draw_through_the_engine() {
    let mut rng = SeededRng::new(0);
    let mut game = BoardState::new();
    let mut last = GameResult::InProgress;
    while !game.game_over() {
        let mark = game.current_player();
        let m = game
            .request_automated_move(Difficulty::Hard, &mut rng)
            .expect("a move while the game is on");
        last = game.submit_move(m.row, m.col, mark).expect("an accepted move");
    }
    assert_eq!(last, GameResult::Draw);
    assert_eq!(game.get_outcome(), GameResult::Draw);
    assert_eq!(game.get_board_snapshot(), grid(["XXO", "OOX", "XOX"]));
    assert_eq!(rng, SeededRng::new(0));
}

#[test]
fn hard_beats_a_careless_opponent() {
    // X ignores O's threats.
    let mut rng = SeededRng::new(0);
    let mut game = play(&[(0, 0)]);
    let m = game.request_automated_move(Difficulty::Hard, &mut rng).expect("a move");
    assert_eq!(m, BoardMove { row: 1, col: 1 });
    assert!(game.submit_move(m.row, m.col, Player::O).is_ok());
    assert!(game.submit_move(0, 1, Player::X).is_ok());
    let m = game.request_automated_move(Difficulty::Hard, &mut rng).expect("a move");
    assert_eq!(m, BoardMove { row: 0, col: 2 });
    assert!(game.submit_move(m.row, m.col, Player::O).is_ok());
    assert!(game.submit_move(1, 0, Player::X).is_ok());
    let m = game.request_automated_move(Difficulty::Hard, &mut rng).expect("a move");
    assert_eq!(m, BoardMove { row: 2, col: 0 });
    assert_eq!(
        game.submit_move(m.row, m.col, Player::O),
        Ok(GameResult::Win(Player::O))
    );
}

#[test]
fn tiers_have_fixed_parameters() {
    assert_eq!(search_depth(Difficulty::Easy), 1);
    assert_eq!(search_depth(Difficulty::Medium), 3);
    assert_eq!(search_depth(Difficulty::Hard), 9);
    assert_eq!(random_percent(Difficulty::Easy), 80);
    assert_eq!(random_percent(Difficulty::Medium), 0);
    assert_eq!(random_percent(Difficulty::Hard), 0);
    assert_eq!(EASY_AI_DEPTH, 1);
    assert_eq!(MEDIUM_AI_DEPTH, 3);
    assert_eq!(HARD_AI_DEPTH, 9);
    assert_eq!(EASY_AI_RANDOM_PERCENT, 80);
}

#[test]
fn generator_yields_known_numbers() {
    let mut rng = SeededRng::new(0);
    assert_eq!(rng.next_below(100), 0);
    assert_eq!(rng.state, 12345);
    let mut rng = SeededRng::new(1);
    assert_eq!(rng.next_below(100), 38);
    assert_eq!(rng.state, 1103527590);
    assert_eq!(rng.next_below(7), 4);
    assert_eq!(rng.state, 377401575);
    let mut rng = SeededRng::new(11);
    assert_eq!(rng.next_below(100), 81);
    assert_eq!(rng.state, 1401261800);
    // Only the low 31 bits of the state count.
    let mut rng = SeededRng::new(0x8000_0000 + 1);
    assert_eq!(rng.next_below(100), 38);
    let mut rng = SeededRng::new(u64::MAX);
    assert!(rng.next_below(1) == 0);
    assert!(rng.state < 0x8000_0000);
}

#[test]
fn generator_is_replayed_from_its_seed() {
    for seed in [0u64, 1, 42, 0xdead_beef, u64::MAX] {
        let mut a = SeededRng::new(seed);
        let mut b = SeededRng::new(seed);
        for bound in 1..60u32 {
            let x = a.next_below(bound);
            assert!(x < bound);
            assert_eq!(x, b.next_below(bound));
        }
        assert_eq!(a, b);
    }
}

#[test]
fn first_empty_cell_scans_row_major() {
    assert_eq!(
        first_empty_cell(&grid(["___", "___", "___"])),
        Some(BoardMove { row: 0, col: 0 })
    );
    assert_eq!(
        first_empty_cell(&grid(["XOX", "O__", "___"])),
        Some(BoardMove { row: 1, col: 1 })
    );
    assert_eq!(
        first_empty_cell(&grid(["XOX", "XOO", "OX_"])),
        Some(BoardMove { row: 2, col: 2 })
    );
    assert_eq!(first_empty_cell(&grid(["XOX", "XOO", "OXX"])), None);
}

#[test]
fn random_empty_cell_picks_by_rank() {
    // Seven empty cells; the generator started at 1103527590 draws 4.
    let board = grid(["X__", "_O_", "___"]);
    let mut rng = SeededRng::new(1103527590);
    assert_eq!(random_empty_cell(&board, &mut rng), Some(BoardMove { row: 2, col: 0 }));
    assert_eq!(rng.state, 377401575);
    // One empty cell: it is picked, and the generator still advances.
    let board = grid(["XOX", "XOO", "O_X"]);
    let mut rng = SeededRng::new(5);
    assert_eq!(random_empty_cell(&board, &mut rng), Some(BoardMove { row: 2, col: 1 }));
    assert_eq!(rng.state, 1222621274);
    // No empty cell: nothing is picked, nothing drawn.
    let board = grid(["XOX", "XOO", "OXX"]);
    let mut rng = SeededRng::new(5);
    assert_eq!(random_empty_cell(&board, &mut rng), None);
    assert_eq!(rng.state, 5);
}

#[test]
fn random_empty_cell_is_always_empty() {
    let board = grid(["XO_", "_X_", "O__"]);
    let mut seen: [bool; 9] = [false; 9];
    for seed in 0..200u64 {
        let mut rng = SeededRng::new(seed);
        let m = random_empty_cell(&board, &mut rng).expect("an empty cell");
        assert!(board[m.row][m.col].is_none());
        seen[3 * m.row + m.col] = true;
    }
    // Every empty cell comes up for some seed.
    for i in 0..9usize {
        assert_eq!(seen[i], board[i / 3][i % 3].is_none());
    }
}

#[test]
fn easy_tier_moves_at_random_on_a_low_roll() {
    // Seed 1 rolls 38, below 80: a random cell, two draws in all.
    let board = grid(["X__", "_O_", "___"]);
    let mut rng = SeededRng::new(1);
    assert_eq!(
        choose_move(&board, Player::X, Difficulty::Easy, &mut rng),
        Some(BoardMove { row: 2, col: 0 })
    );
    assert_eq!(rng.state, 377401575);
    // The random move passes over a win on the spot.
    let board = grid(["OO_", "XX_", "___"]);
    let mut rng = SeededRng::new(1);
    assert_eq!(
        choose_move(&board, Player::O, Difficulty::Easy, &mut rng),
        Some(BoardMove { row: 2, col: 1 })
    );
}

#[test]
fn easy_tier_searches_one_ply_on_a_high_roll() {
    // Seed 11 rolls 81, not below 80: a search of one ply, one draw in all.
    let board = grid(["OO_", "XX_", "___"]);
    let mut rng = SeededRng::new(11);
    assert_eq!(
        choose_move(&board, Player::O, Difficulty::Easy, &mut rng),
        Some(BoardMove { row: 0, col: 2 })
    );
    assert_eq!(rng.state, 1401261800);
    // One ply does not see the opponent's threat.
    let board = grid(["___", "XX_", "O__"]);
    let mut rng = SeededRng::new(11);
    assert_eq!(
        choose_move(&board, Player::O, Difficulty::Easy, &mut rng),
        Some(BoardMove { row: 0, col: 0 })
    );
    assert_eq!(rng.state, 1401261800);
}

#[test]
fn medium_and_hard_tiers_never_draw_numbers() {
    let board = grid(["___", "XX_", "O__"]);
    for seed in [0u64, 1, 11, 99] {
        for difficulty in [Difficulty::Medium, Difficulty::Hard] {
            let mut rng = SeededRng::new(seed);
            assert_eq!(
                choose_move(&board, Player::O, difficulty, &mut rng),
                Some(BoardMove { row: 1, col: 2 })
            );
            assert_eq!(rng.state, seed);
        }
    }
}

#[test]
fn choose_move_on_full_board_is_none() {
    let board = grid(["XOX", "XOO", "OXX"]);
    for seed in [1u64, 11] {
        for difficulty in [Difficulty::Easy, Difficulty::Medium, Difficulty::Hard] {
            let mut rng = SeededRng::new(seed);
            assert_eq!(choose_move(&board, Player::X, difficulty, &mut rng), None);
        }
    }
    // The easy tier has rolled, and drawn no cell.
    let mut rng = SeededRng::new(1);
    assert_eq!(choose_move(&board, Player::X, Difficulty::Easy, &mut rng), None);
    assert_eq!(rng.state, 1103527590);
    let mut rng = SeededRng::new(1);
    assert_eq!(choose_move(&board, Player::X, Difficulty::Hard, &mut rng), None);
    assert_eq!(rng.state, 1);
}

#[test]
fn easy_tier_is_random_about_four_times_in_five() {
    let mut random: u32 = 0;
    let total: u32 = 2000;
    for seed in 0..2000u64 {
        let mut rng = SeededRng::new(seed.wrapping_mul(7919).wrapping_add(17));
        if rng.next_below(100) < random_percent(Difficulty::Easy) {
            random += 1;
        }
    }
    assert!(random * 100 > total * 70);
    assert!(random * 100 < total * 90);
}

#[test]
fn stats_count_each_outcome() {
    let mut stats = GameStats::default();
    assert_eq!(
        stats,
        GameStats { x_wins: 0, o_wins: 0, draws: 0, total_games: 0 }
    );
    stats.record(Some(Player::X));
    stats.record(Some(Player::O));
    stats.record(Some(Player::X));
    stats.record(None);
    assert_eq!(
        stats,
        GameStats { x_wins: 2, o_wins: 1, draws: 1, total_games: 4 }
    );
}

#[test]
fn events_carry_plain_values() {
    let m = BoardMove { row: 2, col: 1 };
    let event = PlayerMoveEvent { position: (m.row, m.col) };
    assert_eq!(event.position, (2, 1));
    let game = play(&[(0, 0), (1, 0), (0, 1), (1, 1), (0, 2)]);
    assert_eq!(
        GameOverEvent::for_outcome(game.get_outcome()),
        Some(GameOverEvent { winner: Some(Player::X) })
    );
    assert_eq!(GameOverEvent::for_outcome(BoardState::new().get_outcome()), None);
}

#[test]
fn mode_and_difficulty_holders() {
    let mode = CurrentGameMode(GameMode::default());
    assert_eq!(mode.0, GameMode::HumanVsAI);
    let difficulty = CurrentAIDifficulty(Difficulty::Hard);
    assert_eq!(difficulty.0, Difficulty::Hard);
}
