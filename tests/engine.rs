use tetris::board::{new_empty_board, BOARD_HEIGHT, BOARD_WIDTH};
use tetris::game::{GameState, GameStateEvent};
use tetris::piece::{rotated_shape, Piece, PieceType};

const ALL_TYPES: [PieceType; 7] = [
    PieceType::I,
    PieceType::O,
    PieceType::T,
    PieceType::S,
    PieceType::Z,
    PieceType::J,
    PieceType::L,
];

fn game_with(current: PieceType, next: PieceType) -> GameState {
    GameState {
        board: new_empty_board(),
        current_piece: Piece::spawn(current),
        next_piece: Piece::spawn(next),
        score: 0,
        is_paused: false,
        is_game_over: false,
    }
}

fn full_row() -> Vec<u8> {
    vec![1; BOARD_WIDTH]
}

#[test]
fn new_game_is_fresh() {
    let g = GameState::new();
    assert_eq!(g.board.len(), BOARD_HEIGHT);
    assert!(g.board.iter().all(|row| row.len() == BOARD_WIDTH && row.iter().all(|&c| c == 0)));
    assert_eq!(g.score, 0);
    assert!(!g.is_paused);
    assert!(!g.is_game_over);
    assert_eq!((g.current_piece.x, g.current_piece.y), (4, 0));
    assert_eq!((g.next_piece.x, g.next_piece.y), (4, 0));
}

#[test]
fn spawned_pieces_fit_empty_board() {
    for t in ALL_TYPES {
        let g = game_with(t, PieceType::O);
        assert!(!g.is_collision());
    }
}

#[test]
fn spawn_shapes_and_colors() {
    assert_eq!(Piece::spawn(PieceType::I).shape, vec![vec![0, 0, 0, 0], vec![1, 1, 1, 1], vec![0, 0, 0, 0], vec![0, 0, 0, 0]]);
    assert_eq!(Piece::spawn(PieceType::O).shape, vec![vec![2, 2], vec![2, 2]]);
    assert_eq!(Piece::spawn(PieceType::L).shape, vec![vec![0, 0, 7], vec![7, 7, 7], vec![0, 0, 0]]);
    assert_eq!(PieceType::from_index(0), PieceType::I);
    assert_eq!(PieceType::from_index(3), PieceType::S);
    assert_eq!(PieceType::from_index(6), PieceType::L);
}

#[test]
fn move_round_trip_on_open_board() {
    let mut g = game_with(PieceType::T, PieceType::O);
    g.move_piece(2, 3);
    assert_eq!((g.current_piece.x, g.current_piece.y), (6, 3));
    g.move_piece(-2, -3);
    assert_eq!((g.current_piece.x, g.current_piece.y), (4, 0));
}

#[test]
fn move_into_wall_is_rejected() {
    let mut g = game_with(PieceType::O, PieceType::O);
    g.move_piece(-5, 0);
    assert_eq!((g.current_piece.x, g.current_piece.y), (4, 0));
    g.move_piece(4, 0);
    assert_eq!((g.current_piece.x, g.current_piece.y), (8, 0));
    g.move_piece(1, 0);
    assert_eq!((g.current_piece.x, g.current_piece.y), (8, 0));
}

#[test]
fn move_above_board_is_allowed() {
    let mut g = game_with(PieceType::O, PieceType::O);
    g.move_piece(0, -5);
    assert_eq!(g.current_piece.y, -5);
}

#[test]
fn rotate_four_times_restores_shape() {
    for t in ALL_TYPES {
        let mut g = game_with(t, PieceType::O);
        g.move_piece(0, 5);
        let original = g.current_piece.shape.clone();
        for _ in 0..4 {
            g.rotate_piece();
        }
        assert_eq!(g.current_piece.shape, original);
    }
}

#[test]
fn rotate_turns_clockwise() {
    let s = vec![vec![1, 2, 3], vec![4, 5, 6]];
    assert_eq!(rotated_shape(&s), vec![vec![4, 1], vec![5, 2], vec![6, 3]]);
    let mut g = game_with(PieceType::T, PieceType::O);
    g.rotate_piece();
    assert_eq!(g.current_piece.shape, vec![vec![0, 3, 0], vec![0, 3, 3], vec![0, 3, 0]]);
    assert_eq!((g.current_piece.x, g.current_piece.y), (4, 0));
}

#[test]
fn rotate_blocked_by_wall_is_discarded() {
    let mut g = game_with(PieceType::I, PieceType::O);
    g.rotate_piece();
    g.move_piece(-6, 0);
    assert_eq!(g.current_piece.x, -2);
    let vertical = g.current_piece.shape.clone();
    g.rotate_piece();
    assert_eq!(g.current_piece.shape, vertical);
}

#[test]
fn clear_lines_removes_complete_rows() {
    let mut g = game_with(PieceType::O, PieceType::O);
    let mut mixed = vec![0; BOARD_WIDTH];
    mixed[3] = 5;
    g.board[17] = full_row();
    g.board[18] = mixed.clone();
    g.board[19] = full_row();
    let n = g.clear_lines();
    assert_eq!(n, 2);
    assert_eq!(g.board.len(), BOARD_HEIGHT);
    assert_eq!(g.board[0], vec![0; BOARD_WIDTH]);
    assert_eq!(g.board[1], vec![0; BOARD_WIDTH]);
    assert_eq!(g.board[19], mixed);
    assert!(g.board[..19].iter().all(|row| row.iter().all(|&c| c == 0)));
}

#[test]
fn clear_lines_on_empty_board() {
    let mut g = game_with(PieceType::O, PieceType::O);
    assert_eq!(g.clear_lines(), 0);
    assert_eq!(g.board, new_empty_board());
}

#[test]
fn merge_piece_copies_occupied_cells() {
    let mut g = game_with(PieceType::T, PieceType::O);
    g.current_piece.y = 18;
    g.merge_piece();
    assert_eq!(g.board[18][5], 3);
    assert_eq!(g.board[19][4], 3);
    assert_eq!(g.board[19][5], 3);
    assert_eq!(g.board[19][6], 3);
    assert_eq!(g.board[18][4], 0);
    assert_eq!(g.board[18][6], 0);
}

#[test]
fn one_cleared_row_scores_one_hundred() {
    let mut g = game_with(PieceType::I, PieceType::O);
    let mut row = full_row();
    for c in 4..8 {
        row[c] = 0;
    }
    g.board[19] = row;
    g.hard_drop();
    assert_eq!(g.score, 100);
    assert_eq!(g.board[19], vec![0; BOARD_WIDTH]);
}

#[test]
fn hard_drop_lands_on_floor_and_advances() {
    let mut g = game_with(PieceType::O, PieceType::T);
    g.hard_drop();
    assert_eq!(g.board[18][4], 2);
    assert_eq!(g.board[18][5], 2);
    assert_eq!(g.board[19][4], 2);
    assert_eq!(g.board[19][5], 2);
    assert_eq!(g.board[17][4], 0);
    assert_eq!(g.score, 0);
    assert_eq!(g.current_piece.shape, Piece::spawn(PieceType::T).shape);
    assert_eq!((g.current_piece.x, g.current_piece.y), (4, 0));
}

#[test]
fn hard_drop_vertical_piece_touches_floor() {
    let mut g = game_with(PieceType::I, PieceType::O);
    g.rotate_piece();
    g.hard_drop();
    for r in 16..20 {
        assert_eq!(g.board[r][6], 1);
    }
    assert_eq!(g.board[15][6], 0);
}

#[test]
fn random_pieces_cover_all_shapes() {
    let mut counts = [0usize; 7];
    for _ in 0..1000 {
        let p = GameState::generate_random_piece();
        assert_eq!((p.x, p.y), (4, 0));
        let i = ALL_TYPES.iter().position(|&t| Piece::spawn(t).shape == p.shape).unwrap();
        counts[i] += 1;
    }
    for c in counts {
        assert!(c > 70 && c < 230, "counts {:?}", counts);
    }
}

#[test]
fn toggle_pause_twice_restores_flag() {
    let mut g = game_with(PieceType::O, PieceType::O);
    g.toggle_pause();
    assert!(g.is_paused);
    g.toggle_pause();
    assert!(!g.is_paused);
}

#[test]
fn step_while_paused_changes_nothing() {
    let mut g = game_with(PieceType::S, PieceType::Z);
    g.board[19][0] = 3;
    g.toggle_pause();
    let events = g.update();
    assert!(events.is_empty());
    assert_eq!(g.current_piece.y, 0);
    assert_eq!(g.current_piece.shape, Piece::spawn(PieceType::S).shape);
    assert_eq!(g.next_piece.shape, Piece::spawn(PieceType::Z).shape);
    assert_eq!(g.board[19][0], 3);
    assert_eq!(g.score, 0);
}

#[test]
fn step_moves_piece_down() {
    let mut g = game_with(PieceType::S, PieceType::Z);
    let events = g.update();
    assert_eq!(events, vec![GameStateEvent::Continue]);
    assert_eq!(g.current_piece.y, 1);
}

#[test]
fn step_locks_piece_without_clear() {
    let mut g = game_with(PieceType::O, PieceType::J);
    g.current_piece.y = 18;
    let events = g.update();
    assert_eq!(events, vec![GameStateEvent::Continue]);
    assert_eq!(g.board[19][4], 2);
    assert_eq!(g.current_piece.shape, Piece::spawn(PieceType::J).shape);
    assert_eq!(g.current_piece.y, 0);
}

#[test]
fn three_rows_cleared_in_one_merge() {
    let mut g = game_with(PieceType::I, PieceType::O);
    for r in 17..20 {
        let mut row = full_row();
        row[9] = 0;
        g.board[r] = row;
    }
    g.rotate_piece();
    g.move_piece(3, 0);
    assert_eq!(g.current_piece.x, 7);
    let mut last = Vec::new();
    for _ in 0..17 {
        last = g.update();
    }
    assert_eq!(last, vec![GameStateEvent::LinesCleared(3)]);
    assert_eq!(g.score, 300);
    assert_eq!(g.board[19][9], 1);
    assert!(g.board[19][..9].iter().all(|&c| c == 0));
    assert!(!g.is_game_over);
}

#[test]
fn game_over_when_spawn_collides() {
    let mut g = game_with(PieceType::O, PieceType::O);
    g.score = 200;
    g.board[1][4] = 7;
    g.current_piece.y = 18;
    let events = g.update();
    assert_eq!(events, vec![GameStateEvent::GameOver(200)]);
    assert!(g.is_game_over);
    assert_eq!(g.board[1][4], 7);
    assert_eq!(g.board[19][4], 2);
}

#[test]
fn restart_resets_state() {
    let mut g = game_with(PieceType::O, PieceType::O);
    g.board[19][0] = 4;
    g.score = 500;
    g.is_paused = true;
    g.is_game_over = true;
    g.restart();
    assert_eq!(g.board, new_empty_board());
    assert_eq!(g.score, 0);
    assert!(!g.is_paused);
    assert!(!g.is_game_over);
}
