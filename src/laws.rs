use crate::board::{blocked, collides, empty_board, in_columns, BOARD_HEIGHT};
use crate::game::{
    game_wf, landing_row, lock_lines, lock_model, move_model, rotate_model, step_model, toggle_model,
    GameModel, GameStateEvent, POINTS_PER_ROW,
};
use crate::piece::{
    lemma_rotated_four_times, lemma_shape_of_wf, occupied, rotated, shape_of, shape_wf, PieceModel,
    PieceType, SPAWN_X, SPAWN_Y,
};
use vstd::prelude::*;

verus! {

/// Every shape, at the spawn offset, fits on an empty board.
pub proof fn lemma_spawn_fits_empty_board(t: PieceType)
    ensures
        !collides(empty_board(), shape_of(t), SPAWN_X as int, SPAWN_Y as int),
{
    lemma_shape_of_wf(t);
    let s = shape_of(t);
    assert forall|r: int, c: int| #[trigger] occupied(s, r, c) implies !blocked(
        empty_board(),
        SPAWN_X as int + c,
        SPAWN_Y as int + r,
    ) by {
        assert(s[r].len() == s[0].len());
    }
}

/// A move and the opposite move, each to a free spot, bring the falling
/// piece back where it was.
pub proof fn lemma_move_round_trip(s: GameModel, dx: int, dy: int)
    requires
        !collides(s.board, s.current.shape, s.current.x, s.current.y),
        !collides(s.board, s.current.shape, s.current.x + dx, s.current.y + dy),
    ensures
        move_model(move_model(s, dx, dy), -dx, -dy) == s,
{
    let m = move_model(s, dx, dy);
    assert(m.current.x + (-dx) == s.current.x);
    assert(m.current.y + (-dy) == s.current.y);
}

/// Four quarter turns, each to a free spot, give back the falling piece as it was.
pub proof fn lemma_rotate_four_times(s: GameModel)
    requires
        game_wf(s),
        !collides(s.board, rotated(s.current.shape), s.current.x, s.current.y),
        !collides(s.board, rotated(rotated(s.current.shape)), s.current.x, s.current.y),
        !collides(s.board, rotated(rotated(rotated(s.current.shape))), s.current.x, s.current.y),
        !collides(s.board, rotated(rotated(rotated(rotated(s.current.shape)))), s.current.x, s.current.y),
    ensures
        rotate_model(rotate_model(rotate_model(rotate_model(s)))) == s,
{
    lemma_rotated_four_times(s.current.shape);
}

/// Locking a piece adds exactly 100 points for each row it clears.
pub proof fn lemma_lock_score(s: GameModel, fresh: PieceModel)
    ensures
        lock_model(s, fresh).score == s.score + POINTS_PER_ROW * lock_lines(s),
{
}

/// A gravity step that locks the piece adds exactly 100 points for each
/// cleared row, and reports that count whenever it is not zero.
pub proof fn lemma_step_score(s: GameModel, fresh: PieceModel)
    requires
        !s.paused,
        collides(s.board, s.current.shape, s.current.x, s.current.y + 1),
    ensures
        step_model(s, fresh).0.score == s.score + POINTS_PER_ROW * lock_lines(s),
        lock_lines(s) > 0 ==> step_model(s, fresh).1[0] == GameStateEvent::LinesCleared(
            lock_lines(s) as usize,
        ),
{
}

/// On an empty board a piece dropped from a free spot comes to rest on the
/// floor: its lowest occupied row is the board's last row.
pub proof fn lemma_drop_lands_on_floor(s: Seq<Seq<u8>>, x: int, y: int)
    requires
        shape_wf(s),
        in_columns(s, x),
        !collides(empty_board(), s, x, y),
    ensures
        forall|r: int, c: int| #[trigger] occupied(s, r, c) ==> landing_row(empty_board(), s, x, y) + r
            < BOARD_HEIGHT,
        exists|r: int, c: int| #[trigger] occupied(s, r, c) && landing_row(empty_board(), s, x, y) + r
            == BOARD_HEIGHT - 1,
    decreases BOARD_HEIGHT - y,
{
    let b = empty_board();
    assert forall|r: int, c: int| #[trigger] occupied(s, r, c) implies y + r < BOARD_HEIGHT by {
        assert(!blocked(b, x + c, y + r));
    }
    let (r0, c0) = choose|r: int, c: int| #[trigger] occupied(s, r, c);
    if collides(b, s, x, y + 1) {
        let (r, c) = choose|r: int, c: int| #[trigger] occupied(s, r, c) && blocked(b, x + c, y + 1 + r);
        assert(landing_row(b, s, x, y + 1) == y);
    } else {
        lemma_drop_lands_on_floor(s, x, y + 1);
    }
}

/// Pausing twice leaves the state as it was.
pub proof fn lemma_toggle_pause_twice(s: GameModel)
    ensures
        toggle_model(toggle_model(s)) == s,
{
}

/// A gravity step while paused changes nothing and reports nothing.
pub proof fn lemma_paused_step(s: GameModel, fresh: PieceModel)
    requires
        s.paused,
    ensures
        step_model(s, fresh) == (s, Seq::<GameStateEvent>::empty()),
{
}

} // verus!
