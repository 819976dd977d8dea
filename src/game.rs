use crate::board::{
    blocked, board_wf, clear_full_rows, cleared, collides, empty_board, full_row_count, in_columns,
    merge_into, merged, new_empty_board, placement_collides, BOARD_HEIGHT,
};
use crate::piece::{
    lemma_rotated_wf, lemma_shape_of_wf, matrix_view, random_type_index, occupied, rotated, rotated_shape, shape_wf,
    spawn_model, Piece, PieceModel, PieceType,
};
use vstd::prelude::*;

verus! {

/// The whole state of a game: board, falling piece, preview piece, score
/// and the two flags.
pub struct GameState {
    pub board: Vec<Vec<u8>>,
    pub current_piece: Piece,
    pub next_piece: Piece,
    pub score: i32,
    pub is_paused: bool,
    pub is_game_over: bool,
}

/// What a gravity step reports to its caller.
#[derive(Clone, Copy, Debug, PartialEq, Eq, Structural)]
pub enum GameStateEvent {
    /// This many rows were cleared by the piece that locked.
    LinesCleared(usize),
    /// The piece that came in collides where it appears; the score then.
    GameOver(i32),
    /// Nothing else to report.
    Continue,
}

/// What a game state means.
pub struct GameModel {
    pub board: Seq<Seq<u8>>,
    pub current: PieceModel,
    pub next: PieceModel,
    pub score: int,
    pub paused: bool,
    pub over: bool,
}

impl View for GameState {
    type V = GameModel;

    open spec fn view(&self) -> GameModel {
        GameModel {
            board: matrix_view(self.board),
            current: self.current_piece@,
            next: self.next_piece@,
            score: self.score as int,
            paused: self.is_paused,
            over: self.is_game_over,
        }
    }
}

/// Points for each cleared row.
pub const POINTS_PER_ROW: i32 = 100;

/// A piece that may stand in play: a well-formed shape whose occupied cells
/// lie within the board's columns, not below the board's last row.
pub open spec fn piece_wf(p: PieceModel) -> bool {
    &&& shape_wf(p.shape)
    &&& in_columns(p.shape, p.x)
    &&& p.y < BOARD_HEIGHT
}

/// A well-formed game state.
pub open spec fn game_wf(s: GameModel) -> bool {
    &&& board_wf(s.board)
    &&& piece_wf(s.current)
    &&& piece_wf(s.next)
    &&& 0 <= s.score
}

/// Whether the falling piece collides where it stands.
pub open spec fn current_collides(s: GameModel) -> bool {
    collides(s.board, s.current.shape, s.current.x, s.current.y)
}

/// A fresh game with the two pieces given.
pub open spec fn fresh_model(current: PieceType, next: PieceType) -> GameModel {
    GameModel {
        board: empty_board(),
        current: spawn_model(current),
        next: spawn_model(next),
        score: 0,
        paused: false,
        over: false,
    }
}

/// The number of rows that locking the falling piece where it stands clears.
pub open spec fn lock_lines(s: GameModel) -> int {
    full_row_count(merged(s.board, s.current.shape, s.current.x, s.current.y))
}

/// Locks the falling piece where it stands: it is copied into the board,
/// full rows are cleared and scored, the preview piece falls next and
/// `fresh` becomes the preview.
pub open spec fn lock_model(s: GameModel, fresh: PieceModel) -> GameModel {
    GameModel {
        board: cleared(merged(s.board, s.current.shape, s.current.x, s.current.y)),
        current: s.next,
        next: fresh,
        score: s.score + POINTS_PER_ROW * lock_lines(s),
        ..s
    }
}

/// The state and events of a gravity step, with `fresh` as the preview piece
/// drawn if the falling piece locks.
pub open spec fn step_model(s: GameModel, fresh: PieceModel) -> (GameModel, Seq<GameStateEvent>) {
    if s.paused {
        (s, Seq::empty())
    } else if !collides(s.board, s.current.shape, s.current.x, s.current.y + 1) {
        (GameModel { current: PieceModel { y: s.current.y + 1, ..s.current }, ..s }, seq![GameStateEvent::Continue])
    } else {
        let t = lock_model(s, fresh);
        let n = lock_lines(s);
        let over = current_collides(t);
        let cleared_events = if n > 0 { seq![GameStateEvent::LinesCleared(n as usize)] } else { Seq::empty() };
        let over_events = if over { seq![GameStateEvent::GameOver(t.score as i32)] } else { Seq::empty() };
        let events = cleared_events + over_events;
        (
            GameModel { over: s.over || over, ..t },
            if events.len() == 0 { seq![GameStateEvent::Continue] } else { events },
        )
    }
}

/// The falling piece shifted by (`dx`, `dy`), unless it would collide there.
pub open spec fn move_model(s: GameModel, dx: int, dy: int) -> GameModel {
    if collides(s.board, s.current.shape, s.current.x + dx, s.current.y + dy) {
        s
    } else {
        GameModel { current: PieceModel { x: s.current.x + dx, y: s.current.y + dy, ..s.current }, ..s }
    }
}

/// The falling piece turned a quarter clockwise in place, unless it would
/// collide so.
pub open spec fn rotate_model(s: GameModel) -> GameModel {
    if collides(s.board, rotated(s.current.shape), s.current.x, s.current.y) {
        s
    } else {
        GameModel { current: PieceModel { shape: rotated(s.current.shape), ..s.current }, ..s }
    }
}

/// The row at which a shape dropped from row `y` comes to rest: one above
/// the first row from `y` down at which it collides.
pub open spec fn landing_row(b: Seq<Seq<u8>>, s: Seq<Seq<u8>>, x: int, y: int) -> int
    decreases BOARD_HEIGHT - y,
{
    if collides(b, s, x, y) {
        y - 1
    } else if y >= BOARD_HEIGHT {
        y
    } else {
        landing_row(b, s, x, y + 1)
    }
}

/// The falling piece dropped as far as it goes, then locked, with `fresh` as
/// the new preview piece.
pub open spec fn drop_model(s: GameModel, fresh: PieceModel) -> GameModel {
    let yf = landing_row(s.board, s.current.shape, s.current.x, s.current.y);
    lock_model(GameModel { current: PieceModel { y: yf, ..s.current }, ..s }, fresh)
}

/// The state with the pause flag flipped.
pub open spec fn toggle_model(s: GameModel) -> GameModel {
    GameModel { paused: !s.paused, ..s }
}

/// A piece in a spot where it does not collide lies within the board's
/// columns and above its bottom edge.
pub proof fn lemma_free_placement(b: Seq<Seq<u8>>, s: Seq<Seq<u8>>, x: int, y: int)
    requires
        shape_wf(s),
        !collides(b, s, x, y),
    ensures
        in_columns(s, x),
        y < BOARD_HEIGHT,
        forall|r: int, c: int| #[trigger] occupied(s, r, c) ==> y + r < BOARD_HEIGHT,
{
    assert forall|r: int, c: int| #[trigger] occupied(s, r, c) implies 0 <= x + c < 10 && y + r
        < BOARD_HEIGHT by {
        assert(!blocked(b, x + c, y + r));
    }
    let (r, c) = choose|r: int, c: int| #[trigger] occupied(s, r, c);
}

/// A piece in play that collides stands no higher than three rows above
/// the board.
pub proof fn lemma_colliding_row(b: Seq<Seq<u8>>, s: Seq<Seq<u8>>, x: int, y: int)
    requires
        shape_wf(s),
        in_columns(s, x),
        collides(b, s, x, y),
    ensures
        y >= -3,
{
    let (r, c) = choose|r: int, c: int| #[trigger] occupied(s, r, c) && blocked(b, x + c, y + r);
}

/// Every spawned piece may stand in play.
pub proof fn lemma_spawn_wf(t: PieceType)
    ensures
        piece_wf(spawn_model(t)),
{
    lemma_shape_of_wf(t);
}

impl GameState {
    /// A well-formed game state.
    pub open spec fn wf(&self) -> bool {
        game_wf(self@)
    }

    /// A piece of one of the seven shapes, drawn at random with equal
    /// chances, at the spawn offset.
    pub fn generate_random_piece() -> (p: Piece)
        ensures
            exists|t: PieceType| p@ == #[trigger] spawn_model(t),
            piece_wf(p@),
    {
        let i = random_type_index();
        let t = PieceType::from_index(i);
        let p = Piece::spawn(t);
        proof {
            lemma_spawn_wf(t);
        }
        p
    }

    /// A fresh game: empty board, two random pieces, score 0, flags cleared.
    pub fn new() -> (g: GameState)
        ensures
            g.wf(),
            exists|a: PieceType, b: PieceType| g@ == #[trigger] fresh_model(a, b),
    {
        let board = new_empty_board();
        let current_piece = Self::generate_random_piece();
        let next_piece = Self::generate_random_piece();
        let g = GameState { board, current_piece, next_piece, score: 0, is_paused: false, is_game_over: false };
        proof {
            let a = choose|t: PieceType| current_piece@ == #[trigger] spawn_model(t);
            let b = choose|t: PieceType| next_piece@ == #[trigger] spawn_model(t);
            assert(g@ == fresh_model(a, b));
        }
        g
    }

    /// Puts the game back to a fresh state: empty board, two new random
    /// pieces, score 0, flags cleared.
    pub fn restart(&mut self)
        ensures
            final(self).wf(),
            exists|a: PieceType, b: PieceType| final(self)@ == #[trigger] fresh_model(a, b),
    {
        *self = Self::new();
    }

    /// Whether the falling piece collides where it stands.
    pub fn is_collision(&self) -> (r: bool)
        requires
            board_wf(self@.board),
            shape_wf(self@.current.shape),
        ensures
            r == current_collides(self@),
    {
        placement_collides(&self.board, &self.current_piece.shape, self.current_piece.x, self.current_piece.y)
    }

    /// Copies the falling piece's occupied cells into the board where it stands.
    pub fn merge_piece(&mut self)
        requires
            old(self).wf(),
        ensures
            final(self)@ == (GameModel {
                board: merged(old(self)@.board, old(self)@.current.shape, old(self)@.current.x, old(self)@.current.y),
                ..old(self)@
            }),
            board_wf(final(self)@.board),
    {
        merge_into(&mut self.board, &self.current_piece.shape, self.current_piece.x, self.current_piece.y);
    }

    /// Removes the full rows of the board, puts as many empty rows on top,
    /// and returns how many were removed.
    pub fn clear_lines(&mut self) -> (n: usize)
        requires
            board_wf(old(self)@.board),
        ensures
            final(self)@ == (GameModel { board: cleared(old(self)@.board), ..old(self)@ }),
            n == full_row_count(old(self)@.board),
            n <= BOARD_HEIGHT,
            board_wf(final(self)@.board),
    {
        clear_full_rows(&mut self.board)
    }

    /// Locks the falling piece where it stands, with `fresh` as the new
    /// preview piece; returns the number of rows cleared.
    fn lock_piece(&mut self, fresh: Piece) -> (n: usize)
        requires
            old(self).wf(),
            piece_wf(fresh@),
            old(self).score <= i32::MAX - POINTS_PER_ROW * BOARD_HEIGHT,
        ensures
            final(self)@ == lock_model(old(self)@, fresh@),
            n == lock_lines(old(self)@),
            final(self).wf(),
    {
        self.merge_piece();
        let n = self.clear_lines();
        self.score = self.score + n as i32 * POINTS_PER_ROW;
        let mut fresh = fresh;
        std::mem::swap(&mut self.next_piece, &mut fresh);
        self.current_piece = fresh;
        n
    }

    /// One gravity step; see `step_model`. While paused nothing changes and
    /// no event is reported.
    pub fn update(&mut self) -> (events: Vec<GameStateEvent>)
        requires
            old(self).wf(),
            old(self).score <= i32::MAX - POINTS_PER_ROW * BOARD_HEIGHT,
        ensures
            final(self).wf(),
            exists|t: PieceType| (final(self)@, events@) == step_model(old(self)@, #[trigger] spawn_model(t)),
    {
        let ghost s0 = self@;
        let mut events: Vec<GameStateEvent> = Vec::new();
        if self.is_paused {
            assert((self@, events@) == step_model(s0, spawn_model(PieceType::I)));
            return events;
        }
        self.current_piece.y = self.current_piece.y + 1;
        if self.is_collision() {
            self.current_piece.y = self.current_piece.y - 1;
            assert(self@ == s0);
            let fresh = Self::generate_random_piece();
            let ghost t = choose|t: PieceType| fresh@ == #[trigger] spawn_model(t);
            let lines_cleared = self.lock_piece(fresh);
            if lines_cleared > 0 {
                events.push(GameStateEvent::LinesCleared(lines_cleared));
            }
            if self.is_collision() {
                events.push(GameStateEvent::GameOver(self.score));
                self.is_game_over = true;
            }
            if events.len() == 0 {
                events.push(GameStateEvent::Continue);
            }
            let ghost expected = step_model(s0, spawn_model(t));
            assert(self@ == expected.0);
            assert(events@ =~= expected.1);
        } else {
            proof {
                lemma_free_placement(self@.board, self@.current.shape, self@.current.x, self@.current.y);
            }
            events.push(GameStateEvent::Continue);
            assert(events@ =~= seq![GameStateEvent::Continue]);
            assert((self@, events@) == step_model(s0, spawn_model(PieceType::I)));
        }
        events
    }

    /// Shifts the falling piece by (`dx`, `dy`) unless it would collide there.
    pub fn move_piece(&mut self, dx: i32, dy: i32)
        requires
            old(self).wf(),
            i32::MIN <= old(self).current_piece.x + dx <= i32::MAX,
            i32::MIN <= old(self).current_piece.y + dy <= i32::MAX,
        ensures
            final(self).wf(),
            final(self)@ == move_model(old(self)@, dx as int, dy as int),
    {
        self.current_piece.x = self.current_piece.x + dx;
        self.current_piece.y = self.current_piece.y + dy;
        if self.is_collision() {
            self.current_piece.x = self.current_piece.x - dx;
            self.current_piece.y = self.current_piece.y - dy;
        } else {
            proof {
                lemma_free_placement(self@.board, self@.current.shape, self@.current.x, self@.current.y);
            }
        }
    }

    /// Turns the falling piece a quarter clockwise in place unless it would
    /// collide so.
    pub fn rotate_piece(&mut self)
        requires
            old(self).wf(),
        ensures
            final(self).wf(),
            final(self)@ == rotate_model(old(self)@),
    {
        proof {
            lemma_rotated_wf(self@.current.shape);
        }
        let new_shape = rotated_shape(&self.current_piece.shape);
        if !placement_collides(&self.board, &new_shape, self.current_piece.x, self.current_piece.y) {
            proof {
                lemma_free_placement(self@.board, matrix_view(new_shape), self@.current.x, self@.current.y);
            }
            self.current_piece.shape = new_shape;
        }
    }

    /// Drops the falling piece as far as it goes and locks it there; a new
    /// preview piece is drawn. No game-over check is made.
    pub fn hard_drop(&mut self)
        requires
            old(self).wf(),
            old(self).score <= i32::MAX - POINTS_PER_ROW * BOARD_HEIGHT,
        ensures
            final(self).wf(),
            exists|t: PieceType| final(self)@ == drop_model(old(self)@, #[trigger] spawn_model(t)),
    {
        let ghost s0 = self@;
        let ghost yf = landing_row(s0.board, s0.current.shape, s0.current.x, s0.current.y);
        while !self.is_collision()
            invariant
                game_wf(s0),
                self@.current.y <= BOARD_HEIGHT,
                self@ == (GameModel { current: PieceModel { y: self@.current.y, ..s0.current }, ..s0 }),
                landing_row(s0.board, s0.current.shape, s0.current.x, self@.current.y) == yf,
            decreases BOARD_HEIGHT - self.current_piece.y,
        {
            proof {
                lemma_free_placement(self@.board, self@.current.shape, self@.current.x, self@.current.y);
            }
            self.current_piece.y = self.current_piece.y + 1;
        }
        proof {
            lemma_colliding_row(self@.board, self@.current.shape, self@.current.x, self@.current.y);
        }
        self.current_piece.y = self.current_piece.y - 1;
        let fresh = Self::generate_random_piece();
        let ghost t = choose|t: PieceType| fresh@ == #[trigger] spawn_model(t);
        self.lock_piece(fresh);
        assert(self@ == drop_model(s0, spawn_model(t)));
    }

    /// Flips the pause flag; nothing else changes.
    pub fn toggle_pause(&mut self)
        ensures
            final(self)@ == toggle_model(old(self)@),
    {
        self.is_paused = !self.is_paused;
    }
}

} // verus!
