use rand::Rng;
use vstd::prelude::*;

verus! {

/// The seven shapes of piece.
#[derive(Clone, Copy, Debug, PartialEq, Eq, Structural)]
pub enum PieceType {
    I,
    O,
    T,
    S,
    Z,
    J,
    L,
}

/// A shape matrix and the board offset of its top-left cell.
#[derive(Clone, Debug)]
pub struct Piece {
    pub shape: Vec<Vec<u8>>,
    pub x: i32,
    pub y: i32,
}

/// What a piece means: its matrix of cells and its offset.
pub struct PieceModel {
    pub shape: Seq<Seq<u8>>,
    pub x: int,
    pub y: int,
}

/// Largest color id of a cell.
pub const MAX_COLOR: u8 = 7;

/// Column at which every piece appears.
pub const SPAWN_X: i32 = 4;

/// Row at which every piece appears.
pub const SPAWN_Y: i32 = 0;

/// The cell matrix of a vector of rows.
pub open spec fn matrix_view(m: Vec<Vec<u8>>) -> Seq<Seq<u8>> {
    m@.map_values(|row: Vec<u8>| row@)
}

impl View for Piece {
    type V = PieceModel;

    open spec fn view(&self) -> PieceModel {
        PieceModel { shape: matrix_view(self.shape), x: self.x as int, y: self.y as int }
    }
}

/// Whether the cell at row `r`, column `c` of a matrix is occupied.
pub open spec fn occupied(s: Seq<Seq<u8>>, r: int, c: int) -> bool {
    0 <= r < s.len() && 0 <= c < s[r].len() && s[r][c] != 0
}

/// A shape matrix: rectangular, at most 4 x 4, not empty, with color ids
/// up to 7 and at least one occupied cell.
pub open spec fn shape_wf(s: Seq<Seq<u8>>) -> bool {
    &&& 1 <= s.len() <= 4
    &&& 1 <= s[0].len() <= 4
    &&& forall|r: int| 0 <= r < s.len() ==> (#[trigger] s[r]).len() == s[0].len()
    &&& forall|r: int, c: int|
        0 <= r < s.len() && 0 <= c < s[r].len() ==> #[trigger] s[r][c] <= MAX_COLOR
    &&& exists|r: int, c: int| #[trigger] occupied(s, r, c)
}

/// The matrix turned a quarter clockwise: the transpose with each row
/// reversed, so that its dimensions are swapped.
pub open spec fn rotated(s: Seq<Seq<u8>>) -> Seq<Seq<u8>> {
    Seq::new(s[0].len(), |i: int| Seq::new(s.len(), |j: int| s[s.len() - 1 - j][i]))
}

/// The matrix of each shape, in its spawn orientation.
pub open spec fn shape_of(t: PieceType) -> Seq<Seq<u8>> {
    match t {
        PieceType::I => seq![seq![0u8, 0, 0, 0], seq![1u8, 1, 1, 1], seq![0u8, 0, 0, 0], seq![0u8, 0, 0, 0]],
        PieceType::O => seq![seq![2u8, 2], seq![2u8, 2]],
        PieceType::T => seq![seq![0u8, 3, 0], seq![3u8, 3, 3], seq![0u8, 0, 0]],
        PieceType::S => seq![seq![0u8, 4, 4], seq![4u8, 4, 0], seq![0u8, 0, 0]],
        PieceType::Z => seq![seq![5u8, 5, 0], seq![0u8, 5, 5], seq![0u8, 0, 0]],
        PieceType::J => seq![seq![6u8, 0, 0], seq![6u8, 6, 6], seq![0u8, 0, 0]],
        PieceType::L => seq![seq![0u8, 0, 7], seq![7u8, 7, 7], seq![0u8, 0, 0]],
    }
}

/// The piece of a shape at the spawn offset.
pub open spec fn spawn_model(t: PieceType) -> PieceModel {
    PieceModel { shape: shape_of(t), x: SPAWN_X as int, y: SPAWN_Y as int }
}

/// The shape drawn by index 0 to 6, in the order I, O, T, S, Z, J, L.
pub open spec fn type_of_index(i: int) -> PieceType {
    if i == 0 {
        PieceType::I
    } else if i == 1 {
        PieceType::O
    } else if i == 2 {
        PieceType::T
    } else if i == 3 {
        PieceType::S
    } else if i == 4 {
        PieceType::Z
    } else if i == 5 {
        PieceType::J
    } else {
        PieceType::L
    }
}

/// Every shape of the table is a well-formed shape matrix.
pub proof fn lemma_shape_of_wf(t: PieceType)
    ensures
        shape_wf(shape_of(t)),
{
    let s = shape_of(t);
    match t {
        PieceType::I => assert(occupied(s, 1, 0)),
        PieceType::O => assert(occupied(s, 0, 0)),
        PieceType::T => assert(occupied(s, 1, 0)),
        PieceType::S => assert(occupied(s, 1, 0)),
        PieceType::Z => assert(occupied(s, 0, 0)),
        PieceType::J => assert(occupied(s, 0, 0)),
        PieceType::L => assert(occupied(s, 1, 0)),
    }
}

/// Rotation keeps a shape well formed and swaps its dimensions.
pub proof fn lemma_rotated_wf(s: Seq<Seq<u8>>)
    requires
        shape_wf(s),
    ensures
        shape_wf(rotated(s)),
        rotated(s).len() == s[0].len(),
        rotated(s)[0].len() == s.len(),
{
    let r = rotated(s);
    let h = s.len();
    let (a, b) = choose|a: int, b: int| #[trigger] occupied(s, a, b);
    assert(r[b][h - 1 - a] == s[a][b]);
    assert(occupied(r, b, h - 1 - a));
    assert forall|i: int, j: int| 0 <= i < r.len() && 0 <= j < r[i].len() implies #[trigger] r[i][j]
        <= MAX_COLOR by {
        assert(s[h - 1 - j].len() == s[0].len());
    }
}

/// Four quarter turns give back the matrix that was turned.
pub proof fn lemma_rotated_four_times(s: Seq<Seq<u8>>)
    requires
        shape_wf(s),
    ensures
        rotated(rotated(rotated(rotated(s)))) == s,
{
    let h = s.len();
    let w = s[0].len();
    lemma_rotated_wf(s);
    let r1 = rotated(s);
    lemma_rotated_wf(r1);
    let r2 = rotated(r1);
    assert forall|i: int, j: int| 0 <= i < h && 0 <= j < w implies #[trigger] r2[i][j]
        == s[h - 1 - i][w - 1 - j] by {}
    lemma_rotated_wf(r2);
    let r3 = rotated(r2);
    lemma_rotated_wf(r3);
    let r4 = rotated(r3);
    assert forall|i: int, j: int| 0 <= i < w && 0 <= j < h implies #[trigger] r3[i][j]
        == r1[w - 1 - i][h - 1 - j] by {}
    assert forall|i: int| 0 <= i < h implies #[trigger] r4[i] == s[i] by {
        assert(r4[i] =~= s[i]);
    }
    assert(r4 =~= s);
}

/// Relies on rand's `thread_rng` and `Rng::gen_range`: a value drawn from
/// the inclusive range 0 to 6.
#[verifier::external_body]
pub(crate) fn random_type_index() -> (r: u8)
    ensures
        r <= 6,
{
    rand::thread_rng().gen_range(0..=6u8)
}

impl PieceType {
    /// The shape of an index 0 to 6, in the order I, O, T, S, Z, J, L.
    pub fn from_index(i: u8) -> (t: PieceType)
        requires
            i <= 6,
        ensures
            t == type_of_index(i as int),
    {
        match i {
            0 => PieceType::I,
            1 => PieceType::O,
            2 => PieceType::T,
            3 => PieceType::S,
            4 => PieceType::Z,
            5 => PieceType::J,
            _ => PieceType::L,
        }
    }
}

impl Piece {
    /// The piece of shape `t` at the spawn offset.
    pub fn spawn(t: PieceType) -> (p: Piece)
        ensures
            p@ == spawn_model(t),
    {
        let shape: Vec<Vec<u8>> = match t {
            PieceType::I => vec![vec![0, 0, 0, 0], vec![1, 1, 1, 1], vec![0, 0, 0, 0], vec![0, 0, 0, 0]],
            PieceType::O => vec![vec![2, 2], vec![2, 2]],
            PieceType::T => vec![vec![0, 3, 0], vec![3, 3, 3], vec![0, 0, 0]],
            PieceType::S => vec![vec![0, 4, 4], vec![4, 4, 0], vec![0, 0, 0]],
            PieceType::Z => vec![vec![5, 5, 0], vec![0, 5, 5], vec![0, 0, 0]],
            PieceType::J => vec![vec![6, 0, 0], vec![6, 6, 6], vec![0, 0, 0]],
            PieceType::L => vec![vec![0, 0, 7], vec![7, 7, 7], vec![0, 0, 0]],
        };
        let p = Piece { shape, x: SPAWN_X, y: SPAWN_Y };
        assert(matrix_view(p.shape) =~= shape_of(t));
        p
    }
}

/// The matrix turned a quarter clockwise.
pub fn rotated_shape(shape: &Vec<Vec<u8>>) -> (r: Vec<Vec<u8>>)
    requires
        shape_wf(matrix_view(*shape)),
    ensures
        matrix_view(r) == rotated(matrix_view(*shape)),
{
    let ghost s = matrix_view(*shape);
    let h = shape.len();
    let w = shape[0].len();
    let mut r: Vec<Vec<u8>> = Vec::new();
    let mut i: usize = 0;
    while i < w
        invariant
            s == matrix_view(*shape),
            shape_wf(s),
            h == s.len(),
            w == s[0].len(),
            0 <= i <= w,
            r.len() == i,
            forall|k: int| 0 <= k < i ==> #[trigger] r@[k]@ == rotated(s)[k],
        decreases w - i,
    {
        let mut row: Vec<u8> = Vec::new();
        let mut j: usize = 0;
        while j < h
            invariant
                s == matrix_view(*shape),
                shape_wf(s),
                h == s.len(),
                w == s[0].len(),
                0 <= i < w,
                0 <= j <= h,
                row.len() == j,
                forall|k: int| 0 <= k < j ==> #[trigger] row@[k] == s[h - 1 - k][i as int],
            decreases h - j,
        {
            assert(shape@[h - 1 - j]@ == s[h - 1 - j]);
            assert(s[h - 1 - j].len() == w);
            row.push(shape[h - 1 - j][i]);
            j = j + 1;
        }
        assert(row@ =~= rotated(s)[i as int]);
        r.push(row);
        i = i + 1;
    }
    assert(matrix_view(r) =~= rotated(s));
    r
}

} // verus!
