use crate::piece::{matrix_view, occupied, shape_wf, MAX_COLOR};
use vstd::prelude::*;

verus! {

/// Number of columns of the board.
pub const BOARD_WIDTH: usize = 10;

/// Number of rows of the board; row 0 is the top.
pub const BOARD_HEIGHT: usize = 20;

/// A board: 20 rows of 10 cells, each a color id from 0 (empty) to 7.
pub open spec fn board_wf(b: Seq<Seq<u8>>) -> bool {
    &&& b.len() == BOARD_HEIGHT
    &&& forall|r: int| 0 <= r < b.len() ==> (#[trigger] b[r]).len() == BOARD_WIDTH
    &&& forall|r: int, c: int|
        0 <= r < b.len() && 0 <= c < b[r].len() ==> #[trigger] b[r][c] <= MAX_COLOR
}

/// A row of empty cells.
pub open spec fn empty_row() -> Seq<u8> {
    Seq::new(BOARD_WIDTH as nat, |c: int| 0u8)
}

/// The board with no occupied cell.
pub open spec fn empty_board() -> Seq<Seq<u8>> {
    Seq::new(BOARD_HEIGHT as nat, |r: int| empty_row())
}

/// Whether an occupied piece cell may not stand at column `bx`, row `by`:
/// left of, right of or below the board, or on an occupied board cell.
/// Rows above the board are open.
pub open spec fn blocked(b: Seq<Seq<u8>>, bx: int, by: int) -> bool {
    ||| bx < 0
    ||| bx >= BOARD_WIDTH
    ||| by >= BOARD_HEIGHT
    ||| (by >= 0 && b[by][bx] != 0)
}

/// Whether the shape placed with its top-left cell at (`x`, `y`) collides.
pub open spec fn collides(b: Seq<Seq<u8>>, s: Seq<Seq<u8>>, x: int, y: int) -> bool {
    exists|r: int, c: int| #[trigger] occupied(s, r, c) && blocked(b, x + c, y + r)
}

/// Whether the occupied cells of the shape all lie within the board's columns.
pub open spec fn in_columns(s: Seq<Seq<u8>>, x: int) -> bool {
    forall|r: int, c: int| #[trigger] occupied(s, r, c) ==> 0 <= x + c < BOARD_WIDTH
}

/// The value of board cell (`bx`, `by`) after the shape's occupied cells whose
/// row is below `i`, or is `i` and whose column is below `j`, were copied in.
pub open spec fn merged_cell(
    b: Seq<Seq<u8>>,
    s: Seq<Seq<u8>>,
    x: int,
    y: int,
    i: int,
    j: int,
    bx: int,
    by: int,
) -> u8 {
    let r = by - y;
    let c = bx - x;
    if occupied(s, r, c) && (r < i || (r == i && c < j)) {
        s[r][c]
    } else {
        b[by][bx]
    }
}

/// The board with only the first cells of the shape copied in (see `merged_cell`).
pub open spec fn merged_upto(
    b: Seq<Seq<u8>>,
    s: Seq<Seq<u8>>,
    x: int,
    y: int,
    i: int,
    j: int,
) -> Seq<Seq<u8>> {
    Seq::new(b.len(), |by: int| Seq::new(b[by].len(), |bx: int| merged_cell(b, s, x, y, i, j, bx, by)))
}

/// The board with every occupied cell of the shape, placed at (`x`, `y`),
/// copied in; cells that fall outside the board are dropped.
pub open spec fn merged(b: Seq<Seq<u8>>, s: Seq<Seq<u8>>, x: int, y: int) -> Seq<Seq<u8>> {
    merged_upto(b, s, x, y, s.len() as int, 0)
}

/// Whether every cell of a row is occupied.
pub open spec fn row_full(row: Seq<u8>) -> bool {
    forall|c: int| 0 <= c < row.len() ==> row[c] != 0
}

/// The rows that are not full, in their order.
pub open spec fn kept_rows(b: Seq<Seq<u8>>) -> Seq<Seq<u8>>
    decreases b.len(),
{
    if b.len() == 0 {
        Seq::empty()
    } else {
        let k = kept_rows(b.drop_last());
        if row_full(b.last()) {
            k
        } else {
            k.push(b.last())
        }
    }
}

/// The number of full rows.
pub open spec fn full_row_count(b: Seq<Seq<u8>>) -> int {
    b.len() - kept_rows(b).len()
}

/// The board with its full rows removed and as many empty rows put on top.
pub open spec fn cleared(b: Seq<Seq<u8>>) -> Seq<Seq<u8>> {
    Seq::new(full_row_count(b) as nat, |r: int| empty_row()) + kept_rows(b)
}

/// There are never more kept rows than rows, and each of them is a row of the board.
pub proof fn lemma_kept_rows(b: Seq<Seq<u8>>)
    ensures
        kept_rows(b).len() <= b.len(),
        forall|k: int|
            0 <= k < kept_rows(b).len() ==> exists|r: int|
                0 <= r < b.len() && b[r] == #[trigger] kept_rows(b)[k],
    decreases b.len(),
{
    if b.len() > 0 {
        let d = b.drop_last();
        lemma_kept_rows(d);
        assert forall|k: int| 0 <= k < kept_rows(b).len() implies exists|r: int|
            0 <= r < b.len() && b[r] == #[trigger] kept_rows(b)[k] by {
            if k < kept_rows(d).len() {
                let r = choose|r: int| 0 <= r < d.len() && d[r] == #[trigger] kept_rows(d)[k];
                assert(b[r] == kept_rows(b)[k]);
            } else {
                assert(b[b.len() - 1] == kept_rows(b)[k]);
            }
        }
    }
}

/// Clearing full rows keeps a board well formed.
pub proof fn lemma_cleared_wf(b: Seq<Seq<u8>>)
    requires
        board_wf(b),
    ensures
        board_wf(cleared(b)),
        0 <= full_row_count(b) <= BOARD_HEIGHT,
{
    lemma_kept_rows(b);
    let c = cleared(b);
    let n = full_row_count(b);
    assert forall|r: int| 0 <= r < c.len() implies (#[trigger] c[r]).len() == BOARD_WIDTH by {
        if r >= n {
            let k = r - n;
            assert(c[r] == kept_rows(b)[k]);
            let i = choose|i: int| 0 <= i < b.len() && b[i] == #[trigger] kept_rows(b)[k];
        }
    }
    assert forall|r: int, col: int| 0 <= r < c.len() && 0 <= col < c[r].len() implies #[trigger] c[r][col]
        <= MAX_COLOR by {
        if r >= n {
            let k = r - n;
            assert(c[r] == kept_rows(b)[k]);
            let i = choose|i: int| 0 <= i < b.len() && b[i] == #[trigger] kept_rows(b)[k];
            assert(b[i][col] <= MAX_COLOR);
        }
    }
}

/// Whether the shape placed at (`x`, `y`) collides with the board.
pub fn placement_collides(board: &Vec<Vec<u8>>, shape: &Vec<Vec<u8>>, x: i32, y: i32) -> (r: bool)
    requires
        board_wf(matrix_view(*board)),
        shape_wf(matrix_view(*shape)),
    ensures
        r == collides(matrix_view(*board), matrix_view(*shape), x as int, y as int),
{
    let ghost b = matrix_view(*board);
    let ghost s = matrix_view(*shape);
    let h = shape.len();
    let w = shape[0].len();
    let mut i: usize = 0;
    while i < h
        invariant
            b == matrix_view(*board),
            s == matrix_view(*shape),
            board_wf(b),
            shape_wf(s),
            h == s.len(),
            w == s[0].len(),
            0 <= i <= h,
            forall|r: int, c: int|
                #[trigger] occupied(s, r, c) && r < i ==> !blocked(b, x + c, y + r),
        decreases h - i,
    {
        assert(shape@[i as int]@ == s[i as int]);
        let mut j: usize = 0;
        while j < w
            invariant
                b == matrix_view(*board),
                s == matrix_view(*shape),
                board_wf(b),
                shape_wf(s),
                h == s.len(),
                w == s[0].len(),
                s[i as int].len() == w,
                0 <= i < h,
                0 <= j <= w,
                forall|r: int, c: int|
                    #[trigger] occupied(s, r, c) && (r < i || (r == i && c < j)) ==> !blocked(
                        b,
                        x + c,
                        y + r,
                    ),
            decreases w - j,
        {
            let v = shape[i][j];
            if v != 0 {
                assert(occupied(s, i as int, j as int));
                let bx: i64 = x as i64 + j as i64;
                let by: i64 = y as i64 + i as i64;
                if bx < 0 || bx >= BOARD_WIDTH as i64 || by >= BOARD_HEIGHT as i64 {
                    return true;
                }
                if by >= 0 {
                    assert(board@[by as int]@ == b[by as int]);
                    if board[by as usize][bx as usize] != 0 {
                        return true;
                    }
                }
            }
            j = j + 1;
        }
        i = i + 1;
    }
    false
}

/// Copies the occupied cells of the shape, placed at (`x`, `y`), into the
/// board; cells that fall outside the board are dropped.
pub fn merge_into(board: &mut Vec<Vec<u8>>, shape: &Vec<Vec<u8>>, x: i32, y: i32)
    requires
        board_wf(matrix_view(*old(board))),
        shape_wf(matrix_view(*shape)),
    ensures
        matrix_view(*final(board)) == merged(matrix_view(*old(board)), matrix_view(*shape), x as int, y as int),
        board_wf(matrix_view(*final(board))),
{
    let ghost b0 = matrix_view(*board);
    let ghost s = matrix_view(*shape);
    let h = shape.len();
    let w = shape[0].len();
    let mut i: usize = 0;
    assert(matrix_view(*board) =~~= merged_upto(b0, s, x as int, y as int, 0, 0));
    while i < h
        invariant
            s == matrix_view(*shape),
            board_wf(b0),
            shape_wf(s),
            h == s.len(),
            w == s[0].len(),
            0 <= i <= h,
            matrix_view(*board) == merged_upto(b0, s, x as int, y as int, i as int, 0),
        decreases h - i,
    {
        assert(shape@[i as int]@ == s[i as int]);
        let mut j: usize = 0;
        while j < w
            invariant
                s == matrix_view(*shape),
                board_wf(b0),
                shape_wf(s),
                h == s.len(),
                w == s[0].len(),
                s[i as int].len() == w,
                0 <= i < h,
                0 <= j <= w,
                matrix_view(*board) == merged_upto(b0, s, x as int, y as int, i as int, j as int),
            decreases w - j,
        {
            let ghost before = matrix_view(*board);
            let v = shape[i][j];
            let bx: i64 = x as i64 + j as i64;
            let by: i64 = y as i64 + i as i64;
            if v != 0 && bx >= 0 && bx < BOARD_WIDTH as i64 && by >= 0 && by < BOARD_HEIGHT as i64 {
                assert(matrix_view(*board)[by as int].len() == BOARD_WIDTH);
                assert(matrix_view(*board).len() == BOARD_HEIGHT);
                assert((*board)@.len() == BOARD_HEIGHT);
                assert((*board)@[by as int]@ == matrix_view(*board)[by as int]);
                board[by as usize][bx as usize] = v;
            }
            let ghost after = matrix_view(*board);
            assert forall|r: int| 0 <= r < after.len() implies #[trigger] after[r] =~= merged_upto(
                b0,
                s,
                x as int,
                y as int,
                i as int,
                j + 1,
            )[r] by {
                assert(before[r] == merged_upto(b0, s, x as int, y as int, i as int, j as int)[r]);
                assert(b0[r].len() == BOARD_WIDTH);
            }
            assert(after =~= merged_upto(b0, s, x as int, y as int, i as int, j + 1));
            j = j + 1;
        }
        assert(merged_upto(b0, s, x as int, y as int, i as int, w as int) =~~= merged_upto(
            b0,
            s,
            x as int,
            y as int,
            i + 1,
            0,
        ));
        i = i + 1;
    }
    let ghost m = matrix_view(*board);
    assert forall|r: int, c: int| 0 <= r < m.len() && 0 <= c < m[r].len() implies #[trigger] m[r][c]
        <= MAX_COLOR by {
        let pr = r - y;
        let pc = c - x;
        if occupied(s, pr, pc) && pr < h {
            assert(s[pr][pc] <= MAX_COLOR);
        }
    }
}

/// Whether every cell of the row is occupied.
pub fn is_row_full(row: &Vec<u8>) -> (r: bool)
    ensures
        r == row_full(row@),
{
    let mut c: usize = 0;
    while c < row.len()
        invariant
            0 <= c <= row.len(),
            forall|k: int| 0 <= k < c ==> row@[k] != 0,
        decreases row.len() - c,
    {
        if row[c] == 0 {
            return false;
        }
        c = c + 1;
    }
    true
}

/// A row of empty cells.
pub fn new_empty_row() -> (r: Vec<u8>)
    ensures
        r@ == empty_row(),
{
    let r: Vec<u8> = vec![0u8; BOARD_WIDTH];
    assert(r@ =~= empty_row());
    r
}

/// The board with no occupied cell.
pub fn new_empty_board() -> (b: Vec<Vec<u8>>)
    ensures
        matrix_view(b) == empty_board(),
        board_wf(matrix_view(b)),
{
    let mut b: Vec<Vec<u8>> = Vec::new();
    let mut i: usize = 0;
    while i < BOARD_HEIGHT
        invariant
            0 <= i <= BOARD_HEIGHT,
            b.len() == i,
            forall|k: int| 0 <= k < i ==> #[trigger] b@[k]@ == empty_row(),
        decreases BOARD_HEIGHT - i,
    {
        b.push(new_empty_row());
        i = i + 1;
    }
    assert(matrix_view(b) =~= empty_board());
    b
}

/// Removes the full rows of the board, puts as many empty rows on top, and
/// returns how many were removed.
pub fn clear_full_rows(board: &mut Vec<Vec<u8>>) -> (n: usize)
    requires
        board_wf(matrix_view(*old(board))),
    ensures
        matrix_view(*final(board)) == cleared(matrix_view(*old(board))),
        n == full_row_count(matrix_view(*old(board))),
        n <= BOARD_HEIGHT,
        board_wf(matrix_view(*final(board))),
{
    let ghost b = matrix_view(*board);
    proof {
        lemma_cleared_wf(b);
    }
    let mut kept: Vec<Vec<u8>> = Vec::new();
    let mut i: usize = 0;
    while i < board.len()
        invariant
            b == matrix_view(*board),
            board_wf(b),
            0 <= i <= board.len(),
            matrix_view(kept) == kept_rows(b.take(i as int)),
        decreases board.len() - i,
    {
        assert(b.take(i + 1).drop_last() =~= b.take(i as int));
        assert(board@[i as int]@ == b[i as int]);
        if !is_row_full(&board[i]) {
            let row = board[i].clone();
            assert(row@ =~= b[i as int]);
            kept.push(row);
            assert(matrix_view(kept) =~= kept_rows(b.take(i + 1)));
        }
        i = i + 1;
    }
    assert(b.take(b.len() as int) =~= b);
    proof {
        lemma_kept_rows(b);
    }
    let n: usize = BOARD_HEIGHT - kept.len();
    let mut rows: Vec<Vec<u8>> = Vec::new();
    let mut k: usize = 0;
    while k < n
        invariant
            0 <= k <= n,
            rows.len() == k,
            forall|r: int| 0 <= r < k ==> #[trigger] rows@[r]@ == empty_row(),
        decreases n - k,
    {
        rows.push(new_empty_row());
        k = k + 1;
    }
    rows.append(&mut kept);
    assert(matrix_view(rows) =~= cleared(b));
    *board = rows;
    n
}

} // verus!
