use vstd::prelude::*;

use crate::shapes::{cell_dx, cell_dy, valid_piece, lemma_shape_in_box};
use crate::types::{Piece, BOARD_CELLS};

verus! {

// ---------------------------------------------------------------------------
// Cells and pieces on the board
// ---------------------------------------------------------------------------

/// The board is 10 columns by 20 rows, stored row by row.
pub open spec fn on_board(bx: int, by: int) -> bool {
    0 <= bx < 10 && 0 <= by < 20
}

/// A piece cell at (bx, by) is blocked when it lies left, right or below the
/// board, or on an occupied cell. Rows above the board are free.
pub open spec fn blocked(board: Seq<u8>, bx: int, by: int) -> bool {
    bx < 0 || bx >= 10 || by >= 20 || (by >= 0 && board[by * 10 + bx] != 0)
}

/// A piece fits at (x, y) when none of its four cells is blocked.
pub open spec fn fits(board: Seq<u8>, p: Piece, x: int, y: int) -> bool {
    forall|i: int|
        0 <= i < 4 ==> !blocked(board, x + #[trigger] cell_dx(p, i), y + cell_dy(p, i))
}

/// Writes `v` into the cells, among the first `n`, that a piece at (x, y)
/// covers on the board; cells off the board are dropped.
pub open spec fn stamp<T>(s: Seq<T>, p: Piece, x: int, y: int, v: T, n: nat) -> Seq<T>
    decreases n,
{
    if n == 0 {
        s
    } else {
        let prev = stamp(s, p, x, y, v, (n - 1) as nat);
        let bx = x + cell_dx(p, n - 1);
        let by = y + cell_dy(p, n - 1);
        if on_board(bx, by) {
            prev.update(by * 10 + bx, v)
        } else {
            prev
        }
    }
}

/// Stamping keeps the length of the board.
pub proof fn lemma_stamp_len<T>(s: Seq<T>, p: Piece, x: int, y: int, v: T, n: nat)
    requires
        s.len() == 200,
    ensures
        stamp(s, p, x, y, v, n).len() == s.len(),
    decreases n,
{
    if n > 0 {
        lemma_stamp_len(s, p, x, y, v, (n - 1) as nat);
    }
}

/// Above the board only the columns decide whether a piece fits.
pub proof fn lemma_fits_above_board(board: Seq<u8>, p: Piece, x: int, y1: int, y2: int)
    requires
        valid_piece(p),
        y1 + 3 < 0,
        y2 + 3 < 0,
    ensures
        fits(board, p, x, y1) == fits(board, p, x, y2),
{
    lemma_shape_in_box(p);
    if fits(board, p, x, y1) {
        assert forall|i: int| 0 <= i < 4 implies !blocked(
            board,
            x + #[trigger] cell_dx(p, i),
            y2 + cell_dy(p, i),
        ) by {
            assert(!blocked(board, x + cell_dx(p, i), y1 + cell_dy(p, i)));
        }
    }
    if fits(board, p, x, y2) {
        assert forall|i: int| 0 <= i < 4 implies !blocked(
            board,
            x + #[trigger] cell_dx(p, i),
            y1 + cell_dy(p, i),
        ) by {
            assert(!blocked(board, x + cell_dx(p, i), y2 + cell_dy(p, i)));
        }
    }
}

/// A piece that fits lies within the columns and above the floor.
pub proof fn lemma_fits_bounds(board: Seq<u8>, p: Piece, x: int, y: int)
    requires
        valid_piece(p),
        fits(board, p, x, y),
    ensures
        -3 <= x <= 9,
        y <= 19,
{
    lemma_shape_in_box(p);
    assert(!blocked(board, x + cell_dx(p, 0), y + cell_dy(p, 0)));
}

// ---------------------------------------------------------------------------
// Rows
// ---------------------------------------------------------------------------

/// Row `y` of the board has no empty cell.
pub open spec fn row_full(board: Seq<u8>, y: int) -> bool {
    forall|c: int| 0 <= c < 10 ==> #[trigger] board[y * 10 + c] != 0
}

/// The bit that stands for row `y` in a row mask.
pub open spec fn row_bit(y: int) -> u32 {
    1u32 << (y as u32)
}

/// Row `y` belongs to `mask`.
pub open spec fn in_mask(mask: u32, y: int) -> bool {
    mask & row_bit(y) != 0
}

/// The mask of the full rows among the first `n` rows.
pub open spec fn full_rows_mask_upto(board: Seq<u8>, n: nat) -> u32
    decreases n,
{
    if n == 0 {
        0
    } else {
        let m = full_rows_mask_upto(board, (n - 1) as nat);
        if row_full(board, n - 1) {
            m | row_bit(n - 1)
        } else {
            m
        }
    }
}

/// The mask of all full rows of the board.
pub open spec fn full_rows_mask(board: Seq<u8>) -> u32 {
    full_rows_mask_upto(board, 20)
}

/// The number of rows below `n` in `mask`.
pub open spec fn rows_in_mask_upto(mask: u32, n: nat) -> nat
    decreases n,
{
    if n == 0 {
        0
    } else {
        rows_in_mask_upto(mask, (n - 1) as nat) + if in_mask(mask, n - 1) {
            1nat
        } else {
            0nat
        }
    }
}

/// The number of bits set in a 32-bit mask.
pub open spec fn popcount(mask: u32) -> nat {
    rows_in_mask_upto(mask, 32)
}

proof fn lemma_bit_or(m: u32, y: u32, j: u32)
    requires
        y < 32,
        j < 32,
    ensures
        ((m | (1u32 << y)) & (1u32 << j) != 0) == ((m & (1u32 << j) != 0) || j == y),
{
    assert(((m | (1u32 << y)) & (1u32 << j) != 0) == ((m & (1u32 << j) != 0) || j == y))
        by (bit_vector)
        requires
            y < 32,
            j < 32,
    ;
}

proof fn lemma_bit_zero(j: u32)
    requires
        j < 32,
    ensures
        (0u32 & (1u32 << j)) == 0,
{
    assert((0u32 & (1u32 << j)) == 0) by (bit_vector);
}

/// Row `j` is in the mask of full rows below `n` exactly when it is below
/// `n` and full.
pub proof fn lemma_full_rows_mask_upto(board: Seq<u8>, n: nat, j: int)
    requires
        n <= 32,
        0 <= j < 32,
    ensures
        in_mask(full_rows_mask_upto(board, n), j) == (j < n && row_full(board, j)),
    decreases n,
{
    if n == 0 {
        lemma_bit_zero(j as u32);
    } else {
        lemma_full_rows_mask_upto(board, (n - 1) as nat, j);
        let m = full_rows_mask_upto(board, (n - 1) as nat);
        if row_full(board, n - 1) {
            lemma_bit_or(m, (n - 1) as u32, j as u32);
        }
    }
}

/// The full-rows mask holds exactly the full rows of the board.
pub proof fn lemma_full_rows_mask(board: Seq<u8>)
    ensures
        forall|j: int|
            0 <= j < 32 ==> #[trigger] in_mask(full_rows_mask(board), j) == (j < 20 && row_full(
                board,
                j,
            )),
{
    assert forall|j: int| 0 <= j < 32 implies #[trigger] in_mask(full_rows_mask(board), j) == (j
        < 20 && row_full(board, j)) by {
        lemma_full_rows_mask_upto(board, 20, j);
    }
}

/// The empty mask holds no row.
pub proof fn lemma_empty_mask(j: int)
    requires
        0 <= j < 32,
    ensures
        !in_mask(0, j),
{
    lemma_bit_zero(j as u32);
}

/// A mask counts no rows exactly when it holds none below 32; the empty
/// mask counts none.
pub proof fn lemma_rows_in_mask_zero(mask: u32, n: nat)
    requires
        n <= 32,
    ensures
        rows_in_mask_upto(mask, n) == 0 <==> forall|j: int| 0 <= j < n ==> !#[trigger] in_mask(
            mask,
            j,
        ),
        mask == 0 ==> rows_in_mask_upto(mask, n) == 0,
    decreases n,
{
    if n > 0 {
        lemma_rows_in_mask_zero(mask, (n - 1) as nat);
        if mask == 0 {
            lemma_empty_mask(n - 1);
        }
    }
}

/// A mask whose rows below `n` are all among a, b, c, d counts at most as
/// many rows as those four below `n`.
pub proof fn lemma_rows_in_mask_bound(mask: u32, n: nat, a: int, b: int, c: int, d: int)
    requires
        forall|j: int|
            0 <= j < n && #[trigger] in_mask(mask, j) ==> j == a || j == b || j == c || j == d,
    ensures
        rows_in_mask_upto(mask, n) <= (if 0 <= a < n { 1int } else { 0 }) + (if 0 <= b < n {
            1int
        } else {
            0
        }) + (if 0 <= c < n { 1int } else { 0 }) + (if 0 <= d < n { 1int } else { 0 }),
    decreases n,
{
    if n > 0 {
        lemma_rows_in_mask_bound(mask, (n - 1) as nat, a, b, c, d);
    }
}

// ---------------------------------------------------------------------------
// Collapsing cleared rows
// ---------------------------------------------------------------------------

/// The rows from `lo` down to the bottom that are not in `mask`, top first.
pub open spec fn kept_from(mask: u32, lo: int) -> Seq<int>
    decreases 20 - lo,
{
    if lo >= 20 {
        Seq::empty()
    } else if in_mask(mask, lo) {
        kept_from(mask, lo + 1)
    } else {
        seq![lo].add(kept_from(mask, lo + 1))
    }
}

/// The board after the rows in `mask` are removed: the remaining rows keep
/// their order and sink to the bottom, and empty rows fill the top.
pub open spec fn compact<T>(s: Seq<T>, mask: u32, empty: T) -> Seq<T> {
    let kept = kept_from(mask, 0);
    let gap = 20 - kept.len();
    Seq::new(
        200,
        |i: int|
            if i / 10 < gap {
                empty
            } else {
                s[kept[i / 10 - gap] * 10 + i % 10]
            },
    )
}

/// The rows kept from `lo` are the rows between `lo` and 20 in increasing
/// order.
pub proof fn lemma_kept_from(mask: u32, lo: int)
    requires
        0 <= lo <= 20,
    ensures
        kept_from(mask, lo).len() <= 20 - lo,
        forall|k: int|
            0 <= k < kept_from(mask, lo).len() ==> lo <= #[trigger] kept_from(mask, lo)[k] < 20
                && !in_mask(mask, kept_from(mask, lo)[k]),
        forall|k1: int, k2: int|
            0 <= k1 < k2 < kept_from(mask, lo).len() ==> #[trigger] kept_from(mask, lo)[k1]
                < #[trigger] kept_from(mask, lo)[k2],
    decreases 20 - lo,
{
    if lo < 20 {
        lemma_kept_from(mask, lo + 1);
    }
}

// ---------------------------------------------------------------------------
// Executable helpers
// ---------------------------------------------------------------------------

/// The mask bit of row `y`.
pub fn row_mask(y: usize) -> (m: u32)
    requires
        y < 32,
    ensures
        m == row_bit(y as int),
{
    1u32 << (y as u32)
}

/// The number of rows in a mask.
pub fn count_rows(mask: u32) -> (n: u8)
    ensures
        n == popcount(mask),
{
    let mut n: u8 = 0;
    let mut i: u32 = 0;
    while i < 32
        invariant
            i <= 32,
            n == rows_in_mask_upto(mask, i as nat),
            n <= i,
        decreases 32 - i,
    {
        if mask & (1u32 << i) != 0 {
            n = n + 1;
        }
        i = i + 1;
    }
    n
}

/// Whether row `y` of a board has no empty cell.
pub fn row_full_in(board: &[u8; BOARD_CELLS], y: usize) -> (full: bool)
    requires
        y < 20,
    ensures
        full == row_full(board@, y as int),
{
    let mut x: usize = 0;
    while x < 10
        invariant
            y < 20,
            x <= 10,
            forall|c: int| 0 <= c < x ==> #[trigger] board@[y * 10 + c] != 0,
        decreases 10 - x,
    {
        if board[y * 10 + x] == 0 {
            return false;
        }
        x = x + 1;
    }
    true
}


// ---------------------------------------------------------------------------
// Executable board operations, shared by the board, its ids and its styles
// ---------------------------------------------------------------------------

/// Writes `v` into the board cells a piece at (x, y) covers.
pub fn stamp_array<T: Copy>(
    arr: &mut [T; BOARD_CELLS],
    cells: &[(i8, i8); 4],
    piece: Piece,
    x: i8,
    y: i8,
    v: T,
)
    requires
        valid_piece(piece),
        cells@ == crate::shapes::shape(piece.kind, piece.rot),
        -20 <= x <= 20,
        -20 <= y <= 20,
    ensures
        final(arr)@ == stamp(old(arr)@, piece, x as int, y as int, v, 4),
{
    proof {
        lemma_shape_in_box(piece);
    }
    let mut i: usize = 0;
    while i < 4
        invariant
            i <= 4,
            valid_piece(piece),
            cells@ == crate::shapes::shape(piece.kind, piece.rot),
            -20 <= x <= 20,
            -20 <= y <= 20,
            arr@ == stamp(old(arr)@, piece, x as int, y as int, v, i as nat),
            arr@.len() == 200,
        decreases 4 - i,
    {
        let (cx, cy) = cells[i];
        assert(cx == cell_dx(piece, i as int) && cy == cell_dy(piece, i as int));
        let bx = x + cx;
        let by = y + cy;
        if bx >= 0 && bx < 10 && by >= 0 && by < 20 {
            let index = by as usize * 10 + bx as usize;
            arr[index] = v;
        }
        i = i + 1;
    }
}

/// Copies row `from` over row `to`.
fn copy_row<T: Copy>(arr: &mut [T; BOARD_CELLS], from: usize, to: usize)
    requires
        from < 20,
        to < 20,
    ensures
        forall|r: int, c: int|
            0 <= r < 20 && 0 <= c < 10 ==> #[trigger] final(arr)@[r * 10 + c] == if r == to {
                old(arr)@[from * 10 + c]
            } else {
                old(arr)@[r * 10 + c]
            },
{
    let mut x: usize = 0;
    while x < 10
        invariant
            from < 20,
            to < 20,
            x <= 10,
            arr@.len() == 200,
            forall|r: int, c: int|
                0 <= r < 20 && 0 <= c < 10 ==> #[trigger] arr@[r * 10 + c] == if r == to && c
                    < x {
                    old(arr)@[from * 10 + c]
                } else {
                    old(arr)@[r * 10 + c]
                },
        decreases 10 - x,
    {
        let value = arr[from * 10 + x];
        arr[to * 10 + x] = value;
        x = x + 1;
    }
}

/// Fills row `row` with `v`.
fn fill_row<T: Copy>(arr: &mut [T; BOARD_CELLS], row: usize, v: T)
    requires
        row < 20,
    ensures
        forall|r: int, c: int|
            0 <= r < 20 && 0 <= c < 10 ==> #[trigger] final(arr)@[r * 10 + c] == if r == row {
                v
            } else {
                old(arr)@[r * 10 + c]
            },
{
    let mut x: usize = 0;
    while x < 10
        invariant
            row < 20,
            x <= 10,
            arr@.len() == 200,
            forall|r: int, c: int|
                0 <= r < 20 && 0 <= c < 10 ==> #[trigger] arr@[r * 10 + c] == if r == row && c
                    < x {
                    v
                } else {
                    old(arr)@[r * 10 + c]
                },
        decreases 10 - x,
    {
        arr[row * 10 + x] = v;
        x = x + 1;
    }
}

/// Removes the rows in `mask`: the other rows sink, keeping their order, and
/// the rows freed at the top are filled with `empty`.
pub fn collapse_rows<T: Copy>(arr: &mut [T; BOARD_CELLS], mask: u32, empty: T)
    ensures
        final(arr)@ == compact(old(arr)@, mask, empty),
{
    let ghost src = arr@;
    let mut write_y: i16 = 19;
    let mut read_y: usize = 20;
    proof {
        lemma_kept_from(mask, 20);
    }
    while read_y > 0
        invariant
            read_y <= 20,
            arr@.len() == 200,
            src.len() == 200,
            src == old(arr)@,
            write_y == 19 - kept_from(mask, read_y as int).len(),
            read_y - 1 <= write_y <= 19,
            forall|r: int, c: int|
                0 <= r < 20 && 0 <= c < 10 ==> #[trigger] arr@[r * 10 + c] == if r > write_y {
                    src[kept_from(mask, read_y as int)[r - write_y - 1] * 10 + c]
                } else if r < read_y {
                    src[r * 10 + c]
                } else {
                    arr@[r * 10 + c]
                },
        decreases read_y,
    {
        read_y = read_y - 1;
        proof {
            lemma_kept_from(mask, read_y as int);
            lemma_kept_from(mask, read_y + 1);
        }
        if mask & row_mask(read_y) == 0 {
            let ghost before = arr@;
            let ghost w = write_y as int;
            copy_row(arr, read_y, write_y as usize);
            write_y = write_y - 1;
            proof {
                let k_new = kept_from(mask, read_y as int);
                let k_old = kept_from(mask, read_y + 1);
                assert(k_new == seq![read_y as int].add(k_old));
                assert forall|r: int, c: int| 0 <= r < 20 && 0 <= c < 10 implies #[trigger] arr@[r
                    * 10 + c] == if r > write_y {
                    src[kept_from(mask, read_y as int)[r - write_y - 1] * 10 + c]
                } else if r < read_y {
                    src[r * 10 + c]
                } else {
                    arr@[r * 10 + c]
                } by {
                    assert(before[r * 10 + c] == if r > w {
                        src[k_old[r - w - 1] * 10 + c]
                    } else if r < read_y + 1 {
                        src[r * 10 + c]
                    } else {
                        before[r * 10 + c]
                    });
                    if r == w {
                        assert(before[read_y * 10 + c] == src[read_y * 10 + c]);
                        assert(k_new[0] == read_y);
                    } else if r > w {
                        assert(k_new[r - write_y - 1] == k_old[r - w - 1]);
                    }
                }
            }
        }
    }
    let ghost w0 = write_y as int;
    let ghost kept = kept_from(mask, 0);
    proof {
        lemma_kept_from(mask, 0);
    }
    while write_y >= 0
        invariant
            -1 <= write_y <= w0,
            w0 == 19 - kept.len(),
            kept == kept_from(mask, 0),
            kept.len() <= 20,
            arr@.len() == 200,
            src.len() == 200,
            src == old(arr)@,
            forall|k: int| 0 <= k < kept.len() ==> 0 <= #[trigger] kept[k] < 20,
            forall|r: int, c: int|
                0 <= r < 20 && 0 <= c < 10 ==> #[trigger] arr@[r * 10 + c] == if r > w0 {
                    src[kept[r - w0 - 1] * 10 + c]
                } else if r > write_y {
                    empty
                } else {
                    arr@[r * 10 + c]
                },
        decreases write_y + 1,
    {
        fill_row(arr, write_y as usize, empty);
        write_y = write_y - 1;
    }
    proof {
        let target = compact(src, mask, empty);
        assert forall|i: int| 0 <= i < 200 implies arr@[i] == target[i] by {
            let r = i / 10;
            let c = i % 10;
            assert(i == r * 10 + c);
            assert(0 <= r < 20 && 0 <= c < 10);
            assert(arr@[r * 10 + c] == target[i]);
        }
        assert(arr@ =~= target);
    }
}

} // verus!
