use vstd::prelude::*;

use crate::board::{fits, stamp};
use crate::shapes::{cell_dx, valid_piece, lemma_shape_in_box};
use crate::types::Piece;

verus! {

// ---------------------------------------------------------------------------
// Where the title-screen demo may drop a piece
// ---------------------------------------------------------------------------

/// Smallest column offset among the cells of a piece.
pub open spec fn min_cell_dx(p: Piece) -> int {
    let a = cell_dx(p, 0);
    let b = cell_dx(p, 1);
    let c = cell_dx(p, 2);
    let d = cell_dx(p, 3);
    let ab = if a < b { a } else { b };
    let cd = if c < d { c } else { d };
    if ab < cd { ab } else { cd }
}

/// Largest column offset among the cells of a piece.
pub open spec fn max_cell_dx(p: Piece) -> int {
    let a = cell_dx(p, 0);
    let b = cell_dx(p, 1);
    let c = cell_dx(p, 2);
    let d = cell_dx(p, 3);
    let ab = if a > b { a } else { b };
    let cd = if c > d { c } else { d };
    if ab > cd { ab } else { cd }
}

/// Leftmost column position that keeps the piece on the board.
pub open spec fn target_lo(p: Piece) -> int {
    -min_cell_dx(p)
}

/// Rightmost column position that keeps the piece on the board.
pub open spec fn target_hi(p: Piece) -> int {
    9 - max_cell_dx(p)
}

/// The row a piece comes to rest on when it falls straight down from row `y`.
pub open spec fn drop_y(board: Seq<u8>, p: Piece, x: int, y: int) -> int
    decreases 20 - y,
{
    if y < 20 && fits(board, p, x, y + 1) {
        drop_y(board, p, x, y + 1)
    } else {
        y
    }
}

/// The cell in column `c` and row `r` is occupied.
pub open spec fn filled(b: Seq<u8>, c: int, r: int) -> bool {
    b[r * 10 + c] != 0
}

/// The number of full rows among the first `n` rows.
pub open spec fn full_rows_upto(b: Seq<u8>, n: nat) -> nat
    decreases n,
{
    if n == 0 {
        0
    } else {
        full_rows_upto(b, (n - 1) as nat) + if crate::board::row_full(b, n - 1) {
            1nat
        } else {
            0nat
        }
    }
}

/// The topmost occupied row of column `c` among the first `n` rows, or -1.
pub open spec fn first_filled(b: Seq<u8>, c: int, n: nat) -> int
    decreases n,
{
    if n == 0 {
        -1
    } else {
        let f = first_filled(b, c, (n - 1) as nat);
        if f >= 0 {
            f
        } else if filled(b, c, n - 1) {
            n - 1
        } else {
            -1
        }
    }
}

/// The height of column `c`: the number of rows from its topmost block down
/// to the floor, or 0 for an empty column.
pub open spec fn column_height(b: Seq<u8>, c: int) -> int {
    let f = first_filled(b, c, 20);
    if f >= 0 {
        20 - f
    } else {
        0
    }
}

/// The empty cells of column `c`, among the first `n` rows, that lie below
/// a block of that column.
pub open spec fn holes_upto(b: Seq<u8>, c: int, n: nat) -> nat
    decreases n,
{
    if n == 0 {
        0
    } else {
        holes_upto(b, c, (n - 1) as nat) + if !filled(b, c, n - 1) && first_filled(
            b,
            c,
            (n - 1) as nat,
        ) >= 0 {
            1nat
        } else {
            0nat
        }
    }
}

/// The holes of the first `n` columns.
pub open spec fn holes_in_columns(b: Seq<u8>, n: nat) -> int
    decreases n,
{
    if n == 0 {
        0
    } else {
        holes_in_columns(b, (n - 1) as nat) + holes_upto(b, n - 1, 20)
    }
}

/// The summed height of the first `n` columns.
pub open spec fn heights_upto(b: Seq<u8>, n: nat) -> int
    decreases n,
{
    if n == 0 {
        0
    } else {
        heights_upto(b, (n - 1) as nat) + column_height(b, n - 1)
    }
}

/// The height differences between each of the first `n` columns and its
/// right neighbour, summed.
pub open spec fn bumpiness_upto(b: Seq<u8>, n: nat) -> int
    decreases n,
{
    if n == 0 {
        0
    } else {
        let d = column_height(b, n - 1) - column_height(b, n as int);
        bumpiness_upto(b, (n - 1) as nat) + if d >= 0 {
            d
        } else {
            -d
        }
    }
}

/// How much the demo likes a board: completed rows count for it; holes,
/// height and unevenness count against it.
pub open spec fn board_score(b: Seq<u8>) -> int {
    900 * full_rows_upto(b, 20) - 380 * holes_in_columns(b, 10) - 7 * heights_upto(b, 10) - 20
        * bumpiness_upto(b, 9)
}

/// The demo's rating of a board with piece `p` placed at (x, y).
pub open spec fn placement_score(board: Seq<u8>, p: Piece, x: int, y: int) -> int {
    board_score(stamp(board, p, x, y, (p.kind + 1) as u8, 4))
}

/// A placement the demo considers: a rotation, and a column that keeps the
/// piece on the board where it fits in the spawn row.
pub open spec fn candidate(board: Seq<u8>, kind: u8, rot: int, x: int) -> bool {
    let p = Piece { kind, rot: rot as u8 };
    &&& 0 <= rot < 4
    &&& target_lo(p) <= x <= target_hi(p)
    &&& fits(board, p, x, 0)
}

/// The rating of a placement after the piece falls from the spawn row.
pub open spec fn candidate_score(board: Seq<u8>, kind: u8, rot: int, x: int) -> int {
    let p = Piece { kind, rot: rot as u8 };
    placement_score(board, p, x, drop_y(board, p, x, 0))
}

/// Placements are tried rotation by rotation, left to right.
pub open spec fn earlier(r1: int, x1: int, r2: int, x2: int) -> bool {
    r1 < r2 || (r1 == r2 && x1 < x2)
}

/// (rot, x) is the demo's choice: a placement with the highest rating, and
/// the first such in the order in which placements are tried.
pub open spec fn best_target(board: Seq<u8>, kind: u8, rot: int, x: int) -> bool {
    &&& candidate(board, kind, rot, x)
    &&& forall|r2: int, x2: int|
        #[trigger] candidate(board, kind, r2, x2) ==> candidate_score(board, kind, r2, x2)
            <= candidate_score(board, kind, rot, x)
    &&& forall|r2: int, x2: int|
        #[trigger] candidate(board, kind, r2, x2) && earlier(r2, x2, rot, x) ==> candidate_score(
            board,
            kind,
            r2,
            x2,
        ) < candidate_score(board, kind, rot, x)
}

/// The column and rotation the demo steers a piece of `kind` towards; the
/// spawn column and rotation 0 when no placement fits.
pub open spec fn demo_target(board: Seq<u8>, kind: u8) -> (i8, u8) {
    if exists|r: int, x: int| best_target(board, kind, r, x) {
        let (r, x) = choose|r: int, x: int| best_target(board, kind, r, x);
        (x as i8, r as u8)
    } else {
        (3i8, 0u8)
    }
}

/// There is at most one best placement.
pub proof fn lemma_best_target_unique(
    board: Seq<u8>,
    kind: u8,
    r1: int,
    x1: int,
    r2: int,
    x2: int,
)
    requires
        best_target(board, kind, r1, x1),
        best_target(board, kind, r2, x2),
    ensures
        r1 == r2 && x1 == x2,
{
    if earlier(r1, x1, r2, x2) {
        assert(candidate(board, kind, r1, x1));
        assert(candidate(board, kind, r2, x2));
    } else if earlier(r2, x2, r1, x1) {
        assert(candidate(board, kind, r1, x1));
        assert(candidate(board, kind, r2, x2));
    }
}

/// Once one best placement is known, the demo's target is that placement.
pub proof fn lemma_demo_target_is(board: Seq<u8>, kind: u8, r: int, x: int)
    requires
        best_target(board, kind, r, x),
    ensures
        demo_target(board, kind) == (x as i8, r as u8),
{
    let (r2, x2) = choose|r2: int, x2: int| best_target(board, kind, r2, x2);
    lemma_best_target_unique(board, kind, r, x, r2, x2);
}

/// The column bounds of a valid piece.
pub proof fn lemma_target_range(p: Piece)
    requires
        valid_piece(p),
    ensures
        -3 <= target_lo(p) <= 0,
        6 <= target_hi(p) <= 9,
{
    lemma_shape_in_box(p);
}


/// The leftmost and rightmost column positions that keep a piece on the board.
pub fn target_range(piece: Piece) -> (range: (i8, i8))
    requires
        valid_piece(piece),
    ensures
        range.0 == target_lo(piece),
        range.1 == target_hi(piece),
{
    let cells = crate::shapes::shape_cells(piece);
    proof {
        lemma_shape_in_box(piece);
    }
    let mut min_x = 4i8;
    let mut max_x = -4i8;
    let mut i: usize = 0;
    while i < 4
        invariant
            i <= 4,
            valid_piece(piece),
            cells@ == crate::shapes::shape(piece.kind, piece.rot),
            forall|j: int| 0 <= j < i ==> min_x <= #[trigger] cell_dx(piece, j) <= max_x,
            i == 0 ==> min_x == 4 && max_x == -4,
            i > 0 ==> exists|j: int| 0 <= j < i && min_x == #[trigger] cell_dx(piece, j),
            i > 0 ==> exists|j: int| 0 <= j < i && max_x == #[trigger] cell_dx(piece, j),
        decreases 4 - i,
    {
        let (x, _) = cells[i];
        assert(x == cell_dx(piece, i as int));
        if x < min_x {
            min_x = x;
        }
        if x > max_x {
            max_x = x;
        }
        i = i + 1;
    }
    (-min_x, 9 - max_x)
}

/// Rates a board the way the demo does.
pub fn board_score_of(board: &[u8; crate::types::BOARD_CELLS]) -> (score: i32)
    ensures
        score == board_score(board@),
{
    let mut completed: i32 = 0;
    let mut y: usize = 0;
    while y < 20
        invariant
            y <= 20,
            completed == full_rows_upto(board@, y as nat),
            completed <= y,
        decreases 20 - y,
    {
        if crate::board::row_full_in(board, y) {
            completed = completed + 1;
        }
        y = y + 1;
    }

    let mut heights = [0u8; 10];
    let mut holes: i32 = 0;
    let mut x: usize = 0;
    while x < 10
        invariant
            x <= 10,
            holes == holes_in_columns(board@, x as nat),
            0 <= holes <= 20 * x,
            forall|c: int| 0 <= c < x ==> heights@[c] == column_height(board@, c),
            forall|c: int| x <= c < 10 ==> heights@[c] == 0,
        decreases 10 - x,
    {
        let mut seen_block = false;
        let mut y: usize = 0;
        while y < 20
            invariant
                x < 10,
                y <= 20,
                seen_block == (first_filled(board@, x as int, y as nat) >= 0),
                first_filled(board@, x as int, y as nat) < y,
                heights@[x as int] == if seen_block {
                    20 - first_filled(board@, x as int, y as nat)
                } else {
                    0
                },
                holes == holes_in_columns(board@, x as nat) + holes_upto(board@, x as int, y as nat),
                holes_in_columns(board@, x as nat) <= 20 * x,
                holes_upto(board@, x as int, y as nat) <= y,
                holes_in_columns(board@, x as nat) >= 0,
                forall|c: int| 0 <= c < x ==> heights@[c] == column_height(board@, c),
                forall|c: int| x < c < 10 ==> heights@[c] == 0,
            decreases 20 - y,
        {
            let filled = board[y * 10 + x] != 0;
            if filled && !seen_block {
                heights[x] = (20 - y) as u8;
                seen_block = true;
            } else if !filled && seen_block {
                holes = holes + 1;
            }
            y = y + 1;
        }
        x = x + 1;
    }

    let mut aggregate_height: i32 = 0;
    let mut x: usize = 0;
    while x < 10
        invariant
            x <= 10,
            forall|c: int| 0 <= c < 10 ==> heights@[c] == column_height(board@, c),
            aggregate_height == heights_upto(board@, x as nat),
            0 <= aggregate_height <= 20 * x,
        decreases 10 - x,
    {
        aggregate_height = aggregate_height + heights[x] as i32;
        x = x + 1;
    }

    let mut bumpiness: i32 = 0;
    let mut x: usize = 0;
    while x < 9
        invariant
            x <= 9,
            forall|c: int| 0 <= c < 10 ==> heights@[c] == column_height(board@, c),
            bumpiness == bumpiness_upto(board@, x as nat),
            0 <= bumpiness <= 20 * x,
        decreases 9 - x,
    {
        let d = heights[x] as i32 - heights[x + 1] as i32;
        bumpiness = bumpiness + if d >= 0 {
            d
        } else {
            -d
        };
        x = x + 1;
    }

    completed * 900 - holes * 380 - aggregate_height * 7 - bumpiness * 20
}


/// Every rating lies between the worst and best boards the demo can see.
pub proof fn lemma_placement_score_bounds(board: Seq<u8>, p: Piece, x: int, y: int)
    ensures
        -100000 <= placement_score(board, p, x, y) <= 18000,
{
    let b = stamp(board, p, x, y, (p.kind + 1) as u8, 4);
    lemma_board_score_bounds(b);
}

/// Bounds on the parts of a board's rating.
pub proof fn lemma_board_score_bounds(b: Seq<u8>)
    ensures
        -100000 <= board_score(b) <= 18000,
{
    lemma_full_rows_upto_bound(b, 20);
    lemma_holes_in_columns_bound(b, 10);
    lemma_heights_upto_bound(b, 10);
    lemma_bumpiness_upto_bound(b, 9);
}

proof fn lemma_full_rows_upto_bound(b: Seq<u8>, n: nat)
    ensures
        full_rows_upto(b, n) <= n,
    decreases n,
{
    if n > 0 {
        lemma_full_rows_upto_bound(b, (n - 1) as nat);
    }
}

proof fn lemma_first_filled_bound(b: Seq<u8>, c: int, n: nat)
    ensures
        -1 <= first_filled(b, c, n) < n,
    decreases n,
{
    if n > 0 {
        lemma_first_filled_bound(b, c, (n - 1) as nat);
    }
}

proof fn lemma_holes_upto_bound(b: Seq<u8>, c: int, n: nat)
    ensures
        holes_upto(b, c, n) <= n,
    decreases n,
{
    if n > 0 {
        lemma_holes_upto_bound(b, c, (n - 1) as nat);
    }
}

proof fn lemma_holes_in_columns_bound(b: Seq<u8>, n: nat)
    ensures
        0 <= holes_in_columns(b, n) <= 20 * n,
    decreases n,
{
    if n > 0 {
        lemma_holes_in_columns_bound(b, (n - 1) as nat);
        lemma_holes_upto_bound(b, n - 1, 20);
    }
}

proof fn lemma_heights_upto_bound(b: Seq<u8>, n: nat)
    ensures
        0 <= heights_upto(b, n) <= 20 * n,
    decreases n,
{
    if n > 0 {
        lemma_heights_upto_bound(b, (n - 1) as nat);
        lemma_first_filled_bound(b, n - 1, 20);
    }
}

proof fn lemma_bumpiness_upto_bound(b: Seq<u8>, n: nat)
    ensures
        0 <= bumpiness_upto(b, n) <= 20 * n,
    decreases n,
{
    if n > 0 {
        lemma_bumpiness_upto_bound(b, (n - 1) as nat);
        lemma_first_filled_bound(b, n - 1, 20);
        lemma_first_filled_bound(b, n as int, 20);
    }
}

} // verus!
