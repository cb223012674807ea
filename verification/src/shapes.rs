use vstd::prelude::*;

use crate::types::Piece;

verus! {

/// A piece is valid when its kind names one of the seven tetrominoes and
/// its rotation one of four orientations.
pub open spec fn valid_piece(p: Piece) -> bool {
    p.kind < 7 && p.rot < 4
}

/// The four cells (column, row) a tetromino covers within its 4x4 box.
pub open spec fn shape(kind: u8, rot: u8) -> Seq<(i8, i8)> {
    if kind == 0 {
        if rot == 0 {
            seq![(0i8, 1i8), (1i8, 1i8), (2i8, 1i8), (3i8, 1i8)]
        } else if rot == 1 {
            seq![(2i8, 0i8), (2i8, 1i8), (2i8, 2i8), (2i8, 3i8)]
        } else if rot == 2 {
            seq![(0i8, 2i8), (1i8, 2i8), (2i8, 2i8), (3i8, 2i8)]
        } else {
            seq![(1i8, 0i8), (1i8, 1i8), (1i8, 2i8), (1i8, 3i8)]
        }
    } else if kind == 1 {
        seq![(1i8, 0i8), (2i8, 0i8), (1i8, 1i8), (2i8, 1i8)]
    } else if kind == 2 {
        if rot == 0 {
            seq![(1i8, 0i8), (0i8, 1i8), (1i8, 1i8), (2i8, 1i8)]
        } else if rot == 1 {
            seq![(1i8, 0i8), (1i8, 1i8), (2i8, 1i8), (1i8, 2i8)]
        } else if rot == 2 {
            seq![(0i8, 1i8), (1i8, 1i8), (2i8, 1i8), (1i8, 2i8)]
        } else {
            seq![(1i8, 0i8), (0i8, 1i8), (1i8, 1i8), (1i8, 2i8)]
        }
    } else if kind == 3 {
        if rot == 0 {
            seq![(1i8, 0i8), (2i8, 0i8), (0i8, 1i8), (1i8, 1i8)]
        } else if rot == 1 {
            seq![(1i8, 0i8), (1i8, 1i8), (2i8, 1i8), (2i8, 2i8)]
        } else if rot == 2 {
            seq![(1i8, 1i8), (2i8, 1i8), (0i8, 2i8), (1i8, 2i8)]
        } else {
            seq![(0i8, 0i8), (0i8, 1i8), (1i8, 1i8), (1i8, 2i8)]
        }
    } else if kind == 4 {
        if rot == 0 {
            seq![(0i8, 0i8), (1i8, 0i8), (1i8, 1i8), (2i8, 1i8)]
        } else if rot == 1 {
            seq![(2i8, 0i8), (1i8, 1i8), (2i8, 1i8), (1i8, 2i8)]
        } else if rot == 2 {
            seq![(0i8, 1i8), (1i8, 1i8), (1i8, 2i8), (2i8, 2i8)]
        } else {
            seq![(1i8, 0i8), (0i8, 1i8), (1i8, 1i8), (0i8, 2i8)]
        }
    } else if kind == 5 {
        if rot == 0 {
            seq![(0i8, 0i8), (0i8, 1i8), (1i8, 1i8), (2i8, 1i8)]
        } else if rot == 1 {
            seq![(1i8, 0i8), (2i8, 0i8), (1i8, 1i8), (1i8, 2i8)]
        } else if rot == 2 {
            seq![(0i8, 1i8), (1i8, 1i8), (2i8, 1i8), (2i8, 2i8)]
        } else {
            seq![(1i8, 0i8), (1i8, 1i8), (0i8, 2i8), (1i8, 2i8)]
        }
    } else {
        if rot == 0 {
            seq![(2i8, 0i8), (0i8, 1i8), (1i8, 1i8), (2i8, 1i8)]
        } else if rot == 1 {
            seq![(1i8, 0i8), (1i8, 1i8), (1i8, 2i8), (2i8, 2i8)]
        } else if rot == 2 {
            seq![(0i8, 1i8), (1i8, 1i8), (2i8, 1i8), (0i8, 2i8)]
        } else {
            seq![(0i8, 0i8), (1i8, 0i8), (1i8, 1i8), (1i8, 2i8)]
        }
    }
}

/// Column offset of cell `i` of a piece.
pub open spec fn cell_dx(p: Piece, i: int) -> int {
    shape(p.kind, p.rot)[i].0 as int
}

/// Row offset of cell `i` of a piece.
pub open spec fn cell_dy(p: Piece, i: int) -> int {
    shape(p.kind, p.rot)[i].1 as int
}

/// Every shape has four cells, each inside the 4x4 box.
pub proof fn lemma_shape_in_box(p: Piece)
    requires
        valid_piece(p),
    ensures
        shape(p.kind, p.rot).len() == 4,
        forall|i: int|
            0 <= i < 4 ==> 0 <= #[trigger] cell_dx(p, i) <= 3 && 0 <= cell_dy(p, i) <= 3,
{
}

/// The four cells of a piece, as (column, row) offsets within its 4x4 box.
pub fn shape_cells(piece: Piece) -> (cells: [(i8, i8); 4])
    requires
        valid_piece(piece),
    ensures
        cells@ == shape(piece.kind, piece.rot),
{
    let k = piece.kind;
    let r = piece.rot;
    let cells: [(i8, i8); 4] = if k == 0 {
        if r == 0 {
            [(0, 1), (1, 1), (2, 1), (3, 1)]
        } else if r == 1 {
            [(2, 0), (2, 1), (2, 2), (2, 3)]
        } else if r == 2 {
            [(0, 2), (1, 2), (2, 2), (3, 2)]
        } else {
            [(1, 0), (1, 1), (1, 2), (1, 3)]
        }
    } else if k == 1 {
        [(1, 0), (2, 0), (1, 1), (2, 1)]
    } else if k == 2 {
        if r == 0 {
            [(1, 0), (0, 1), (1, 1), (2, 1)]
        } else if r == 1 {
            [(1, 0), (1, 1), (2, 1), (1, 2)]
        } else if r == 2 {
            [(0, 1), (1, 1), (2, 1), (1, 2)]
        } else {
            [(1, 0), (0, 1), (1, 1), (1, 2)]
        }
    } else if k == 3 {
        if r == 0 {
            [(1, 0), (2, 0), (0, 1), (1, 1)]
        } else if r == 1 {
            [(1, 0), (1, 1), (2, 1), (2, 2)]
        } else if r == 2 {
            [(1, 1), (2, 1), (0, 2), (1, 2)]
        } else {
            [(0, 0), (0, 1), (1, 1), (1, 2)]
        }
    } else if k == 4 {
        if r == 0 {
            [(0, 0), (1, 0), (1, 1), (2, 1)]
        } else if r == 1 {
            [(2, 0), (1, 1), (2, 1), (1, 2)]
        } else if r == 2 {
            [(0, 1), (1, 1), (1, 2), (2, 2)]
        } else {
            [(1, 0), (0, 1), (1, 1), (0, 2)]
        }
    } else if k == 5 {
        if r == 0 {
            [(0, 0), (0, 1), (1, 1), (2, 1)]
        } else if r == 1 {
            [(1, 0), (2, 0), (1, 1), (1, 2)]
        } else if r == 2 {
            [(0, 1), (1, 1), (2, 1), (2, 2)]
        } else {
            [(1, 0), (1, 1), (0, 2), (1, 2)]
        }
    } else {
        if r == 0 {
            [(2, 0), (0, 1), (1, 1), (2, 1)]
        } else if r == 1 {
            [(1, 0), (1, 1), (1, 2), (2, 2)]
        } else if r == 2 {
            [(0, 1), (1, 1), (2, 1), (0, 2)]
        } else {
            [(0, 0), (1, 0), (1, 1), (1, 2)]
        }
    };
    assert(cells@ =~= shape(k, r));
    cells
}

} // verus!
