use vstd::prelude::*;

use crate::board::{
    compact, fits, full_rows_mask, full_rows_mask_upto, in_mask, kept_from, lemma_fits_bounds, lemma_full_rows_mask,
    lemma_empty_mask, lemma_kept_from, lemma_rows_in_mask_bound, lemma_rows_in_mask_zero, lemma_stamp_len, on_board,
    popcount, row_full, stamp,
};
use crate::demo::{best_target, candidate, demo_target, drop_y};
use crate::model::{
    empty_board, empty_ids, empty_styles, first_kick, kick, lemma_first_kick_below,
    lemma_kick_keeps_height, level_for, rotated_piece, sat_u16, sat_u32,
    grounded, sat_u8, spec_add_line_score, spec_age_input_buffer, spec_demo_fall,
    spec_lock_demo_piece, spec_new, spec_random_piece, spec_random_style, spec_reset_cpu_demo,
    spec_reset_lock_state, spec_reset_timing_state, spec_set_demo_target, spec_spawn_demo_next, spec_start_game,
    spec_tick, spec_tick_soft_drop_sound_timer, spec_update_cpu_demo, spec_apply_buffered_input, spec_apply_clear_mask,
    spec_buffer_input, spec_gravity, spec_hard_drop, spec_lock_piece, spec_rotate_on,
    spec_soft_drop, spec_spawn_next, spec_stamp_current, spec_touch_hi_score,
    spec_try_horizontal_move, spec_try_move, spec_try_rotate, spec_update_clearing,
    spec_update_horizontal_movement, spec_update_lock_delay, spec_update_playing, wf, GameState,
};
use crate::shapes::{cell_dx, cell_dy, lemma_shape_in_box, valid_piece};
use crate::types::{
    empty_style, Mode, Piece, SoundEvent, BTN_1, BTN_2, BTN_UP, LINE_CLEAR_FRAMES, LOCK_RESET_LIMIT,
    START_BUTTONS, START_X, START_Y,
};

verus! {

// ---------------------------------------------------------------------------
// What every reachable game keeps true
// ---------------------------------------------------------------------------

/// A block colour the pieces are drawn in: palette entries 2 to 4.
pub open spec fn piece_color(c: u8) -> bool {
    2 <= c <= 4
}

/// A board cell is either empty (0), with no piece id and the empty style,
/// or holds a piece kind plus one (1..=7), with a piece id and a piece
/// colour.
#[verifier::inline]
pub open spec fn cell_ok(s: GameState, i: int) -> bool {
    &&& s.board[i] <= 7
    &&& s.board[i] == 0 ==> s.ids[i] == 0 && s.styles[i] == empty_style()
    &&& s.board[i] != 0 ==> s.ids[i] != 0 && piece_color(s.styles[i].color)
}

/// Every cell is as above, and the pieces that will lock next carry a
/// piece colour and a nonzero id.
pub open spec fn cells_ok(s: GameState) -> bool {
    &&& forall|i: int| #![trigger s.board[i]] 0 <= i < 200 ==> cell_ok(s, i)
    &&& s.next_piece_id != 0
    &&& piece_color(s.current_style.color)
    &&& piece_color(s.next_style.color)
}

/// The score never exceeds the hi score, and the level is the one the
/// cleared lines earn.
pub open spec fn scores_ok(s: GameState) -> bool {
    s.score <= s.hi_score && s.level == level_for(s.lines)
}

/// Unless the game is over or a line clear is animating, the falling piece
/// (the player's, or the title demo's) lies within the columns, above the
/// floor and on no locked block.
pub open spec fn piece_ok(s: GameState) -> bool {
    s.mode != Mode::GameOver && s.clear_timer == 0 ==> fits(s.board, s.current, s.x as int, s.y as int)
}

/// A grounded piece restarts its lock delay at most 15 times, and a line
/// clear lasts at most its 14 frames.
pub open spec fn timers_ok(s: GameState) -> bool {
    s.lock_resets <= LOCK_RESET_LIMIT && s.clear_timer <= LINE_CLEAR_FRAMES
}

/// No row of the board is full.
pub open spec fn no_full_row(board: Seq<u8>) -> bool {
    forall|y: int| 0 <= y < 20 ==> !#[trigger] row_full(board, y)
}

/// A line clear runs exactly while the clear mask holds rows, and the rows
/// it holds are the full rows of the board; outside a clear no row is full.
pub open spec fn clear_ok(s: GameState) -> bool {
    &&& s.clear_timer == 0 ==> s.clear_mask == 0 && no_full_row(s.board)
    &&& s.clear_timer > 0 ==> s.clear_mask == full_rows_mask(s.board) && s.clear_mask != 0
}

/// The invariant of the game.
pub open spec fn game_invariant(s: GameState) -> bool {
    wf(s) && cells_ok(s) && scores_ok(s) && piece_ok(s) && timers_ok(s) && clear_ok(s)
}

/// The hi score never falls, and a save is asked for exactly when it rises:
/// a pending request stays until it is taken, a rise makes one, and
/// nothing else does.
pub open spec fn records_kept(s: GameState, t: GameState) -> bool {
    &&& s.hi_score <= t.hi_score
    &&& t.save_requested == (s.save_requested || t.hi_score > s.hi_score)
}

/// Score and cleared lines never fall.
pub open spec fn progress_kept(s: GameState, t: GameState) -> bool {
    s.score <= t.score && s.lines <= t.lines
}

/// The line cue tells how many rows a frame cleared: one to four, and the
/// count of cleared lines grows by that many (stopping at the largest
/// u16). Under any other cue the count stays.
pub open spec fn lines_follow(s: GameState, t: GameState, sound: SoundEvent) -> bool {
    match sound {
        SoundEvent::Line(n) => 1 <= n <= 4 && t.lines == sat_u16(s.lines + n),
        _ => t.lines == s.lines,
    }
}

/// The cue is not a line cue.
pub open spec fn not_line(sound: SoundEvent) -> bool {
    match sound {
        SoundEvent::Line(_) => false,
        _ => true,
    }
}

// ---------------------------------------------------------------------------
// Board facts
// ---------------------------------------------------------------------------

/// The first `n` cells of a piece at (x, y) that lie on the board include
/// the cell at index `i`.
pub open spec fn stamped(p: Piece, x: int, y: int, n: nat, i: int) -> bool
    decreases n,
{
    if n == 0 {
        false
    } else {
        let bx = x + cell_dx(p, n - 1);
        let by = y + cell_dy(p, n - 1);
        stamped(p, x, y, (n - 1) as nat, i) || (on_board(bx, by) && by * 10 + bx == i)
    }
}

/// Stamping writes exactly the cells it covers.
proof fn lemma_stamp_at<T>(s: Seq<T>, p: Piece, x: int, y: int, v: T, n: nat, i: int)
    requires
        s.len() == 200,
        0 <= i < 200,
    ensures
        stamp(s, p, x, y, v, n)[i] == if stamped(p, x, y, n, i) {
            v
        } else {
            s[i]
        },
    decreases n,
{
    lemma_stamp_len(s, p, x, y, v, n);
    if n > 0 {
        lemma_stamp_at(s, p, x, y, v, (n - 1) as nat, i);
        lemma_stamp_len(s, p, x, y, v, (n - 1) as nat);
    }
}

/// A stamped index is the board index of one of the piece's cells.
proof fn lemma_stamped_cell(p: Piece, x: int, y: int, n: nat, i: int)
    requires
        stamped(p, x, y, n, i),
    ensures
        exists|k: int|
            0 <= k < n && on_board(x + cell_dx(p, k), y + cell_dy(p, k)) && (y + #[trigger] cell_dy(
                p,
                k,
            )) * 10 + x + cell_dx(p, k) == i,
    decreases n,
{
    if n > 0 {
        let bx = x + cell_dx(p, n - 1);
        let by = y + cell_dy(p, n - 1);
        if !(on_board(bx, by) && by * 10 + bx == i) {
            lemma_stamped_cell(p, x, y, (n - 1) as nat, i);
        }
    }
}

/// Locking a piece onto a board without full rows fills at most four rows:
/// every row that becomes full holds one of the piece's cells.
proof fn lemma_stamp_fills_few_rows(board: Seq<u8>, p: Piece, x: int, y: int, v: u8)
    requires
        board.len() == 200,
        no_full_row(board),
    ensures
        popcount(full_rows_mask(stamp(board, p, x, y, v, 4))) <= 4,
{
    let b = stamp(board, p, x, y, v, 4);
    let mask = full_rows_mask(b);
    lemma_full_rows_mask(b);
    let r0 = y + cell_dy(p, 0);
    let r1 = y + cell_dy(p, 1);
    let r2 = y + cell_dy(p, 2);
    let r3 = y + cell_dy(p, 3);
    assert forall|j: int| 0 <= j < 32 && #[trigger] in_mask(mask, j) implies j == r0 || j == r1
        || j == r2 || j == r3 by {
        assert(j < 20 && row_full(b, j));
        assert(!row_full(board, j));
        let c = choose|c: int| 0 <= c < 10 && !(#[trigger] board[j * 10 + c] != 0);
        let idx = j * 10 + c;
        lemma_stamp_at(board, p, x, y, v, 4, idx);
        assert(b[j * 10 + c] != 0);
        assert(stamped(p, x, y, 4, idx));
        lemma_stamped_cell(p, x, y, 4, idx);
        let k = choose|k: int|
            0 <= k < 4 && on_board(x + cell_dx(p, k), y + cell_dy(p, k)) && (y + #[trigger] cell_dy(
                p,
                k,
            )) * 10 + x + cell_dx(p, k) == idx;
        let by = y + cell_dy(p, k);
        let bx = x + cell_dx(p, k);
        assert(by == j) by (nonlinear_arith)
            requires
                by * 10 + bx == j * 10 + c,
                0 <= bx < 10,
                0 <= c < 10,
        ;
        assert(k == 0 || k == 1 || k == 2 || k == 3);
    }
    lemma_rows_in_mask_bound(mask, 32, r0, r1, r2, r3);
}

/// The board positions of the rows that collapsing keeps.
proof fn lemma_compact_at<T>(s: Seq<T>, mask: u32, empty: T, i: int)
    requires
        s.len() == 200,
        0 <= i < 200,
    ensures
        compact(s, mask, empty).len() == 200,
        ({
            let kept = kept_from(mask, 0);
            let gap = 20 - kept.len();
            if i / 10 < gap {
                compact(s, mask, empty)[i] == empty
            } else {
                &&& 0 <= kept[i / 10 - gap] * 10 + i % 10 < 200
                &&& compact(s, mask, empty)[i] == s[kept[i / 10 - gap] * 10 + i % 10]
            }
        }),
{
    lemma_kept_from(mask, 0);
    let kept = kept_from(mask, 0);
    let gap = 20 - kept.len();
    if i / 10 >= gap {
        assert(0 <= kept[i / 10 - gap] < 20);
    }
}

/// On an empty board every piece fits at the spawn point.
pub proof fn lemma_spawn_fits_empty_board(p: Piece)
    requires
        valid_piece(p),
    ensures
        fits(empty_board(), p, 3, 0),
{
    lemma_shape_in_box(p);
}

/// A piece that fits still fits where it comes to rest, which lies between
/// its starting row and the floor.
pub proof fn lemma_drop_y(board: Seq<u8>, p: Piece, x: int, y: int)
    requires
        valid_piece(p),
        fits(board, p, x, y),
    ensures
        fits(board, p, x, drop_y(board, p, x, y)),
        y <= drop_y(board, p, x, y) <= 19,
        !fits(board, p, x, drop_y(board, p, x, y) + 1),
    decreases 20 - y,
{
    lemma_fits_bounds(board, p, x, y);
    if y < 20 && fits(board, p, x, y + 1) {
        lemma_drop_y(board, p, x, y + 1);
    }
}

/// The number of rows from `lo` up to (not including) `hi` in `mask`.
pub open spec fn masked_between(mask: u32, lo: int, hi: int) -> int
    decreases hi - lo,
{
    if lo >= hi {
        0
    } else {
        (if in_mask(mask, lo) {
            1int
        } else {
            0
        }) + masked_between(mask, lo + 1, hi)
    }
}

proof fn lemma_masked_split(mask: u32, lo: int, mid: int, hi: int)
    requires
        lo <= mid <= hi,
    ensures
        masked_between(mask, lo, hi) == masked_between(mask, lo, mid) + masked_between(
            mask,
            mid,
            hi,
        ),
        0 <= masked_between(mask, lo, mid) <= mid - lo,
    decreases mid - lo,
{
    if lo < mid {
        lemma_masked_split(mask, lo + 1, mid, hi);
    }
}

proof fn lemma_kept_count(mask: u32, lo: int)
    requires
        0 <= lo <= 20,
    ensures
        kept_from(mask, lo).len() == (20 - lo) - masked_between(mask, lo, 20),
    decreases 20 - lo,
{
    if lo < 20 {
        lemma_kept_count(mask, lo + 1);
    }
}

proof fn lemma_kept_index(mask: u32, lo: int, r: int)
    requires
        0 <= lo <= r < 20,
        !in_mask(mask, r),
    ensures
        0 <= (r - lo) - masked_between(mask, lo, r) < kept_from(mask, lo).len(),
        kept_from(mask, lo)[(r - lo) - masked_between(mask, lo, r)] == r,
    decreases r - lo,
{
    lemma_kept_count(mask, lo);
    lemma_masked_split(mask, lo, r, 20);
    lemma_masked_split(mask, r, r + 1, 20);
    if lo < r {
        lemma_kept_index(mask, lo + 1, r);
    }
}

/// Collapsing removes the rows in `mask` and lets the others fall: a kept
/// row moves down by the number of removed rows below it, cell for cell,
/// and as many empty rows as were removed fill the top.
pub proof fn lemma_collapse_moves_rows<T>(s: Seq<T>, mask: u32, empty: T)
    requires
        s.len() == 200,
    ensures
        forall|r: int, c: int|
            0 <= r < 20 && 0 <= c < 10 && !in_mask(mask, r) ==> #[trigger] compact(s, mask, empty)[(
            r + masked_between(mask, r + 1, 20)) * 10 + c] == #[trigger] s[r * 10 + c],
        forall|y: int, c: int|
            0 <= y < masked_between(mask, 0, 20) && 0 <= c < 10 ==> #[trigger] compact(
                s,
                mask,
                empty,
            )[y * 10 + c] == empty,
{
    lemma_kept_count(mask, 0);
    assert forall|r: int, c: int|
        0 <= r < 20 && 0 <= c < 10 && !in_mask(mask, r) implies #[trigger] compact(s, mask, empty)[(
        r + masked_between(mask, r + 1, 20)) * 10 + c] == #[trigger] s[r * 10 + c] by {
        lemma_kept_index(mask, 0, r);
        lemma_masked_split(mask, 0, r, 20);
        lemma_masked_split(mask, r, r + 1, 20);
        lemma_masked_split(mask, r + 1, 20, 20);
        let row = r + masked_between(mask, r + 1, 20);
        let i = row * 10 + c;
        assert(i / 10 == row && i % 10 == c) by (nonlinear_arith)
            requires
                i == row * 10 + c,
                0 <= c < 10,
        ;
        assert(0 <= row < 20);
    }
    assert forall|y: int, c: int|
        0 <= y < masked_between(mask, 0, 20) && 0 <= c < 10 implies #[trigger] compact(
            s,
            mask,
            empty,
        )[y * 10 + c] == empty by {
        lemma_masked_split(mask, 0, 20, 20);
        let i = y * 10 + c;
        assert(i / 10 == y) by (nonlinear_arith)
            requires
                i == y * 10 + c,
                0 <= c < 10,
        ;
    }
}

/// After the full rows are removed no row is full.
pub proof fn lemma_clear_leaves_no_full_row(board: Seq<u8>)
    requires
        board.len() == 200,
    ensures
        forall|y: int| 0 <= y < 20 ==> !row_full(#[trigger] compact(board, full_rows_mask(board), 0u8), y),
{
    let mask = full_rows_mask(board);
    let b = compact(board, mask, 0u8);
    lemma_full_rows_mask(board);
    lemma_kept_from(mask, 0);
    let kept = kept_from(mask, 0);
    let gap = 20 - kept.len();
    assert forall|y: int| 0 <= y < 20 implies !row_full(b, y) by {
        let i = y * 10;
        assert(i / 10 == y && i % 10 == 0);
        if y < gap {
            assert(b[y * 10 + 0] == 0);
        } else {
            let r = kept[y - gap];
            assert(0 <= r < 20 && !in_mask(mask, r));
            assert(!row_full(board, r));
            let c = choose|c: int| 0 <= c < 10 && !(#[trigger] board[r * 10 + c] != 0);
            let j = y * 10 + c;
            assert(j / 10 == y && j % 10 == c);
            assert(b[y * 10 + c] == board[r * 10 + c]);
        }
    }
}

/// The empty board has no full row.
proof fn lemma_empty_board_no_full_row()
    ensures
        no_full_row(empty_board()),
{
    assert forall|y: int| 0 <= y < 20 implies !#[trigger] row_full(empty_board(), y) by {
        assert(empty_board()[y * 10 + 0] == 0);
    }
}

/// The full-rows mask counts no row exactly when no row is full, and a
/// mask that counts a row is not empty.
proof fn lemma_full_mask_count(board: Seq<u8>)
    ensures
        no_full_row(board) <==> popcount(full_rows_mask(board)) == 0,
        popcount(full_rows_mask(board)) > 0 ==> full_rows_mask(board) != 0,
        full_rows_mask(board) == 0 ==> no_full_row(board),
{
    let mask = full_rows_mask(board);
    lemma_full_rows_mask(board);
    lemma_rows_in_mask_zero(mask, 32);
    if no_full_row(board) {
        assert forall|j: int| 0 <= j < 32 implies !#[trigger] in_mask(mask, j) by {
            if j < 20 {
                assert(!row_full(board, j));
            }
        }
    }
    if popcount(mask) == 0 {
        assert forall|y: int| 0 <= y < 20 implies !#[trigger] row_full(board, y) by {
            assert(!in_mask(mask, y));
        }
    }
}

/// Without full rows among the first `n`, their mask is empty.
proof fn lemma_no_full_row_mask(board: Seq<u8>, n: nat)
    requires
        n <= 20,
        no_full_row(board),
    ensures
        full_rows_mask_upto(board, n) == 0,
    decreases n,
{
    if n > 0 {
        lemma_no_full_row_mask(board, (n - 1) as nat);
        assert(!row_full(board, n - 1));
    }
}

/// Locking writes `v` into exactly the on-board cells the piece covers.
pub proof fn lemma_stamp_writes_piece<T>(s: Seq<T>, p: Piece, x: int, y: int, v: T)
    requires
        s.len() == 200,
        valid_piece(p),
    ensures
        forall|i: int|
            0 <= i < 4 && on_board(x + cell_dx(p, i), y + cell_dy(p, i)) ==> #[trigger] stamp(
                s,
                p,
                x,
                y,
                v,
                4,
            )[(y + cell_dy(p, i)) * 10 + x + cell_dx(p, i)] == v,
        forall|j: int|
            0 <= j < 200 && (forall|i: int|
                0 <= i < 4 ==> #[trigger] cell_dx(p, i) + x + (y + cell_dy(p, i)) * 10 != j)
                ==> stamp(s, p, x, y, v, 4)[j] == s[j],
{
    lemma_shape_in_box(p);
    lemma_stamp_len(s, p, x, y, v, 1);
    lemma_stamp_len(s, p, x, y, v, 2);
    lemma_stamp_len(s, p, x, y, v, 3);
    lemma_stamp_len(s, p, x, y, v, 4);
    assert(stamp(s, p, x, y, v, 0) == s);
}

// ---------------------------------------------------------------------------
// Steps of a frame
// ---------------------------------------------------------------------------

proof fn lemma_try_move_keeps(s: GameState, dx: int, dy: int)
    requires
        wf(s),
        -1 <= dx <= 1,
        0 <= dy <= 1,
    ensures
        wf(spec_try_move(s, dx, dy).0),
        spec_try_move(s, dx, dy).1 ==> fits(
            s.board,
            s.current,
            spec_try_move(s, dx, dy).0.x as int,
            spec_try_move(s, dx, dy).0.y as int,
        ),
        spec_try_move(s, dx, dy).0 == (GameState {
            x: spec_try_move(s, dx, dy).0.x,
            y: spec_try_move(s, dx, dy).0.y,
            ..s
        }),
        !spec_try_move(s, dx, dy).1 ==> spec_try_move(s, dx, dy).0 == s,
{
    if fits(s.board, s.current, s.x + dx, s.y + dy) {
        lemma_fits_bounds(s.board, s.current, s.x + dx, s.y + dy);
    }
}

proof fn lemma_try_rotate_keeps(s: GameState, direction: int)
    requires
        wf(s),
        direction == 1 || direction == -1,
    ensures
        ({
            let (t, ok) = spec_try_rotate(s, direction);
            &&& wf(t)
            &&& ok ==> fits(t.board, t.current, t.x as int, t.y as int)
            &&& !ok ==> t == s
            &&& t.board == s.board && t.ids == s.ids && t.styles == s.styles
            &&& t.mode == s.mode && t.clear_timer == s.clear_timer
            &&& t.score == s.score && t.hi_score == s.hi_score && t.lines == s.lines
            &&& t.level == s.level && t.save_requested == s.save_requested
            &&& t.next == s.next && t.demo_target_rot == s.demo_target_rot
            &&& t.demo_target_x == s.demo_target_x && t.frame == s.frame
            &&& t.clear_mask == s.clear_mask
            &&& t.next_piece_id == s.next_piece_id
            &&& t.current_style == s.current_style && t.next_style == s.next_style
            &&& t.lock_resets <= s.lock_resets + 1
            &&& (s.lock_resets <= LOCK_RESET_LIMIT ==> t.lock_resets <= LOCK_RESET_LIMIT)
        }),
{
    reveal(spec_try_rotate);
    let rotated = rotated_piece(s.current, direction);
    let k = first_kick(s.board, rotated, s.x as int, s.y as int, 0);
    lemma_first_kick_below(s.board, rotated, s.x as int, s.y as int, 0);
    if k < 9 {
        lemma_fits_bounds(s.board, rotated, s.x + kick(k).0, s.y + kick(k).1);
        if s.y <= -4 {
            lemma_kick_keeps_height(s.board, rotated, s.x as int, s.y as int);
        }
    }
}

proof fn lemma_stamp_current_keeps(s: GameState)
    requires
        wf(s),
        cells_ok(s),
    ensures
        wf(spec_stamp_current(s)),
        cells_ok(spec_stamp_current(s)),
{
    let t = spec_stamp_current(s);
    let (x, y) = (s.x as int, s.y as int);
    lemma_stamp_len(s.board, s.current, x, y, (s.current.kind + 1) as u8, 4);
    lemma_stamp_len(s.ids, s.current, x, y, s.next_piece_id, 4);
    lemma_stamp_len(s.styles, s.current, x, y, s.current_style, 4);
    assert forall|i: int| #![trigger t.board[i]] 0 <= i < 200 implies cell_ok(t, i) by {
        lemma_stamp_at(s.board, s.current, x, y, (s.current.kind + 1) as u8, 4, i);
        lemma_stamp_at(s.ids, s.current, x, y, s.next_piece_id, 4, i);
        lemma_stamp_at(s.styles, s.current, x, y, s.current_style, 4, i);
        assert(cell_ok(s, i));
    }
}

proof fn lemma_apply_clear_mask_keeps(s: GameState, mask: u32)
    requires
        wf(s),
        cells_ok(s),
    ensures
        wf(spec_apply_clear_mask(s, mask)),
        cells_ok(spec_apply_clear_mask(s, mask)),
{
    let t = spec_apply_clear_mask(s, mask);
    assert forall|i: int| #![trigger t.board[i]] 0 <= i < 200 implies cell_ok(t, i) by {
        lemma_compact_at(s.board, mask, 0u8, i);
        lemma_compact_at(s.ids, mask, 0u16, i);
        lemma_compact_at(s.styles, mask, empty_style(), i);
        let kept = kept_from(mask, 0);
        let gap = 20 - kept.len();
        if i / 10 >= gap {
            assert(cell_ok(s, kept[i / 10 - gap] * 10 + i % 10));
        }
    }
}

proof fn lemma_add_line_score_keeps(s: GameState, cleared: u8)
    ensures
        ({
            let t = spec_add_line_score(s, cleared);
            &&& scores_ok(t)
            &&& t.lines == sat_u16(s.lines + cleared)
            &&& records_kept(s, t)
            &&& progress_kept(s, t)
            &&& t == (GameState {
                score: t.score,
                lines: t.lines,
                level: t.level,
                hi_score: t.hi_score,
                save_requested: t.save_requested,
                ..s
            })
        }),
{
    reveal(spec_add_line_score);
}

proof fn lemma_spawn_next_keeps(s: GameState)
    requires
        wf(s),
        cells_ok(s),
        scores_ok(s),
        timers_ok(s),
        clear_ok(s),
    ensures
        ({
            let t = spec_spawn_next(s);
            &&& game_invariant(t)
            &&& records_kept(s, t)
            &&& progress_kept(s, t)
            &&& t.lines == s.lines
            &&& t.board == s.board
            &&& t.clear_timer == s.clear_timer
            &&& t.clear_mask == s.clear_mask
            &&& (t.mode == s.mode || t.mode == Mode::GameOver)
        }),
{
    reveal(spec_spawn_next);
}

proof fn lemma_lock_piece_keeps(s: GameState)
    requires
        wf(s),
        cells_ok(s),
        scores_ok(s),
        timers_ok(s),
        clear_ok(s),
        s.clear_timer == 0,
    ensures
        ({
            let (t, sound) = spec_lock_piece(s);
            &&& game_invariant(t)
            &&& records_kept(s, t)
            &&& progress_kept(s, t)
            &&& lines_follow(s, t, sound)
            &&& (t.mode == s.mode || t.mode == Mode::GameOver)
        }),
{
    reveal(spec_lock_piece);
    let s0 = GameState { lock_timer: 0, lock_resets: 0, ..s };
    let s1 = spec_stamp_current(s0);
    lemma_stamp_current_keeps(s0);
    let mask = full_rows_mask(s1.board);
    let cleared = popcount(mask);
    lemma_full_mask_count(s1.board);
    lemma_stamp_fills_few_rows(s0.board, s0.current, s0.x as int, s0.y as int, (s0.current.kind + 1) as u8);
    if cleared > 0 {
        let s2 = GameState { clear_mask: mask, clear_timer: 14, ..s1 };
        lemma_add_line_score_keeps(s2, cleared as u8);
    } else {
        lemma_spawn_next_keeps(s1);
    }
}


proof fn lemma_hard_drop_keeps(s: GameState)
    requires
        game_invariant(s),
        s.mode == Mode::Playing,
        s.clear_timer == 0,
    ensures
        ({
            let (t, sound) = spec_hard_drop(s);
            &&& game_invariant(t)
            &&& records_kept(s, t)
            &&& progress_kept(s, t)
            &&& lines_follow(s, t, sound)
            &&& (t.mode == s.mode || t.mode == Mode::GameOver)
        }),
{
    reveal(spec_hard_drop);
    lemma_drop_y(s.board, s.current, s.x as int, s.y as int);
    let ry = drop_y(s.board, s.current, s.x as int, s.y as int);
    let s1 = GameState { y: ry as i8, ..s };
    let s2 = if ry - s.y > 0 {
        spec_touch_hi_score(GameState { score: sat_u32(s1.score + (ry - s.y) * 2), ..s1 })
    } else {
        s1
    };
    lemma_lock_piece_keeps(s2);
}

proof fn lemma_update_lock_delay_keeps(s: GameState)
    requires
        game_invariant(s),
        s.mode == Mode::Playing,
        s.clear_timer == 0,
    ensures
        ({
            let (t, lock) = spec_update_lock_delay(s);
            &&& game_invariant(t)
            &&& records_kept(s, t)
            &&& progress_kept(s, t)
            &&& match lock {
                Some(sound) => lines_follow(s, t, sound),
                None => t.lines == s.lines,
            }
            &&& (t.mode == s.mode || t.mode == Mode::GameOver)
        }),
{
    reveal(spec_update_lock_delay);
    if grounded(s) {
        let s1 = GameState { lock_timer: sat_u8(s.lock_timer + 1), ..s };
        if s1.lock_timer > 20 {
            lemma_lock_piece_keeps(s1);
        }
    }
}

proof fn lemma_try_horizontal_move_keeps(s: GameState, dx: int)
    requires
        game_invariant(s),
        dx == 1 || dx == -1,
    ensures
        ({
            let (t, sound) = spec_try_horizontal_move(s, dx);
            &&& game_invariant(t)
            &&& records_kept(s, t)
            &&& progress_kept(s, t)
            &&& t.lines == s.lines && not_line(sound)
            &&& t.mode == s.mode && t.clear_timer == s.clear_timer
        }),
{
    lemma_try_move_keeps(s, dx, 0);
}

proof fn lemma_update_horizontal_movement_keeps(s: GameState, input: u8, pressed: u8)
    requires
        game_invariant(s),
    ensures
        ({
            let (t, sound) = spec_update_horizontal_movement(s, input, pressed);
            &&& game_invariant(t)
            &&& records_kept(s, t)
            &&& progress_kept(s, t)
            &&& t.lines == s.lines && not_line(sound)
            &&& t.mode == s.mode && t.clear_timer == s.clear_timer
        }),
{
    reveal(spec_update_horizontal_movement);
    let s1 = GameState { right_hold_frames: 0, ..s };
    let s2 = GameState { left_hold_frames: 0, ..s };
    lemma_try_horizontal_move_keeps(GameState { left_hold_frames: 0, ..s1 }, -1);
    lemma_try_horizontal_move_keeps(
        GameState { left_hold_frames: sat_u8(s1.left_hold_frames + 1), ..s1 },
        -1,
    );
    lemma_try_horizontal_move_keeps(GameState { right_hold_frames: 0, ..s2 }, 1);
    lemma_try_horizontal_move_keeps(
        GameState { right_hold_frames: sat_u8(s2.right_hold_frames + 1), ..s2 },
        1,
    );
}

proof fn lemma_rotate_on_keeps(
    s: GameState,
    pressed: u8,
    button: u8,
    direction: int,
    sound: SoundEvent,
)
    requires
        game_invariant(s),
        direction == 1 || direction == -1,
    ensures
        ({
            let (t, out) = spec_rotate_on(s, pressed, button, direction, sound);
            &&& game_invariant(t)
            &&& records_kept(s, t)
            &&& progress_kept(s, t)
            &&& t.lines == s.lines
            &&& (not_line(sound) ==> not_line(out))
            &&& t.mode == s.mode && t.clear_timer == s.clear_timer
        }),
{
    lemma_try_rotate_keeps(s, direction);
}

proof fn lemma_apply_buffered_input_keeps(s: GameState)
    requires
        game_invariant(s),
    ensures
        ({
            let t = spec_apply_buffered_input(s);
            &&& game_invariant(t)
            &&& records_kept(s, t)
            &&& progress_kept(s, t)
            &&& t.lines == s.lines
            &&& t.mode == s.mode && t.clear_timer == s.clear_timer
            &&& t.board == s.board && t.clear_mask == s.clear_mask
        }),
{
    reveal(spec_apply_buffered_input);
    if !(s.input_buffer_timer == 0 || s.mode != Mode::Playing) {
        let input = s.buffered_input;
        let s1 = GameState { buffered_input: 0, input_buffer_timer: 0, ..s };
        lemma_try_rotate_keeps(s1, 1);
        lemma_try_rotate_keeps(s1, -1);
        let s2 = if input & 1 != 0 {
            spec_try_rotate(s1, 1).0
        } else if input & 2 != 0 {
            spec_try_rotate(s1, -1).0
        } else {
            s1
        };
        lemma_try_move_keeps(s2, -1, 0);
        lemma_try_move_keeps(s2, 1, 0);
    }
}

proof fn lemma_update_clearing_keeps(s: GameState, pressed: u8)
    requires
        game_invariant(s),
        s.clear_timer > 0,
    ensures
        ({
            let (t, sound) = spec_update_clearing(s, pressed);
            &&& game_invariant(t)
            &&& records_kept(s, t)
            &&& progress_kept(s, t)
            &&& t.lines == s.lines && not_line(sound)
            &&& (t.mode == s.mode || t.mode == Mode::GameOver)
        }),
{
    reveal(spec_update_clearing);
    let s1 = spec_buffer_input(s, pressed);
    let s2 = GameState { clear_timer: (s1.clear_timer - 1) as u8, ..s1 };
    if s2.clear_timer == 0 {
        let s25 = spec_apply_clear_mask(s2, s2.clear_mask);
        lemma_apply_clear_mask_keeps(s2, s2.clear_mask);
        lemma_clear_leaves_no_full_row(s2.board);
        let s3 = GameState { clear_mask: 0, ..s25 };
        lemma_spawn_next_keeps(s3);
        let s4 = spec_spawn_next(s3);
        if s4.mode != Mode::GameOver {
            lemma_apply_buffered_input_keeps(s4);
        }
    }
}

proof fn lemma_soft_drop_keeps(s: GameState, input: u8, sound: SoundEvent)
    requires
        game_invariant(s),
    ensures
        ({
            let (t, out) = spec_soft_drop(s, input, sound);
            &&& game_invariant(t)
            &&& records_kept(s, t)
            &&& progress_kept(s, t)
            &&& t.lines == s.lines
            &&& (not_line(sound) ==> not_line(out))
            &&& t.mode == s.mode && t.clear_timer == s.clear_timer
        }),
{
    reveal(spec_soft_drop);
    lemma_try_move_keeps(s, 0, 1);
}

proof fn lemma_gravity_keeps(s: GameState)
    requires
        game_invariant(s),
    ensures
        ({
            let t = spec_gravity(s);
            &&& game_invariant(t)
            &&& records_kept(s, t)
            &&& progress_kept(s, t)
            &&& t.lines == s.lines
            &&& t.mode == s.mode && t.clear_timer == s.clear_timer
        }),
{
    reveal(spec_gravity);
    lemma_try_move_keeps(s, 0, 1);
}

proof fn lemma_update_playing_keeps(s: GameState, input: u8, pressed: u8)
    requires
        game_invariant(s),
        s.mode == Mode::Playing,
    ensures
        ({
            let (t, sound) = spec_update_playing(s, input, pressed);
            &&& game_invariant(t)
            &&& records_kept(s, t)
            &&& progress_kept(s, t)
            &&& lines_follow(s, t, sound)
            &&& (t.mode == s.mode || t.mode == Mode::GameOver)
        }),
{
    reveal(spec_update_playing);
    if s.clear_timer > 0 {
        lemma_update_clearing_keeps(s, pressed);
    } else {
        let (s1, snd1) = spec_update_horizontal_movement(s, input, pressed);
        lemma_update_horizontal_movement_keeps(s, input, pressed);
        let (s2, snd2) = spec_rotate_on(s1, pressed, BTN_1, 1, snd1);
        lemma_rotate_on_keeps(s1, pressed, BTN_1, 1, snd1);
        let (s3, snd3) = spec_rotate_on(s2, pressed, BTN_2, -1, snd2);
        lemma_rotate_on_keeps(s2, pressed, BTN_2, -1, snd2);
        if pressed & BTN_UP != 0 {
            lemma_hard_drop_keeps(s3);
        } else {
            let (s4, snd4) = spec_soft_drop(s3, input, snd3);
            lemma_soft_drop_keeps(s3, input, snd3);
            let s5 = spec_gravity(s4);
            lemma_gravity_keeps(s4);
            lemma_update_lock_delay_keeps(s5);
        }
    }
}


// ---------------------------------------------------------------------------
// The title-screen demo
// ---------------------------------------------------------------------------

/// The demo plays on its own board: it keeps the mode, the scores and the
/// save request.
pub open spec fn demo_kept(s: GameState, t: GameState) -> bool {
    &&& t.mode == s.mode
    &&& t.score == s.score
    &&& t.lines == s.lines
    &&& t.level == s.level
    &&& t.hi_score == s.hi_score
    &&& t.save_requested == s.save_requested
}

proof fn lemma_demo_target_rot(board: Seq<u8>, kind: u8)
    ensures
        demo_target(board, kind).1 < 4,
{
    if exists|r: int, x: int| best_target(board, kind, r, x) {
        let (r, x) = choose|r: int, x: int| best_target(board, kind, r, x);
        assert(candidate(board, kind, r, x));
    }
}

proof fn lemma_set_demo_target_keeps(s: GameState)
    requires
        wf(s),
    ensures
        wf(spec_set_demo_target(s)),
{
    lemma_demo_target_rot(s.board, s.current.kind);
}

proof fn lemma_reset_cpu_demo_keeps(s: GameState)
    requires
        wf(s),
        cells_ok(s),
        scores_ok(s),
        timers_ok(s),
        s.mode == Mode::Title,
    ensures
        game_invariant(spec_reset_cpu_demo(s)),
        demo_kept(s, spec_reset_cpu_demo(s)),
{
    reveal(spec_reset_cpu_demo);
    let (s1, ck) = spec_random_piece(s);
    let (s2, cs) = spec_random_style(s1);
    let (s3, nk) = spec_random_piece(s2);
    let (s4, ns) = spec_random_style(s3);
    let s5 = GameState {
        board: empty_board(),
        ids: empty_ids(),
        styles: empty_styles(),
        clear_mask: 0,
        clear_timer: 0,
        current: Piece { kind: ck, rot: 0 },
        current_style: cs,
        next: Piece { kind: nk, rot: 0 },
        next_style: ns,
        x: START_X,
        y: START_Y,
        ..s4
    };
    assert forall|i: int| #![trigger s5.board[i]] 0 <= i < 200 implies cell_ok(s5, i) by {
        assert(s5.board[i] == 0);
        assert(s5.ids[i] == 0);
        assert(s5.styles[i] == empty_style());
    }
    lemma_empty_board_no_full_row();
    lemma_spawn_fits_empty_board(s5.current);
    lemma_set_demo_target_keeps(spec_reset_timing_state(s5));
}

proof fn lemma_spawn_demo_next_keeps(s: GameState)
    requires
        wf(s),
        cells_ok(s),
        scores_ok(s),
        timers_ok(s),
        clear_ok(s),
        s.clear_timer == 0,
        s.mode == Mode::Title,
    ensures
        game_invariant(spec_spawn_demo_next(s)),
        demo_kept(s, spec_spawn_demo_next(s)),
{
    reveal(spec_spawn_demo_next);
    let (s1, kind) = spec_random_piece(s);
    let (s2, style) = spec_random_style(s1);
    let s3 = GameState {
        current: Piece { kind: s.next.kind, rot: 0 },
        current_style: s.next_style,
        next: Piece { kind, rot: 0 },
        next_style: style,
        x: START_X,
        y: START_Y,
        lock_timer: 0,
        lock_resets: 0,
        ..s2
    };
    lemma_set_demo_target_keeps(s3);
    let s4 = spec_set_demo_target(s3);
    lemma_reset_cpu_demo_keeps(s4);
}

proof fn lemma_lock_demo_piece_keeps(s: GameState)
    requires
        game_invariant(s),
        s.clear_timer == 0,
        s.mode == Mode::Title,
    ensures
        game_invariant(spec_lock_demo_piece(s)),
        demo_kept(s, spec_lock_demo_piece(s)),
{
    reveal(spec_lock_demo_piece);
    lemma_stamp_current_keeps(s);
    let s1 = spec_stamp_current(s);
    lemma_full_mask_count(s1.board);
    if full_rows_mask(s1.board) == 0 {
        lemma_spawn_demo_next_keeps(s1);
    }
}

proof fn lemma_demo_fall_keeps(s: GameState)
    requires
        game_invariant(s),
        s.clear_timer == 0,
        s.mode == Mode::Title,
    ensures
        game_invariant(spec_demo_fall(s)),
        demo_kept(s, spec_demo_fall(s)),
{
    lemma_try_move_keeps(s, 0, 1);
    if s.frame % 3 == 0 {
        lemma_lock_demo_piece_keeps(spec_try_move(s, 0, 1).0);
    }
}

proof fn lemma_update_cpu_demo_keeps(s: GameState)
    requires
        game_invariant(s),
        s.mode == Mode::Title,
    ensures
        game_invariant(spec_update_cpu_demo(s)),
        demo_kept(s, spec_update_cpu_demo(s)),
{
    reveal(spec_update_cpu_demo);
    if s.clear_timer > 0 {
        let s1 = GameState { clear_timer: (s.clear_timer - 1) as u8, ..s };
        if s1.clear_timer == 0 {
            lemma_apply_clear_mask_keeps(s1, s1.clear_mask);
            lemma_clear_leaves_no_full_row(s1.board);
            lemma_spawn_demo_next_keeps(
                GameState { clear_mask: 0, ..spec_apply_clear_mask(s1, s1.clear_mask) },
            );
        }
    } else if s.current.rot != s.demo_target_rot {
        lemma_try_rotate_keeps(s, 1);
        let t = spec_try_rotate(s, 1).0;
        assert(valid_piece(t.current));
    } else {
        lemma_try_move_keeps(s, 1, 0);
        lemma_try_move_keeps(s, -1, 0);
        let t1 = spec_try_move(s, 1, 0).0;
        let t2 = spec_try_move(s, -1, 0).0;
        lemma_demo_fall_keeps(GameState { demo_target_x: t1.x, ..t1 });
        lemma_demo_fall_keeps(GameState { demo_target_x: t2.x, ..t2 });
        lemma_demo_fall_keeps(s);
    }
}

// ---------------------------------------------------------------------------
// Whole frames
// ---------------------------------------------------------------------------

/// Starting a game gives an empty board with the first piece at the spawn
/// point, a zero score, lines and level, and keeps the hi score.
pub proof fn lemma_start_game(s: GameState)
    requires
        wf(s),
    ensures
        ({
            let t = spec_start_game(s);
            &&& game_invariant(t)
            &&& records_kept(s, t)
            &&& t.mode == Mode::Playing
            &&& t.board == empty_board()
            &&& t.score == 0 && t.lines == 0 && t.level == 0
            &&& t.hi_score == s.hi_score
            &&& t.clear_timer == 0
            &&& t.x == 3 && t.y == 0
        }),
{
    reveal(spec_start_game);
    let t = spec_start_game(s);
    lemma_spawn_fits_empty_board(t.current);
    lemma_empty_board_no_full_row();
}

proof fn lemma_tail_keeps(s: GameState, input: u8)
    requires
        game_invariant(s),
    ensures
        ({
            let t = spec_tick_soft_drop_sound_timer(
                spec_age_input_buffer(GameState { last_input: input, ..s }),
            );
            &&& game_invariant(t)
            &&& t == (GameState {
                last_input: t.last_input,
                input_buffer_timer: t.input_buffer_timer,
                buffered_input: t.buffered_input,
                soft_drop_sound_timer: t.soft_drop_sound_timer,
                ..s
            })
        }),
{
}

/// Every frame keeps the game invariant: pieces stay valid and near the
/// board; every cell holds nothing, or a piece kind drawn in colour 2 to 4;
/// the score never passes the hi score and the level follows the cleared
/// lines; a line clear runs exactly while rows are marked, the marked rows
/// are the full ones, and outside a clear no row is full; and unless the
/// game is over or a clear animates, the falling piece (the player's or the
/// title demo's) fits where it is.
pub proof fn lemma_tick_keeps_invariant(s: GameState, input: u8)
    requires
        game_invariant(s),
    ensures
        game_invariant(spec_tick(s, input).0),
{
    lemma_tick(s, input);
}

/// No frame lowers the hi score; a frame that raises it asks for a save,
/// and a save request stays until it is taken. While a game runs, no frame
/// lowers the score or the count of cleared lines.
pub proof fn lemma_tick_keeps_records(s: GameState, input: u8)
    requires
        game_invariant(s),
    ensures
        records_kept(s, spec_tick(s, input).0),
        s.mode == Mode::Playing ==> progress_kept(s, spec_tick(s, input).0),
{
    lemma_tick(s, input);
}

/// A line cue counts the rows the frame cleared, one to four, and the
/// count of cleared lines grows by that many; under any other cue but the
/// start cue the count stays.
pub proof fn lemma_line_cue_counts_rows(s: GameState, input: u8)
    requires
        game_invariant(s),
    ensures
        spec_tick(s, input).1 != SoundEvent::Start ==> lines_follow(
            s,
            spec_tick(s, input).0,
            spec_tick(s, input).1,
        ),
{
    lemma_tick(s, input);
}

proof fn lemma_tick(s: GameState, input: u8)
    requires
        game_invariant(s),
    ensures
        game_invariant(spec_tick(s, input).0),
        records_kept(s, spec_tick(s, input).0),
        s.mode == Mode::Playing ==> progress_kept(s, spec_tick(s, input).0),
        spec_tick(s, input).1 != SoundEvent::Start ==> lines_follow(
            s,
            spec_tick(s, input).0,
            spec_tick(s, input).1,
        ),
{
    reveal(spec_tick);
    let s0 = GameState { frame: (if s.frame == u32::MAX { 0 } else { s.frame + 1 }) as u32, ..s };
    let pressed = input & !s.last_input;
    match s0.mode {
        Mode::Title => {
            if pressed & START_BUTTONS != 0 {
                lemma_start_game(s0);
                lemma_tail_keeps(spec_start_game(s0), input);
            } else {
                lemma_update_cpu_demo_keeps(s0);
                lemma_tail_keeps(spec_update_cpu_demo(s0), input);
            }
        },
        Mode::GameOver => {
            if pressed & START_BUTTONS != 0 {
                lemma_start_game(s0);
                lemma_tail_keeps(spec_start_game(s0), input);
            } else {
                lemma_tail_keeps(s0, input);
            }
        },
        Mode::Playing => {
            lemma_update_playing_keeps(s0, input, pressed);
            lemma_tail_keeps(spec_update_playing(s0, input, pressed).0, input);
        },
    }
}

/// A new game satisfies the invariant, sits on the title screen with a zero
/// score, and remembers the hi score it was given.
pub proof fn lemma_new_game(hi_score: u32)
    ensures
        game_invariant(spec_new(hi_score)),
        spec_new(hi_score).mode == Mode::Title,
        spec_new(hi_score).score == 0,
        spec_new(hi_score).hi_score == hi_score,
        !spec_new(hi_score).save_requested,
{
    let s = spec_new(hi_score);
    lemma_demo_target_rot(s.board, s.current.kind);
    lemma_spawn_fits_empty_board(s.current);
    lemma_empty_board_no_full_row();
}


/// In every reachable state a line clear runs exactly while some row is
/// marked for clearing, only board rows are marked, and every marked row
/// is full; outside a clear no row is full.
pub proof fn lemma_clearing_rows_are_full(s: GameState)
    requires
        game_invariant(s),
    ensures
        (s.clear_timer > 0) == (exists|y: int| 0 <= y < 20 && #[trigger] in_mask(s.clear_mask, y)),
        forall|y: int|
            0 <= y < 32 && #[trigger] in_mask(s.clear_mask, y) ==> y < 20 && row_full(s.board, y),
        s.clear_timer == 0 ==> no_full_row(s.board),
{
    lemma_full_rows_mask(s.board);
    if s.clear_timer > 0 {
        if no_full_row(s.board) {
            lemma_no_full_row_mask(s.board, 20);
        }
        let y = choose|y: int| 0 <= y < 20 && !!#[trigger] row_full(s.board, y);
        assert(in_mask(s.clear_mask, y));
    } else {
        assert forall|y: int| 0 <= y < 32 implies !#[trigger] in_mask(s.clear_mask, y) by {
            lemma_empty_mask(y);
        }
    }
}

/// A running game only ends in game over; it never returns to the title.
pub proof fn lemma_playing_stays_in_game(s: GameState, input: u8)
    requires
        game_invariant(s),
        s.mode == Mode::Playing,
    ensures
        spec_tick(s, input).0.mode == Mode::Playing || spec_tick(s, input).0.mode
            == Mode::GameOver,
{
    reveal(spec_tick);
    let s0 = GameState { frame: (if s.frame == u32::MAX { 0 } else { s.frame + 1 }) as u32, ..s };
    lemma_update_playing_keeps(s0, input, input & !s.last_input);
}

/// A fresh press, since the last frame, of X (button 1), Z (button 2) or
/// up.
pub open spec fn start_pressed(last: u8, input: u8) -> bool {
    let pressed = input & !last;
    pressed & 1u8 != 0 || pressed & 2u8 != 0 || pressed & 64u8 != 0
}

proof fn lemma_start_buttons(last: u8, input: u8)
    ensures
        ((input & !last) & START_BUTTONS != 0) == start_pressed(last, input),
{
    assert(START_BUTTONS == 67u8) by (bit_vector)
        requires
            START_BUTTONS == BTN_1 | BTN_2 | BTN_UP,
            BTN_1 == 1u8,
            BTN_2 == 2u8,
            BTN_UP == 64u8,
    ;
    let p = input & !last;
    assert((p & 67u8 != 0) == (p & 1u8 != 0 || p & 2u8 != 0 || p & 64u8 != 0)) by (bit_vector);
}

/// On the title screen, a frame without a fresh press of X, Z or up runs
/// the demo: the game does not start and the scores do not change.
pub proof fn lemma_title_runs_demo(s: GameState, input: u8)
    requires
        game_invariant(s),
        s.mode == Mode::Title,
        !start_pressed(s.last_input, input),
    ensures
        ({
            let t = spec_tick(s, input).0;
            &&& t.mode == Mode::Title
            &&& t.score == s.score && t.lines == s.lines && t.level == s.level
            &&& t.hi_score == s.hi_score
        }),
{
    lemma_start_buttons(s.last_input, input);
    reveal(spec_tick);
    let s0 = GameState { frame: (if s.frame == u32::MAX { 0 } else { s.frame + 1 }) as u32, ..s };
    lemma_update_cpu_demo_keeps(s0);
}

/// On the title screen or after game over, a fresh press of X, Z or up
/// starts a game: empty board, zero score, lines and level, the hi score
/// kept, and a start cue.
pub proof fn lemma_start_press_starts_game(s: GameState, input: u8)
    requires
        game_invariant(s),
        s.mode == Mode::Title || s.mode == Mode::GameOver,
        start_pressed(s.last_input, input),
    ensures
        ({
            let (t, sound) = spec_tick(s, input);
            &&& t.mode == Mode::Playing
            &&& t.board == empty_board()
            &&& t.score == 0 && t.lines == 0 && t.level == 0
            &&& t.hi_score == s.hi_score
            &&& sound == SoundEvent::Start
        }),
{
    lemma_start_buttons(s.last_input, input);
    reveal(spec_tick);
    let s0 = GameState { frame: (if s.frame == u32::MAX { 0 } else { s.frame + 1 }) as u32, ..s };
    lemma_start_game(s0);
}

/// After game over, frames without a fresh press of X, Z or up change
/// neither the board nor the scores, and the game stays over.
pub proof fn lemma_game_over_waits(s: GameState, input: u8)
    requires
        s.mode == Mode::GameOver,
        !start_pressed(s.last_input, input),
    ensures
        ({
            let (t, sound) = spec_tick(s, input);
            &&& t.mode == Mode::GameOver
            &&& t.board == s.board
            &&& t.score == s.score && t.lines == s.lines && t.hi_score == s.hi_score
            &&& sound == SoundEvent::Silent
        }),
{
    lemma_start_buttons(s.last_input, input);
    reveal(spec_tick);
}

/// Locking writes the piece into the board as its kind plus one. When that
/// fills rows, the clear animation starts on exactly the full rows, with a
/// line cue that counts them; otherwise the next piece spawns at column 3
/// of the top row with the lock cue, or with the game-over cue when it has
/// no room there.
pub proof fn lemma_lock_writes_piece(s: GameState)
    requires
        wf(s),
        s.mode == Mode::Playing,
    ensures
        ({
            let (t, sound) = spec_lock_piece(s);
            let b = stamp(s.board, s.current, s.x as int, s.y as int, (s.current.kind + 1) as u8, 4);
            &&& t.board == b
            &&& !no_full_row(b) ==> {
                &&& t.clear_timer == 14
                &&& t.clear_mask == full_rows_mask(b)
                &&& sound == SoundEvent::Line(popcount(full_rows_mask(b)) as u8)
            }
            &&& no_full_row(b) ==> {
                &&& t.clear_timer == s.clear_timer
                &&& t.current == (Piece { kind: s.next.kind, rot: 0 })
                &&& t.x == 3 && t.y == 0
                &&& sound == if fits(b, t.current, 3, 0) {
                    SoundEvent::Lock
                } else {
                    SoundEvent::GameOver
                }
            }
        }),
{
    reveal(spec_lock_piece);
    reveal(spec_spawn_next);
    reveal(spec_add_line_score);
    let s1 = spec_stamp_current(GameState { lock_timer: 0, lock_resets: 0, ..s });
    lemma_full_mask_count(s1.board);
}

/// The row a piece falls to from `y` is the first row `ry` below which it
/// has no room, when it has room on every row from `y` down to `ry`.
proof fn lemma_drop_y_is(board: Seq<u8>, p: Piece, x: int, y: int, ry: int)
    requires
        valid_piece(p),
        y <= ry,
        forall|k: int| y <= k <= ry ==> #[trigger] fits(board, p, x, k),
        !fits(board, p, x, ry + 1),
    ensures
        drop_y(board, p, x, y) == ry,
    decreases ry - y,
{
    lemma_fits_bounds(board, p, x, ry);
    if y < ry {
        assert(fits(board, p, x, y + 1));
        lemma_drop_y_is(board, p, x, y + 1, ry);
    }
}

/// A hard drop lets the piece fall straight to the last row where it still
/// has room, writes it into the board there, and scores two points for
/// each row it fell (stopping at the largest u32); when it fills no row,
/// that is all the score gains.
pub proof fn lemma_hard_drop_lands(s: GameState, ry: int)
    requires
        wf(s),
        s.mode == Mode::Playing,
        s.y <= ry,
        forall|k: int| s.y <= k <= ry ==> #[trigger] fits(s.board, s.current, s.x as int, k),
        !fits(s.board, s.current, s.x as int, ry + 1),
    ensures
        ({
            let (t, sound) = spec_hard_drop(s);
            let b = stamp(s.board, s.current, s.x as int, ry, (s.current.kind + 1) as u8, 4);
            &&& t.board == b
            &&& no_full_row(b) ==> t.score == at_most(s.score + 2 * (ry - s.y), u32::MAX as int)
            &&& !no_full_row(b) ==> sound is Line && t.clear_timer == 14
        }),
{
    reveal(spec_hard_drop);
    lemma_drop_y_is(s.board, s.current, s.x as int, s.y as int, ry);
    lemma_fits_bounds(s.board, s.current, s.x as int, ry);
    let s1 = GameState { y: ry as i8, ..s };
    let s2 = if ry - s.y > 0 {
        spec_touch_hi_score(GameState { score: sat_u32(s1.score + (ry - s.y) * 2), ..s1 })
    } else {
        s1
    };
    lemma_lock_writes_piece(s2);
    reveal(spec_lock_piece);
    reveal(spec_spawn_next);
    let s3 = spec_stamp_current(GameState { lock_timer: 0, lock_resets: 0, ..s2 });
    lemma_full_mask_count(s3.board);
}

/// Points for clearing rows at once, before the level multiplier: 40 for
/// one row, 100 for two, 300 for three and 1200 for four.
pub open spec fn line_points(cleared: u8) -> int {
    if cleared == 1 {
        40
    } else if cleared == 2 {
        100
    } else if cleared == 3 {
        300
    } else {
        1200
    }
}

/// The smaller of two integers.
pub open spec fn at_most(v: int, cap: int) -> int {
    if v > cap {
        cap
    } else {
        v
    }
}

/// Clearing rows scores their points times the level plus one, stopping at
/// the largest u32; the lines grow by the rows cleared, stopping at the
/// largest u16; the level is a tenth of the lines, at most 19; and the hi
/// score follows the score up.
pub proof fn lemma_line_score(s: GameState, cleared: u8)
    ensures
        ({
            let t = spec_add_line_score(s, cleared);
            &&& t.score == at_most(s.score + line_points(cleared) * (s.level + 1), u32::MAX as int)
            &&& t.lines == at_most(s.lines + cleared, u16::MAX as int)
            &&& t.level == at_most(t.lines as int / 10, 19)
            &&& t.hi_score == if t.score > s.hi_score { t.score } else { s.hi_score }
            &&& t.save_requested == (s.save_requested || t.score > s.hi_score)
            &&& t.board == s.board && t.current == s.current && t.x == s.x && t.y == s.y
        }),
{
    reveal(spec_add_line_score);
}

/// Turning a piece a quarter one way and back gives the same piece; four
/// quarter turns the same way do too.
pub proof fn lemma_rotation_round_trip(p: Piece)
    requires
        valid_piece(p),
    ensures
        rotated_piece(rotated_piece(p, 1), -1) == p,
        rotated_piece(rotated_piece(p, -1), 1) == p,
        rotated_piece(rotated_piece(rotated_piece(rotated_piece(p, 1), 1), 1), 1) == p,
{
}

/// A line clear holds the board still while it animates, and on its last
/// frame removes exactly the rows it was clearing.
pub proof fn lemma_line_clear_animation(s: GameState, input: u8)
    requires
        game_invariant(s),
        s.mode == Mode::Playing,
        s.clear_timer > 0,
    ensures
        ({
            let t = spec_tick(s, input).0;
            &&& s.clear_timer > 1 ==> t.board == s.board && t.clear_timer == s.clear_timer - 1
                && t.clear_mask == s.clear_mask
            &&& s.clear_timer == 1 ==> t.board == compact(s.board, s.clear_mask, 0u8)
                && t.clear_timer == 0 && t.clear_mask == 0
        }),
{
    reveal(spec_tick);
    reveal(spec_update_playing);
    reveal(spec_update_clearing);
    let s0 = GameState { frame: (if s.frame == u32::MAX { 0 } else { s.frame + 1 }) as u32, ..s };
    let pressed = input & !s.last_input;
    let s1 = spec_buffer_input(s0, pressed);
    let s2 = GameState { clear_timer: (s1.clear_timer - 1) as u8, ..s1 };
    if s2.clear_timer == 0 {
        lemma_apply_clear_mask_keeps(s2, s2.clear_mask);
        lemma_clear_leaves_no_full_row(s2.board);
        let s3 = GameState { clear_mask: 0, ..spec_apply_clear_mask(s2, s2.clear_mask) };
        lemma_spawn_next_keeps(s3);
        let s4 = spec_spawn_next(s3);
        if s4.mode != Mode::GameOver {
            lemma_apply_buffered_input_keeps(s4);
        }
    }
}

// ---------------------------------------------------------------------------
// The hi score never steers play
// ---------------------------------------------------------------------------

/// Two games that differ at most in their hi score and save request.
pub open spec fn same_play(a: GameState, b: GameState) -> bool {
    GameState { hi_score: 0, save_requested: false, ..a } == GameState {
        hi_score: 0,
        save_requested: false,
        ..b
    }
}

proof fn lemma_same_try_rotate(a: GameState, b: GameState, direction: int)
    requires
        same_play(a, b),
    ensures
        same_play(spec_try_rotate(a, direction).0, spec_try_rotate(b, direction).0),
        spec_try_rotate(a, direction).1 == spec_try_rotate(b, direction).1,
{
    reveal(spec_try_rotate);
}

proof fn lemma_same_spawn_next(a: GameState, b: GameState)
    requires
        same_play(a, b),
    ensures
        same_play(spec_spawn_next(a), spec_spawn_next(b)),
{
    reveal(spec_spawn_next);
}

proof fn lemma_same_lock_piece(a: GameState, b: GameState)
    requires
        same_play(a, b),
    ensures
        same_play(spec_lock_piece(a).0, spec_lock_piece(b).0),
        spec_lock_piece(a).1 == spec_lock_piece(b).1,
{
    reveal(spec_lock_piece);
    reveal(spec_add_line_score);
    let a1 = spec_stamp_current(spec_reset_lock_state(a));
    let b1 = spec_stamp_current(spec_reset_lock_state(b));
    lemma_same_spawn_next(a1, b1);
}

proof fn lemma_same_hard_drop(a: GameState, b: GameState)
    requires
        same_play(a, b),
    ensures
        same_play(spec_hard_drop(a).0, spec_hard_drop(b).0),
        spec_hard_drop(a).1 == spec_hard_drop(b).1,
{
    reveal(spec_hard_drop);
    let ry = drop_y(a.board, a.current, a.x as int, a.y as int);
    let a1 = GameState { y: ry as i8, ..a };
    let b1 = GameState { y: ry as i8, ..b };
    let a2 = if ry - a.y > 0 {
        spec_touch_hi_score(GameState { score: sat_u32(a1.score + (ry - a.y) * 2), ..a1 })
    } else {
        a1
    };
    let b2 = if ry - b.y > 0 {
        spec_touch_hi_score(GameState { score: sat_u32(b1.score + (ry - b.y) * 2), ..b1 })
    } else {
        b1
    };
    lemma_same_lock_piece(a2, b2);
}

proof fn lemma_same_horizontal(a: GameState, b: GameState, input: u8, pressed: u8)
    requires
        same_play(a, b),
    ensures
        same_play(
            spec_update_horizontal_movement(a, input, pressed).0,
            spec_update_horizontal_movement(b, input, pressed).0,
        ),
        spec_update_horizontal_movement(a, input, pressed).1 == spec_update_horizontal_movement(
            b,
            input,
            pressed,
        ).1,
{
    reveal(spec_update_horizontal_movement);
    let a1 = GameState { right_hold_frames: 0, ..a };
    let b1 = GameState { right_hold_frames: 0, ..b };
    let a2 = GameState { left_hold_frames: 0, ..a };
    let b2 = GameState { left_hold_frames: 0, ..b };
    lemma_same_horizontal_move(
        GameState { left_hold_frames: 0, ..a1 },
        GameState { left_hold_frames: 0, ..b1 },
        -1,
    );
    lemma_same_horizontal_move(
        GameState { left_hold_frames: sat_u8(a1.left_hold_frames + 1), ..a1 },
        GameState { left_hold_frames: sat_u8(b1.left_hold_frames + 1), ..b1 },
        -1,
    );
    lemma_same_horizontal_move(
        GameState { right_hold_frames: 0, ..a2 },
        GameState { right_hold_frames: 0, ..b2 },
        1,
    );
    lemma_same_horizontal_move(
        GameState { right_hold_frames: sat_u8(a2.right_hold_frames + 1), ..a2 },
        GameState { right_hold_frames: sat_u8(b2.right_hold_frames + 1), ..b2 },
        1,
    );
}

proof fn lemma_same_horizontal_move(a: GameState, b: GameState, dx: int)
    requires
        same_play(a, b),
    ensures
        same_play(spec_try_horizontal_move(a, dx).0, spec_try_horizontal_move(b, dx).0),
        spec_try_horizontal_move(a, dx).1 == spec_try_horizontal_move(b, dx).1,
{
}

proof fn lemma_same_lock_delay(a: GameState, b: GameState)
    requires
        same_play(a, b),
    ensures
        same_play(spec_update_lock_delay(a).0, spec_update_lock_delay(b).0),
        spec_update_lock_delay(a).1 == spec_update_lock_delay(b).1,
{
    reveal(spec_update_lock_delay);
    let t = sat_u8(a.lock_timer + 1);
    lemma_same_lock_piece(GameState { lock_timer: t, ..a }, GameState { lock_timer: t, ..b });
}

proof fn lemma_same_apply_buffered_input(a: GameState, b: GameState)
    requires
        same_play(a, b),
    ensures
        same_play(spec_apply_buffered_input(a), spec_apply_buffered_input(b)),
{
    reveal(spec_apply_buffered_input);
    let a1 = GameState { buffered_input: 0, input_buffer_timer: 0, ..a };
    let b1 = GameState { buffered_input: 0, input_buffer_timer: 0, ..b };
    lemma_same_try_rotate(a1, b1, 1);
    lemma_same_try_rotate(a1, b1, -1);
}

proof fn lemma_same_update_clearing(a: GameState, b: GameState, pressed: u8)
    requires
        same_play(a, b),
    ensures
        same_play(spec_update_clearing(a, pressed).0, spec_update_clearing(b, pressed).0),
        spec_update_clearing(a, pressed).1 == spec_update_clearing(b, pressed).1,
{
    reveal(spec_update_clearing);
    let a1 = spec_buffer_input(a, pressed);
    let b1 = spec_buffer_input(b, pressed);
    let a2 = GameState { clear_timer: (a1.clear_timer - 1) as u8, ..a1 };
    let b2 = GameState { clear_timer: (b1.clear_timer - 1) as u8, ..b1 };
    let a3 = GameState { clear_mask: 0, ..spec_apply_clear_mask(a2, a2.clear_mask) };
    let b3 = GameState { clear_mask: 0, ..spec_apply_clear_mask(b2, b2.clear_mask) };
    lemma_same_spawn_next(a3, b3);
    lemma_same_apply_buffered_input(spec_spawn_next(a3), spec_spawn_next(b3));
}

proof fn lemma_same_update_playing(a: GameState, b: GameState, input: u8, pressed: u8)
    requires
        same_play(a, b),
    ensures
        same_play(spec_update_playing(a, input, pressed).0, spec_update_playing(b, input, pressed).0),
        spec_update_playing(a, input, pressed).1 == spec_update_playing(b, input, pressed).1,
{
    reveal(spec_update_playing);
    if a.clear_timer > 0 {
        lemma_same_update_clearing(a, b, pressed);
    } else {
        lemma_same_horizontal(a, b, input, pressed);
        let (a1, snd1) = spec_update_horizontal_movement(a, input, pressed);
        let (b1, _) = spec_update_horizontal_movement(b, input, pressed);
        lemma_same_try_rotate(a1, b1, 1);
        let (a2, snd2) = spec_rotate_on(a1, pressed, BTN_1, 1, snd1);
        let (b2, _) = spec_rotate_on(b1, pressed, BTN_1, 1, snd1);
        lemma_same_try_rotate(a2, b2, -1);
        let (a3, snd3) = spec_rotate_on(a2, pressed, BTN_2, -1, snd2);
        let (b3, _) = spec_rotate_on(b2, pressed, BTN_2, -1, snd2);
        lemma_same_hard_drop(a3, b3);
        lemma_same_soft_drop(a3, b3, input, snd3);
        let (a4, _) = spec_soft_drop(a3, input, snd3);
        let (b4, _) = spec_soft_drop(b3, input, snd3);
        lemma_same_gravity(a4, b4);
        lemma_same_lock_delay(spec_gravity(a4), spec_gravity(b4));
    }
}

proof fn lemma_same_soft_drop(a: GameState, b: GameState, input: u8, sound: SoundEvent)
    requires
        same_play(a, b),
    ensures
        same_play(spec_soft_drop(a, input, sound).0, spec_soft_drop(b, input, sound).0),
        spec_soft_drop(a, input, sound).1 == spec_soft_drop(b, input, sound).1,
{
    reveal(spec_soft_drop);
}

proof fn lemma_same_gravity(a: GameState, b: GameState)
    requires
        same_play(a, b),
    ensures
        same_play(spec_gravity(a), spec_gravity(b)),
{
    reveal(spec_gravity);
}

proof fn lemma_same_reset_cpu_demo(a: GameState, b: GameState)
    requires
        same_play(a, b),
    ensures
        same_play(spec_reset_cpu_demo(a), spec_reset_cpu_demo(b)),
{
    reveal(spec_reset_cpu_demo);
}

proof fn lemma_same_spawn_demo_next(a: GameState, b: GameState)
    requires
        same_play(a, b),
    ensures
        same_play(spec_spawn_demo_next(a), spec_spawn_demo_next(b)),
{
    reveal(spec_spawn_demo_next);
    let (a1, kind) = spec_random_piece(a);
    let (a2, style) = spec_random_style(a1);
    let (b1, _) = spec_random_piece(b);
    let (b2, _) = spec_random_style(b1);
    let a3 = GameState {
        current: Piece { kind: a.next.kind, rot: 0 },
        current_style: a.next_style,
        next: Piece { kind, rot: 0 },
        next_style: style,
        x: START_X,
        y: START_Y,
        lock_timer: 0,
        lock_resets: 0,
        ..a2
    };
    let b3 = GameState {
        current: Piece { kind: b.next.kind, rot: 0 },
        current_style: b.next_style,
        next: Piece { kind, rot: 0 },
        next_style: style,
        x: START_X,
        y: START_Y,
        lock_timer: 0,
        lock_resets: 0,
        ..b2
    };
    lemma_same_reset_cpu_demo(spec_set_demo_target(a3), spec_set_demo_target(b3));
}

proof fn lemma_same_lock_demo_piece(a: GameState, b: GameState)
    requires
        same_play(a, b),
    ensures
        same_play(spec_lock_demo_piece(a), spec_lock_demo_piece(b)),
{
    reveal(spec_lock_demo_piece);
    lemma_same_spawn_demo_next(spec_stamp_current(a), spec_stamp_current(b));
}

proof fn lemma_same_demo_fall(a: GameState, b: GameState)
    requires
        same_play(a, b),
    ensures
        same_play(spec_demo_fall(a), spec_demo_fall(b)),
{
    lemma_same_lock_demo_piece(spec_try_move(a, 0, 1).0, spec_try_move(b, 0, 1).0);
}

proof fn lemma_same_update_cpu_demo(a: GameState, b: GameState)
    requires
        same_play(a, b),
    ensures
        same_play(spec_update_cpu_demo(a), spec_update_cpu_demo(b)),
{
    reveal(spec_update_cpu_demo);
    let a1 = GameState { clear_timer: (a.clear_timer - 1) as u8, ..a };
    let b1 = GameState { clear_timer: (b.clear_timer - 1) as u8, ..b };
    lemma_same_spawn_demo_next(
        GameState { clear_mask: 0, ..spec_apply_clear_mask(a1, a1.clear_mask) },
        GameState { clear_mask: 0, ..spec_apply_clear_mask(b1, b1.clear_mask) },
    );
    lemma_same_try_rotate(a, b, 1);
    let t1 = spec_try_move(a, 1, 0).0;
    let u1 = spec_try_move(b, 1, 0).0;
    let t2 = spec_try_move(a, -1, 0).0;
    let u2 = spec_try_move(b, -1, 0).0;
    lemma_same_demo_fall(GameState { demo_target_x: t1.x, ..t1 }, GameState { demo_target_x: u1.x, ..u1 });
    lemma_same_demo_fall(GameState { demo_target_x: t2.x, ..t2 }, GameState { demo_target_x: u2.x, ..u2 });
    lemma_same_demo_fall(a, b);
}

proof fn lemma_same_start_game(a: GameState, b: GameState)
    requires
        same_play(a, b),
    ensures
        same_play(spec_start_game(a), spec_start_game(b)),
{
    reveal(spec_start_game);
}

/// The stored hi score never steers play: two games that differ only in
/// their hi score and save request, given the same buttons, make the same
/// sound and still differ in nothing else.
pub proof fn lemma_hi_score_never_steers_play(a: GameState, b: GameState, input: u8)
    requires
        same_play(a, b),
    ensures
        same_play(spec_tick(a, input).0, spec_tick(b, input).0),
        spec_tick(a, input).1 == spec_tick(b, input).1,
{
    reveal(spec_tick);
    let a0 = GameState { frame: (if a.frame == u32::MAX { 0 } else { a.frame + 1 }) as u32, ..a };
    let b0 = GameState { frame: (if b.frame == u32::MAX { 0 } else { b.frame + 1 }) as u32, ..b };
    let pressed = input & !a.last_input;
    lemma_same_start_game(a0, b0);
    lemma_same_update_cpu_demo(a0, b0);
    lemma_same_update_playing(a0, b0, input, pressed);
}

/// Two new games, whatever hi scores they were given, differ in nothing
/// else.
pub proof fn lemma_new_games_play_alike(h1: u32, h2: u32)
    ensures
        same_play(spec_new(h1), spec_new(h2)),
{
}

// ---------------------------------------------------------------------------
// Runs of frames
// ---------------------------------------------------------------------------

/// The game after one frame for each entry of `inputs`, in order.
pub open spec fn run(s: GameState, inputs: Seq<u8>) -> GameState
    decreases inputs.len(),
{
    if inputs.len() == 0 {
        s
    } else {
        run(spec_tick(s, inputs[0]).0, inputs.drop_first())
    }
}

/// The sounds those frames make, in order.
pub open spec fn run_sounds(s: GameState, inputs: Seq<u8>) -> Seq<SoundEvent>
    decreases inputs.len(),
{
    if inputs.len() == 0 {
        Seq::empty()
    } else {
        seq![spec_tick(s, inputs[0]).1] + run_sounds(spec_tick(s, inputs[0]).0, inputs.drop_first())
    }
}

/// Over any run of frames the invariant holds and the hi score never
/// falls; a save is pending at the end exactly when one was pending at the
/// start or the hi score rose. So once the request is taken (or in a new
/// game), the next request comes exactly when the hi score has risen.
pub proof fn lemma_run_keeps_records(s: GameState, inputs: Seq<u8>)
    requires
        game_invariant(s),
    ensures
        game_invariant(run(s, inputs)),
        records_kept(s, run(s, inputs)),
        !s.save_requested ==> run(s, inputs).save_requested == (run(s, inputs).hi_score
            > s.hi_score),
    decreases inputs.len(),
{
    if inputs.len() > 0 {
        lemma_tick(s, inputs[0]);
        lemma_run_keeps_records(spec_tick(s, inputs[0]).0, inputs.drop_first());
    }
}

/// The stored hi score never steers play, over any run of frames: two
/// games that differ only in their hi score and save request, given the
/// same buttons frame by frame, make the same sounds and end differing in
/// nothing else.
pub proof fn lemma_hi_score_never_steers_runs(a: GameState, b: GameState, inputs: Seq<u8>)
    requires
        same_play(a, b),
    ensures
        same_play(run(a, inputs), run(b, inputs)),
        run_sounds(a, inputs) == run_sounds(b, inputs),
    decreases inputs.len(),
{
    if inputs.len() > 0 {
        lemma_hi_score_never_steers_play(a, b, inputs[0]);
        lemma_hi_score_never_steers_runs(
            spec_tick(a, inputs[0]).0,
            spec_tick(b, inputs[0]).0,
            inputs.drop_first(),
        );
    }
}

} // verus!
