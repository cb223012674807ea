use vstd::prelude::*;

use crate::board::in_mask;
use crate::game::Game;

verus! {

// ---------------------------------------------------------------------------
// The line-clear wipe
// ---------------------------------------------------------------------------

/// Frames of the line-clear animation already shown.
pub open spec fn clear_elapsed(clear_timer: u8) -> int {
    if clear_timer < 14 {
        14 - clear_timer
    } else {
        0
    }
}

/// How many columns the wipe has covered: it grows from the centre, twelve
/// columns' worth over the fourteen frames, capped at the board width.
pub open spec fn wipe_width(clear_timer: u8) -> int {
    let w = clear_elapsed(clear_timer) * 12 / 14;
    if w < 10 {
        w
    } else {
        10
    }
}

/// A cell of a clearing row is hidden once the wipe, centred on the board,
/// has reached its column.
pub open spec fn wipe_hides(clear_mask: u32, clear_timer: u8, x: int, y: int) -> bool {
    let w = wipe_width(clear_timer);
    let left = (10 - w) / 2;
    in_mask(clear_mask, y) && w > 0 && left <= x < left + w
}

/// Frames of the line-clear animation already shown.
pub fn clear_animation_elapsed(game: &Game) -> (e: u8)
    ensures
        e == clear_elapsed(game@.clear_timer),
{
    14u8.saturating_sub(game.clear_timer())
}

/// Whether the wipe of the line-clear animation hides column `x` of row `y`.
pub fn clear_animation_hides_cell(game: &Game, x: usize, y: usize) -> (hidden: bool)
    requires
        y < 32,
    ensures
        hidden == wipe_hides(game@.clear_mask, game@.clear_timer, x as int, y as int),
{
    if !game.clearing_row(y) {
        return false;
    }
    let elapsed = clear_animation_elapsed(game) as usize;
    let scaled = elapsed * 12 / 14;
    let wipe = if scaled < 10 {
        scaled
    } else {
        10
    };
    if wipe == 0 {
        return false;
    }
    let left = (10 - wipe) / 2;
    x >= left && x < left + wipe
}

/// A locked cell is drawn when it holds a block the wipe has not reached.
pub fn locked_cell_visible(game: &Game, x: usize, y: usize) -> (visible: bool)
    requires
        x < 10,
        y < 20,
    ensures
        visible == (game@.board[y * 10 + x] != 0 && !wipe_hides(
            game@.clear_mask,
            game@.clear_timer,
            x as int,
            y as int,
        )),
{
    game.cell(x, y) != 0 && !clear_animation_hides_cell(game, x, y)
}

/// Whether (x, y) is on the board and shows a visible cell of locked piece
/// `id`; outlines are drawn only between cells of different pieces.
pub fn same_locked_piece_visible(game: &Game, x: i32, y: i32, id: u16) -> (same: bool)
    ensures
        same == (id != 0 && 0 <= x < 10 && 0 <= y < 20 && game@.board[y * 10 + x] != 0
            && !wipe_hides(game@.clear_mask, game@.clear_timer, x as int, y as int)
            && game@.ids[y * 10 + x] == id),
{
    if id == 0 || x < 0 || y < 0 || x >= 10 || y >= 20 {
        return false;
    }
    let x = x as usize;
    let y = y as usize;
    locked_cell_visible(game, x, y) && game.cell_id(x, y) == id
}

// ---------------------------------------------------------------------------
// Piece outlines
// ---------------------------------------------------------------------------

/// Whether the piece at (piece_x, piece_y) covers the on-screen cell
/// (board_x, board_y); rows above the board are never covered.
pub fn piece_has_board_cell(
    cells: [(i8, i8); 4],
    piece_x: i8,
    piece_y: i8,
    board_x: i8,
    board_y: i8,
) -> (covered: bool)
    requires
        forall|i: int|
            0 <= i < 4 ==> -128 <= piece_x + #[trigger] cells@[i].0 <= 127 && -128 <= piece_y
                + cells@[i].1 <= 127,
    ensures
        covered == (board_y >= 0 && exists|i: int|
            0 <= i < 4 && piece_x + #[trigger] cells@[i].0 == board_x && piece_y + cells@[i].1
                == board_y),
{
    if board_y < 0 {
        return false;
    }
    let mut i: usize = 0;
    while i < 4
        invariant
            i <= 4,
            board_y >= 0,
            forall|j: int|
                0 <= j < 4 ==> -128 <= piece_x + #[trigger] cells@[j].0 <= 127 && -128 <= piece_y
                    + cells@[j].1 <= 127,
            forall|j: int|
                0 <= j < i ==> !(piece_x + #[trigger] cells@[j].0 == board_x && piece_y
                    + cells@[j].1 == board_y),
        decreases 4 - i,
    {
        let (cx, cy) = cells[i];
        assert(cells@[i as int] == (cx, cy));
        if piece_x + cx == board_x && piece_y + cy == board_y {
            assert(piece_x + cells@[i as int].0 == board_x && piece_y + cells@[i as int].1
                == board_y);
            return true;
        }
        i = i + 1;
    }
    false
}

/// Whether a piece's cells include (x, y) within its own box.
pub fn piece_has_local_cell(cells: [(i8, i8); 4], x: i8, y: i8) -> (covered: bool)
    ensures
        covered == exists|i: int| 0 <= i < 4 && #[trigger] cells@[i] == (x, y),
{
    let mut i: usize = 0;
    while i < 4
        invariant
            i <= 4,
            forall|j: int| 0 <= j < i ==> #[trigger] cells@[j] != (x, y),
        decreases 4 - i,
    {
        let (cx, cy) = cells[i];
        if cx == x && cy == y {
            assert(cells@[i as int] == (x, y));
            return true;
        }
        i = i + 1;
    }
    false
}

// ---------------------------------------------------------------------------
// Text
// ---------------------------------------------------------------------------

/// Prompts blink between palette colours 2 and 3 every 28 frames.
pub fn blink_text_color(game: &Game) -> (color: u8)
    ensures
        color == if game@.frame / 28 % 2 == 0 {
            2u8
        } else {
            3u8
        },
{
    if game.frame() / 28 % 2 == 0 {
        2
    } else {
        3
    }
}

/// The last `k` decimal digits of `v`, as ASCII, most significant first.
pub open spec fn low_digits(v: nat, k: nat) -> Seq<u8>
    decreases k,
{
    if k == 0 {
        Seq::empty()
    } else {
        low_digits(v / 10, (k - 1) as nat).push((48 + v % 10) as u8)
    }
}

/// The number of decimal digits of `v` (none for 0).
pub open spec fn digit_count(v: nat) -> nat
    decreases v,
{
    if v == 0 {
        0
    } else {
        1 + digit_count(v / 10)
    }
}

/// The decimal text of `v`, padded on the left with zeros to `width`
/// characters, and at least one digit long.
pub open spec fn decimal_text_spec(v: nat, width: nat) -> Seq<u8> {
    let n = if digit_count(v) > width {
        digit_count(v)
    } else {
        width
    };
    low_digits(v, if n > 0 { n } else { 1 })
}

proof fn lemma_digit_count_u32(v: nat)
    requires
        v < 0x1_0000_0000,
    ensures
        digit_count(v) <= 10,
{
    assert(digit_count(v) <= 10) by {
        reveal_with_fuel(digit_count, 11);
    }
}

/// Writes `value` in decimal, with leading zeros up to `min_width` digits.
pub fn decimal_text(value: u32, min_width: usize) -> (text: Vec<u8>)
    requires
        min_width <= 10,
    ensures
        text@ == decimal_text_spec(value as nat, min_width as nat),
{
    let ghost v0 = value as nat;
    proof {
        lemma_digit_count_u32(v0);
    }
    let mut buf = [48u8; 10];
    let mut index: usize = 10;
    let mut written: usize = 0;
    let mut value = value;
    loop
        invariant_except_break
            value > 0 || written < min_width || written == 0,
        invariant
            written <= 10,
            index == 10 - written,
            min_width <= 10,
            digit_count(v0) <= 10,
            written + digit_count(value as nat) == if digit_count(v0) > written {
                digit_count(v0)
            } else {
                written as nat
            },
            forall|j: nat|
                #![trigger low_digits(value as nat, j)]
                low_digits(v0, (written + j) as nat) == low_digits(value as nat, j)
                    + buf@.subrange(index as int, 10),
            buf@.len() == 10,
        ensures
            written >= 1,
            written >= min_width,
            value == 0,
            written == if digit_count(v0) > min_width {
                if digit_count(v0) > 0 {
                    digit_count(v0)
                } else {
                    1
                }
            } else if min_width > 0 {
                min_width as nat
            } else {
                1
            },
            buf@.subrange(index as int, 10) == low_digits(v0, written as nat),
        decreases 10 - written,
    {
        let ghost old_value = value as nat;
        let ghost old_suffix = buf@.subrange(index as int, 10);
        let ghost old_written = written as nat;
        let d = 48 + (value % 10) as u8;
        index -= 1;
        buf[index] = d;
        value /= 10;
        written += 1;
        proof {
            assert(buf@.subrange(index as int, 10) =~= seq![d].add(old_suffix));
            assert forall|j: nat|
                #![trigger low_digits(value as nat, j)]
                low_digits(v0, (written + j) as nat) == low_digits(value as nat, j)
                    + buf@.subrange(index as int, 10) by {
                assert(low_digits(v0, (old_written + (j + 1)) as nat) == low_digits(
                    old_value,
                    (j + 1) as nat,
                ) + old_suffix);
                assert(low_digits(old_value, (j + 1) as nat) == low_digits(
                    old_value / 10,
                    j,
                ).push(d));
                assert(low_digits(old_value / 10, j).push(d) + old_suffix =~= low_digits(
                    old_value / 10,
                    j,
                ) + seq![d].add(old_suffix));
            }
            assert(low_digits(value as nat, 0) + buf@.subrange(index as int, 10) =~= buf@.subrange(
                index as int,
                10,
            ));
        }
        if value == 0 && written >= min_width {
            proof {
                assert(digit_count(old_value) == if old_value == 0 {
                    0
                } else {
                    1 + digit_count(old_value / 10)
                });
                assert(digit_count(0) == 0);
            }
            break;
        }
    }
    let mut text: Vec<u8> = Vec::new();
    let mut i = index;
    while i < 10
        invariant
            index <= i <= 10,
            buf@.len() == 10,
            text@ == buf@.subrange(index as int, i as int),
        decreases 10 - i,
    {
        text.push(buf[i]);
        i += 1;
    }
    text
}

} // verus!
