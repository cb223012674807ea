use vstd::prelude::*;

use crate::board::{fits, stamp};
use crate::laws::lemma_hard_drop_lands;
use crate::model::{
    first_kick, gravity_frames, kick, lcg, lemma_first_kick_skip, rotated_piece,
    spec_apply_buffered_input, spec_gravity, spec_random_piece, spec_soft_drop, spec_spawn_next,
    spec_tick, spec_random_style, spec_lock_piece, spec_update_clearing, spec_add_line_score, spec_try_horizontal_move,
    spec_try_rotate, spec_update_horizontal_movement, spec_update_lock_delay, spec_update_playing,
    wf, GameState,
};
use crate::types::{BlockPattern, Mode, Piece, SoundEvent, BTN_1, BTN_2, BTN_LEFT, BTN_RIGHT, BUFFERABLE_INPUT};

verus! {

// ---------------------------------------------------------------------------
// Rotation and its kicks
// ---------------------------------------------------------------------------

/// The piece turned a quarter: clockwise for direction 1, counter-clockwise
/// for -1.
pub open spec fn quarter_turn(p: Piece, direction: int) -> Piece {
    Piece { kind: p.kind, rot: ((p.rot + direction + 4) % 4) as u8 }
}

/// Where a blocked rotation looks for room, in the order tried: in place,
/// one and two columns sideways, one row up (in place, left, right), and
/// two rows up.
pub open spec fn kick_offsets() -> Seq<(int, int)> {
    seq![(0, 0), (-1, 0), (1, 0), (-2, 0), (2, 0), (0, -1), (-1, -1), (1, -1), (0, -2)]
}

/// The turned piece fits at the `j`-th kick offset from (x, y).
pub open spec fn fits_at_kick(s: GameState, direction: int, j: int) -> bool {
    fits(
        s.board,
        quarter_turn(s.current, direction),
        s.x + kick_offsets()[j].0,
        s.y + kick_offsets()[j].1,
    )
}

proof fn lemma_kick_table(direction: int, s: GameState)
    ensures
        forall|j: int| 0 <= j < 9 ==> #[trigger] kick(j) == kick_offsets()[j],
        rotated_piece(s.current, direction) == quarter_turn(s.current, direction),
{
    assert forall|j: int| 0 <= j < 9 implies #[trigger] kick(j) == kick_offsets()[j] by {
        if j == 0 {
        } else if j == 1 {
        } else if j == 2 {
        } else if j == 3 {
        } else if j == 4 {
        } else if j == 5 {
        } else if j == 6 {
        } else if j == 7 {
        } else {
        }
    }
}

/// A rotation succeeds at the first kick offset, in the order above, where
/// the turned piece fits: the piece ends turned and moved by that offset,
/// and nothing but the piece and its lock delay changes. Upward kicks are
/// tried only after every sideways one.
pub proof fn lemma_rotation_takes_first_fitting_kick(s: GameState, direction: int, k: int)
    requires
        wf(s),
        direction == 1 || direction == -1,
        0 <= k < 9,
        forall|j: int| 0 <= j < k ==> !#[trigger] fits_at_kick(s, direction, j),
        fits_at_kick(s, direction, k),
    ensures
        ({
            let (t, ok) = spec_try_rotate(s, direction);
            &&& ok
            &&& t.current == quarter_turn(s.current, direction)
            &&& t.x == s.x + kick_offsets()[k].0
            &&& t.y == s.y + kick_offsets()[k].1
            &&& t == (GameState {
                current: t.current,
                x: t.x,
                y: t.y,
                lock_timer: t.lock_timer,
                lock_resets: t.lock_resets,
                ..s
            })
        }),
{
    reveal(spec_try_rotate);
    lemma_kick_table(direction, s);
    let r = quarter_turn(s.current, direction);
    assert forall|j: int| 0 <= j < k implies !fits(s.board, r, s.x + kick(j).0, s.y + kick(j).1) by {
        assert(!fits_at_kick(s, direction, j));
    }
    lemma_first_kick_skip(s.board, r, s.x as int, s.y as int, k);
    assert(first_kick(s.board, r, s.x as int, s.y as int, k) == k);
}

/// A rotation with no room at any of the nine kick offsets fails and
/// changes nothing.
pub proof fn lemma_rotation_blocked(s: GameState, direction: int)
    requires
        wf(s),
        direction == 1 || direction == -1,
        forall|j: int| 0 <= j < 9 ==> !#[trigger] fits_at_kick(s, direction, j),
    ensures
        spec_try_rotate(s, direction) == (s, false),
{
    reveal(spec_try_rotate);
    lemma_kick_table(direction, s);
    let r = quarter_turn(s.current, direction);
    assert forall|j: int| 0 <= j < 9 implies !fits(s.board, r, s.x + kick(j).0, s.y + kick(j).1) by {
        assert(!fits_at_kick(s, direction, j));
    }
    lemma_first_kick_skip(s.board, r, s.x as int, s.y as int, 9);
}

// ---------------------------------------------------------------------------
// Drawing pieces
// ---------------------------------------------------------------------------

/// The generator's next number after `r`.
pub open spec fn next_number(r: u32) -> u32 {
    ((r * 1664525 + 1013904223) % 0x1_0000_0000) as u32
}

proof fn lemma_shr16(v: u32)
    ensures
        v >> 16u32 == v / 65536,
{
    assert(v >> 16u32 == v / 65536) by (bit_vector);
}

/// Drawing a piece steps the generator once, r' = (1664525 r + 1013904223)
/// mod 2^32, and gives the kind (r' / 65536) mod 7.
pub proof fn lemma_piece_draw(s: GameState)
    ensures
        spec_random_piece(s).0 == (GameState {
            rng: next_number(s.rng),
            ..s
        }),
        spec_random_piece(s).1 == (spec_random_piece(s).0.rng / 65536) % 7,
{
    reveal(lcg);
    lemma_shr16(lcg(s.rng));
}

/// Every one of the seven kinds can be drawn: for each there is a generator
/// state that draws it next.
pub proof fn lemma_every_kind_can_be_drawn(s: GameState, kind: u8)
    requires
        kind < 7,
    ensures
        exists|r: u32| #[trigger] spec_random_piece(GameState { rng: r, ..s }).1 == kind,
{
    let r: u32 = if kind == 0 {
        634785765
    } else if kind == 1 {
        2124091365
    } else if kind == 2 {
        3613396965
    } else if kind == 3 {
        807735269
    } else if kind == 4 {
        2297040869
    } else if kind == 5 {
        3786346469
    } else {
        980684773
    };
    lemma_witness_draw(r, kind);
    lemma_piece_draw(GameState { rng: r, ..s });
}

proof fn lemma_witness_draw(r: u32, kind: u8)
    requires
        kind < 7,
        r == if kind == 0 {
            634785765u32
        } else if kind == 1 {
            2124091365u32
        } else if kind == 2 {
            3613396965u32
        } else if kind == 3 {
            807735269u32
        } else if kind == 4 {
            2297040869u32
        } else if kind == 5 {
            3786346469u32
        } else {
            980684773u32
        },
    ensures
        next_number(r) / 65536 % 7 == kind,
{
    if kind == 0 {
        assert(next_number(634785765) == 0);
    } else if kind == 1 {
        assert(next_number(2124091365) == 65536);
    } else if kind == 2 {
        assert(next_number(3613396965) == 131072);
    } else if kind == 3 {
        assert(next_number(807735269) == 196608);
    } else if kind == 4 {
        assert(next_number(2297040869) == 262144);
    } else if kind == 5 {
        assert(next_number(3786346469) == 327680);
    } else {
        assert(next_number(980684773) == 393216);
    }
}

/// Drawing a style steps the generator twice: the colour is 2 plus the
/// first number's upper half mod 3, and the pattern is solid, inner frame
/// or dither as the second number's upper half mod 3 is 0, 1 or 2.
pub proof fn lemma_style_draw(s: GameState)
    ensures
        ({
            let r1 = next_number(s.rng);
            let r2 = next_number(r1);
            let (t, style) = spec_random_style(s);
            &&& t == (GameState { rng: r2, ..s })
            &&& style.color == 2 + (r1 / 65536) % 3
            &&& style.pattern == if (r2 / 65536) % 3 == 0 {
                BlockPattern::Solid
            } else if (r2 / 65536) % 3 == 1 {
                BlockPattern::InnerFrame
            } else {
                BlockPattern::Dither
            }
        }),
{
    reveal(lcg);
    lemma_shr16(next_number(s.rng));
    lemma_shr16(next_number(next_number(s.rng)));
}

// ---------------------------------------------------------------------------
// Gravity and soft drop
// ---------------------------------------------------------------------------

/// Frames between two gravity steps at a level: 48 less 3 a level, and
/// never fewer than 6.
pub open spec fn fall_period(level: u8) -> int {
    if 48 - 3 * level > 6 {
        48 - 3 * level
    } else {
        6
    }
}

/// The score one point higher, stopping at the largest u32.
pub open spec fn one_more(score: u32) -> int {
    if score == u32::MAX {
        score as int
    } else {
        score + 1
    }
}

proof fn lemma_bits(m: u8)
    ensures
        0u8 & m == 0,
        (128u8 & m) & 64u8 == 0,
        (128u8 & m) & 1u8 == 0,
        (128u8 & m) & 2u8 == 0,
        128u8 & 16u8 == 0,
        128u8 & 32u8 == 0,
        128u8 & 128u8 != 0,
        m & 3u8 == 0 ==> m & 1u8 == 0 && m & 2u8 == 0,
{
    assert(0u8 & m == 0) by (bit_vector);
    assert((128u8 & m) & 64u8 == 0) by (bit_vector);
    assert((128u8 & m) & 1u8 == 0) by (bit_vector);
    assert((128u8 & m) & 2u8 == 0) by (bit_vector);
    assert(128u8 & 16u8 == 0) by (bit_vector);
    assert(128u8 & 32u8 == 0) by (bit_vector);
    assert(128u8 & 128u8 != 0) by (bit_vector);
    assert(m & 3u8 == 0 ==> m & 1u8 == 0 && m & 2u8 == 0) by (bit_vector);
}

/// With no button held, during play and outside a line clear, a piece that
/// has room below falls exactly one row on each frame whose number is a
/// multiple of the level's fall period, and stays put on every other
/// frame; it does not move sideways, turn or lock.
pub proof fn lemma_gravity_pulls_on_its_frames(s: GameState)
    requires
        wf(s),
        s.mode == Mode::Playing,
        s.clear_timer == 0,
        s.frame < u32::MAX,
        fits(s.board, s.current, s.x as int, s.y + 1),
    ensures
        ({
            let (t, sound) = spec_tick(s, 0);
            &&& t.y == if (s.frame + 1) % fall_period(s.level) == 0 {
                s.y + 1
            } else {
                s.y as int
            }
            &&& t.x == s.x
            &&& t.current == s.current
            &&& t.board == s.board
            &&& sound == SoundEvent::Silent
        }),
{
    reveal(spec_tick);
    reveal(spec_update_playing);
    reveal(spec_update_horizontal_movement);
    reveal(spec_soft_drop);
    reveal(spec_gravity);
    reveal(spec_update_lock_delay);
    lemma_bits(!s.last_input);
    lemma_bits(16u8);
    lemma_bits(32u8);
    lemma_bits(64u8);
    lemma_bits(128u8);
    assert(gravity_frames(s.level) == fall_period(s.level));
}

/// A soft-drop step, with down held on an even frame, moves a piece that
/// has room one row down and scores exactly one point for it (stopping at
/// the largest u32), whether or not the soft-drop cue sounds; the cue
/// sounds when its timer has run out. A piece without room stays and
/// scores nothing.
pub proof fn lemma_soft_drop_scores_each_row(s: GameState, input: u8, sound: SoundEvent)
    requires
        wf(s),
        input & 128u8 != 0,
        s.frame % 2 == 0,
    ensures
        ({
            let (t, out) = spec_soft_drop(s, input, sound);
            &&& fits(s.board, s.current, s.x as int, s.y + 1) ==> {
                &&& t.y == s.y + 1 && t.x == s.x && t.current == s.current
                &&& t.score == one_more(s.score)
                &&& t.hi_score == if t.score > s.hi_score {
                    t.score
                } else {
                    s.hi_score
                }
                &&& out == if s.soft_drop_sound_timer == 0 {
                    SoundEvent::SoftDrop
                } else {
                    sound
                }
            }
            &&& !fits(s.board, s.current, s.x as int, s.y + 1) ==> t == s && out == sound
        }),
{
    reveal(spec_soft_drop);
}

/// Holding only down during play, outside a line clear, on a frame whose
/// number is even, a piece with room below ends the frame at least a row
/// lower (gravity may add one) in the same column, and the score rises by
/// exactly one.
pub proof fn lemma_soft_drop_frame(s: GameState)
    requires
        wf(s),
        s.mode == Mode::Playing,
        s.clear_timer == 0,
        s.frame < u32::MAX,
        (s.frame + 1) % 2 == 0,
        fits(s.board, s.current, s.x as int, s.y + 1),
    ensures
        ({
            let (t, sound) = spec_tick(s, 128u8);
            &&& t.score == one_more(s.score)
            &&& s.y + 1 <= t.y <= s.y + 2
            &&& t.x == s.x
            &&& t.current == s.current
        }),
{
    reveal(spec_tick);
    reveal(spec_update_playing);
    reveal(spec_update_horizontal_movement);
    reveal(spec_soft_drop);
    reveal(spec_gravity);
    reveal(spec_update_lock_delay);
    lemma_bits(!s.last_input);
}

// ---------------------------------------------------------------------------
// Input buffered during a line clear
// ---------------------------------------------------------------------------

/// The buffered sideways press replays as one step: right alone moves the
/// piece a column right, left alone a column left, each only where the
/// piece fits; both or neither leave it. The buffer is emptied either way.
pub proof fn lemma_buffered_move_replays(s: GameState)
    requires
        wf(s),
        s.mode == Mode::Playing,
        s.input_buffer_timer > 0,
        s.buffered_input & 3u8 == 0,
    ensures
        ({
            let t = spec_apply_buffered_input(s);
            let right = s.buffered_input & 32u8 != 0 && s.buffered_input & 16u8 == 0;
            let left = s.buffered_input & 16u8 != 0 && s.buffered_input & 32u8 == 0;
            &&& t.x == if right && fits(s.board, s.current, s.x + 1, s.y as int) {
                s.x + 1
            } else if left && fits(s.board, s.current, s.x - 1, s.y as int) {
                s.x - 1
            } else {
                s.x as int
            }
            &&& t.y == s.y
            &&& t.current == s.current
            &&& t.board == s.board
            &&& t.buffered_input == 0 && t.input_buffer_timer == 0
        }),
{
    reveal(spec_apply_buffered_input);
    lemma_bits(s.buffered_input);
}

// ---------------------------------------------------------------------------
// Sideways movement
// ---------------------------------------------------------------------------

/// The hold count after one more frame, stopping at 255.
pub open spec fn held_one_more(h: u8) -> int {
    if h == 255 {
        255
    } else {
        h + 1
    }
}

/// A held direction moves again once it has been held 12 frames, and every
/// 4 frames after that.
pub open spec fn shift_due(held: int) -> bool {
    held >= 12 && (held - 12) % 4 == 0
}

/// Holding left alone: a fresh press (or letting go of right after holding
/// both) moves one column at once and restarts the hold count; otherwise
/// the count goes up and the piece moves on the frames where a shift is
/// due. A move happens only where the piece fits, and sounds the move cue.
pub proof fn lemma_left_shift_timing(s: GameState, input: u8, pressed: u8)
    requires
        wf(s),
        input & 16u8 != 0,
        input & 32u8 == 0,
    ensures
        ({
            let (t, sound) = spec_update_horizontal_movement(s, input, pressed);
            let fresh = pressed & 16u8 != 0 || (s.last_input & 16u8 != 0 && s.last_input & 32u8
                != 0);
            let held = held_one_more(s.left_hold_frames);
            let due = fresh || shift_due(held);
            let moves = due && fits(s.board, s.current, s.x - 1, s.y as int);
            &&& t.left_hold_frames == if fresh {
                0
            } else {
                held
            }
            &&& t.right_hold_frames == 0
            &&& t.x == if moves {
                s.x - 1
            } else {
                s.x as int
            }
            &&& t.y == s.y && t.current == s.current && t.board == s.board
            &&& sound == if moves {
                SoundEvent::Move
            } else {
                SoundEvent::Silent
            }
        }),
{
    reveal(spec_update_horizontal_movement);
}

/// Holding right alone behaves as holding left does, one column to the
/// right.
pub proof fn lemma_right_shift_timing(s: GameState, input: u8, pressed: u8)
    requires
        wf(s),
        input & 32u8 != 0,
        input & 16u8 == 0,
    ensures
        ({
            let (t, sound) = spec_update_horizontal_movement(s, input, pressed);
            let fresh = pressed & 32u8 != 0 || (s.last_input & 16u8 != 0 && s.last_input & 32u8
                != 0);
            let held = held_one_more(s.right_hold_frames);
            let due = fresh || shift_due(held);
            let moves = due && fits(s.board, s.current, s.x + 1, s.y as int);
            &&& t.right_hold_frames == if fresh {
                0
            } else {
                held
            }
            &&& t.left_hold_frames == 0
            &&& t.x == if moves {
                s.x + 1
            } else {
                s.x as int
            }
            &&& t.y == s.y && t.current == s.current && t.board == s.board
            &&& sound == if moves {
                SoundEvent::Move
            } else {
                SoundEvent::Silent
            }
        }),
{
    reveal(spec_update_horizontal_movement);
}

/// Holding both directions, or neither, moves nothing and forgets both
/// hold counts.
pub proof fn lemma_no_single_direction(s: GameState, input: u8, pressed: u8)
    requires
        (input & 16u8 != 0) == (input & 32u8 != 0),
    ensures
        spec_update_horizontal_movement(s, input, pressed) == (
            GameState { left_hold_frames: 0, right_hold_frames: 0, ..s },
            SoundEvent::Silent,
        ),
{
    reveal(spec_update_horizontal_movement);
}

// ---------------------------------------------------------------------------
// Spawning
// ---------------------------------------------------------------------------

/// The next piece becomes the falling one, unturned, with its style, at
/// column 3 of the top row; a new next piece is drawn; and the game ends
/// exactly when the new falling piece does not fit there.
pub proof fn lemma_spawn_places_next_piece(s: GameState)
    ensures
        ({
            let t = spec_spawn_next(s);
            let drawn = spec_random_piece(s);
            &&& t.current == (Piece { kind: s.next.kind, rot: 0 })
            &&& t.current_style == s.next_style
            &&& t.x == 3 && t.y == 0
            &&& t.next == (Piece { kind: drawn.1, rot: 0 })
            &&& t.next_style == spec_random_style(drawn.0).1
            &&& t.board == s.board && t.score == s.score && t.lines == s.lines
            &&& t.mode == if fits(s.board, t.current, 3, 0) {
                s.mode
            } else {
                Mode::GameOver
            }
        }),
{
    reveal(spec_spawn_next);
}

// ---------------------------------------------------------------------------
// Lock delay
// ---------------------------------------------------------------------------

/// A piece with room below keeps its lock delay at zero. A grounded piece
/// counts frames, and locks (writing itself into the board) on the frame
/// its count passes 20.
pub proof fn lemma_lock_delay_counts(s: GameState)
    requires
        wf(s),
    ensures
        ({
            let (t, lock) = spec_update_lock_delay(s);
            &&& fits(s.board, s.current, s.x as int, s.y + 1) ==> t == (GameState {
                lock_timer: 0,
                ..s
            }) && lock is None
            &&& !fits(s.board, s.current, s.x as int, s.y + 1) && s.lock_timer < 20 ==> t == (
            GameState { lock_timer: (s.lock_timer + 1) as u8, ..s }) && lock is None
            &&& !fits(s.board, s.current, s.x as int, s.y + 1) && s.lock_timer >= 20 ==> {
                &&& lock is Some
                &&& t.board == stamp(
                    s.board,
                    s.current,
                    s.x as int,
                    s.y as int,
                    (s.current.kind + 1) as u8,
                    4,
                )
                &&& t.lock_timer == 0
            }
        }),
{
    reveal(spec_update_lock_delay);
    reveal(spec_lock_piece);
    reveal(spec_spawn_next);
    reveal(spec_add_line_score);
}

/// A sideways move restarts the lock delay: always for a piece with room
/// below, and for a grounded piece only while it has used fewer than 15
/// restarts, each counted. A move that fails changes nothing.
pub proof fn lemma_move_restarts_lock_delay(s: GameState, dx: int)
    requires
        wf(s),
        dx == 1 || dx == -1,
    ensures
        ({
            let (t, _) = spec_try_horizontal_move(s, dx);
            let grounded = !fits(s.board, s.current, s.x as int, s.y + 1);
            &&& fits(s.board, s.current, s.x + dx, s.y as int) ==> {
                &&& t.x == s.x + dx && t.y == s.y
                &&& !grounded ==> t.lock_timer == 0 && t.lock_resets == s.lock_resets
                &&& grounded && s.lock_resets < 15 ==> t.lock_timer == 0 && t.lock_resets
                    == s.lock_resets + 1
                &&& grounded && s.lock_resets >= 15 ==> t.lock_timer == s.lock_timer
                    && t.lock_resets == s.lock_resets
            }
            &&& !fits(s.board, s.current, s.x + dx, s.y as int) ==> t == s
        }),
{
}

// ---------------------------------------------------------------------------
// The buttons in play
// ---------------------------------------------------------------------------

proof fn lemma_button_bits(b: u8, last: u8)
    requires
        b == 1 || b == 2 || b == 64,
        last & b == 0,
    ensures
        (b & !last) == b,
        b & 16u8 == 0,
        b & 32u8 == 0,
        b & 128u8 == 0,
        (b == 1) == (b & 1u8 != 0),
        (b == 2) == (b & 2u8 != 0),
        (b == 64) == (b & 64u8 != 0),
{
    assert((b == 1 || b == 2 || b == 64) && last & b == 0 ==> (b & !last) == b) by (bit_vector);
    assert(b == 1 || b == 2 || b == 64 ==> b & 16u8 == 0 && b & 32u8 == 0 && b & 128u8 == 0
        && (b == 1) == (b & 1u8 != 0) && (b == 2) == (b & 2u8 != 0) && (b == 64) == (b & 64u8
        != 0)) by (bit_vector);
}

/// In play, outside a line clear, a fresh press of button 1 alone turns the
/// piece clockwise, and of button 2 alone counter-clockwise, with the
/// rotation cue, when the turned piece fits in place; the piece keeps its
/// column, and gravity may take it a row lower in the same frame.
pub proof fn lemma_rotation_buttons(s: GameState, button: u8)
    requires
        wf(s),
        s.mode == Mode::Playing,
        s.clear_timer == 0,
        s.frame < u32::MAX,
        s.lock_timer < 20,
        button == 1 || button == 2,
        s.last_input & button == 0,
        fits(
            s.board,
            quarter_turn(s.current, if button == 1 { 1int } else { -1int }),
            s.x as int,
            s.y as int,
        ),
    ensures
        ({
            let (t, sound) = spec_tick(s, button);
            &&& t.current == quarter_turn(s.current, if button == 1 { 1int } else { -1int })
            &&& t.x == s.x
            &&& s.y <= t.y <= s.y + 1
            &&& sound == SoundEvent::Rotate
        }),
{
    reveal(spec_tick);
    reveal(spec_update_playing);
    reveal(spec_update_horizontal_movement);
    reveal(spec_soft_drop);
    reveal(spec_gravity);
    reveal(spec_update_lock_delay);
    lemma_button_bits(button, s.last_input);
    let s0 = GameState { frame: (s.frame + 1) as u32, ..s };
    let s1 = GameState { left_hold_frames: 0, right_hold_frames: 0, ..s0 };
    let d: int = if button == 1 { 1 } else { -1 };
    lemma_rotation_takes_first_fitting_kick(s1, d, 0);
    reveal(spec_try_rotate);
}

/// In play, outside a line clear, a fresh press of up alone is a hard drop:
/// the piece falls straight to the last row where it has room and is
/// written into the board there.
pub proof fn lemma_up_hard_drops(s: GameState, ry: int)
    requires
        wf(s),
        s.mode == Mode::Playing,
        s.clear_timer == 0,
        s.frame < u32::MAX,
        s.last_input & 64u8 == 0,
        s.y <= ry,
        forall|k: int| s.y <= k <= ry ==> #[trigger] fits(s.board, s.current, s.x as int, k),
        !fits(s.board, s.current, s.x as int, ry + 1),
    ensures
        spec_tick(s, 64u8).0.board == stamp(
            s.board,
            s.current,
            s.x as int,
            ry,
            (s.current.kind + 1) as u8,
            4,
        ),
{
    reveal(spec_tick);
    reveal(spec_update_playing);
    reveal(spec_update_horizontal_movement);
    lemma_button_bits(64u8, s.last_input);
    let s0 = GameState { frame: (s.frame + 1) as u32, ..s };
    let s1 = GameState { left_hold_frames: 0, right_hold_frames: 0, ..s0 };
    lemma_hard_drop_lands(s1, ry);
}

// ---------------------------------------------------------------------------
// More on soft drop and buffered input
// ---------------------------------------------------------------------------

/// Without down held, or on an odd frame, soft drop does nothing.
pub proof fn lemma_soft_drop_idle(s: GameState, input: u8, sound: SoundEvent)
    requires
        input & 128u8 == 0 || s.frame % 2 != 0,
    ensures
        spec_soft_drop(s, input, sound) == (s, sound),
{
    reveal(spec_soft_drop);
}

proof fn lemma_buffer_bits(b: u8)
    ensures
        BUFFERABLE_INPUT == 51u8,
        b & 48u8 == 0 ==> b & 16u8 == 0 && b & 32u8 == 0,
{
    assert(BUFFERABLE_INPUT == 51u8) by (bit_vector)
        requires
            BUFFERABLE_INPUT == BTN_LEFT | BTN_RIGHT | BTN_1 | BTN_2,
            BTN_LEFT == 16u8,
            BTN_RIGHT == 32u8,
            BTN_1 == 1u8,
            BTN_2 == 2u8,
    ;
    assert(b & 48u8 == 0 ==> b & 16u8 == 0 && b & 32u8 == 0) by (bit_vector);
}

/// While a line clear animates (with more than its last frame to go), the
/// board and the piece stay still and fresh presses of left, right, X or Z
/// are remembered: they join the buffer, which then lasts 17 more frames.
/// Without such a press the buffer ages by a frame and is forgotten when
/// its time runs out.
pub proof fn lemma_clear_buffers_presses(s: GameState, input: u8)
    requires
        wf(s),
        s.mode == Mode::Playing,
        s.clear_timer > 1,
        s.frame < u32::MAX,
    ensures
        ({
            let (t, sound) = spec_tick(s, input);
            let p = (input & !s.last_input) & 51u8;
            &&& t.board == s.board && t.clear_timer == s.clear_timer - 1
            &&& t.x == s.x && t.y == s.y && t.current == s.current
            &&& sound == SoundEvent::Silent
            &&& p != 0 ==> t.buffered_input == s.buffered_input | p && t.input_buffer_timer == 17
            &&& p == 0 && s.input_buffer_timer > 1 ==> t.buffered_input == s.buffered_input
                && t.input_buffer_timer == s.input_buffer_timer - 1
            &&& p == 0 && s.input_buffer_timer <= 1 ==> t.buffered_input == (if s.input_buffer_timer
                == 0 {
                s.buffered_input
            } else {
                0
            }) && t.input_buffer_timer == 0
        }),
{
    reveal(spec_tick);
    reveal(spec_update_playing);
    reveal(spec_update_clearing);
    lemma_buffer_bits(0);
}

/// A buffered X or Z, without a buffered sideways press, replays as a turn
/// (X clockwise, taking precedence; Z counter-clockwise) when the turned
/// piece fits in place.
pub proof fn lemma_buffered_turn_replays(s: GameState)
    requires
        wf(s),
        s.mode == Mode::Playing,
        s.input_buffer_timer > 0,
        s.buffered_input & 48u8 == 0,
        s.buffered_input & 1u8 != 0 || s.buffered_input & 2u8 != 0,
        fits(
            s.board,
            quarter_turn(s.current, if s.buffered_input & 1u8 != 0 { 1int } else { -1int }),
            s.x as int,
            s.y as int,
        ),
    ensures
        ({
            let t = spec_apply_buffered_input(s);
            &&& t.current == quarter_turn(
                s.current,
                if s.buffered_input & 1u8 != 0 { 1int } else { -1int },
            )
            &&& t.x == s.x && t.y == s.y
            &&& t.buffered_input == 0 && t.input_buffer_timer == 0
        }),
{
    reveal(spec_apply_buffered_input);
    lemma_buffer_bits(s.buffered_input);
    let d: int = if s.buffered_input & 1u8 != 0 { 1 } else { -1 };
    let s1 = GameState { buffered_input: 0, input_buffer_timer: 0, ..s };
    assert(kick_offsets()[0] == (0int, 0int));
    assert(fits_at_kick(s1, d, 0));
    lemma_rotation_takes_first_fitting_kick(s1, d, 0);
}

} // verus!
