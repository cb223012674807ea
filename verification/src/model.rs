use vstd::prelude::*;

use crate::board::{compact, fits, full_rows_mask, lemma_fits_above_board, popcount, stamp};
use crate::demo::{demo_target, drop_y};
use crate::shapes::valid_piece;
use crate::types::{
    empty_style, BlockPattern, BlockStyle, Mode, Piece, SoundEvent, ARR_FRAMES, BTN_1, BTN_2,
    BTN_DOWN, BTN_LEFT, BTN_RIGHT, BTN_UP, BUFFERABLE_INPUT, DAS_FRAMES, INPUT_BUFFER_FRAMES,
    LINE_CLEAR_FRAMES, LOCK_DELAY_FRAMES, LOCK_RESET_LIMIT, SOFT_DROP_FRAMES,
    SOFT_DROP_SOUND_FRAMES, START_BUTTONS, START_X, START_Y,
};

verus! {

/// The whole state of a game, as mathematical values.
pub struct GameState {
    /// Locked blocks: 0 for empty, else the piece kind plus one.
    pub board: Seq<u8>,
    /// Which locked piece each cell belongs to (0 for empty).
    pub ids: Seq<u16>,
    /// How each locked cell is drawn.
    pub styles: Seq<BlockStyle>,
    pub current: Piece,
    pub next: Piece,
    pub current_style: BlockStyle,
    pub next_style: BlockStyle,
    pub x: i8,
    pub y: i8,
    pub demo_target_x: i8,
    pub demo_target_rot: u8,
    pub rng: u32,
    pub next_piece_id: u16,
    pub clear_mask: u32,
    pub clear_timer: u8,
    pub frame: u32,
    pub last_input: u8,
    pub left_hold_frames: u8,
    pub right_hold_frames: u8,
    pub lock_timer: u8,
    pub lock_resets: u8,
    pub buffered_input: u8,
    pub input_buffer_timer: u8,
    pub soft_drop_sound_timer: u8,
    pub score: u32,
    pub lines: u16,
    pub level: u8,
    pub hi_score: u32,
    pub mode: Mode,
    pub save_requested: bool,
}

/// The conditions every operation relies on: a 200-cell board, valid pieces,
/// and a position near the board.
pub open spec fn wf(s: GameState) -> bool {
    &&& s.board.len() == 200
    &&& s.ids.len() == 200
    &&& s.styles.len() == 200
    &&& valid_piece(s.current)
    &&& valid_piece(s.next)
    &&& -20 <= s.x <= 20
    &&& -20 <= s.y <= 20
    &&& s.demo_target_rot < 4
}

// ---------------------------------------------------------------------------
// Arithmetic helpers
// ---------------------------------------------------------------------------

/// Addition that stops at the largest u32.
pub open spec fn sat_u32(v: int) -> u32 {
    if v > u32::MAX {
        u32::MAX
    } else {
        v as u32
    }
}

/// Addition that stops at the largest u16.
pub open spec fn sat_u16(v: int) -> u16 {
    if v > u16::MAX {
        u16::MAX
    } else {
        v as u16
    }
}

/// Addition that stops at the largest u8.
pub open spec fn sat_u8(v: int) -> u8 {
    if v > u8::MAX {
        u8::MAX
    } else {
        v as u8
    }
}

/// The linear congruential generator the game draws pieces and styles from.
#[verifier::opaque]
pub open spec fn lcg(r: u32) -> u32 {
    ((r * 1664525 + 1013904223) % 0x1_0000_0000) as u32
}

/// The piece kind a freshly drawn random number stands for.
pub open spec fn kind_of(r: u32) -> u8 {
    ((r >> 16u32) % 7) as u8
}

/// The block style two freshly drawn random numbers stand for.
pub open spec fn style_of(r1: u32, r2: u32) -> BlockStyle {
    let p = (r2 >> 16u32) % 3;
    BlockStyle {
        color: (2 + (r1 >> 16u32) % 3) as u8,
        pattern: if p == 0 {
            BlockPattern::Solid
        } else if p == 1 {
            BlockPattern::InnerFrame
        } else {
            BlockPattern::Dither
        },
    }
}

/// Frames between two gravity steps at a level.
pub open spec fn gravity_frames(level: u8) -> u32 {
    let base: int = if 48 >= level * 3 {
        48 - level * 3
    } else {
        0
    };
    if base > 6 {
        base as u32
    } else {
        6
    }
}

/// Points for clearing `cleared` rows at once, before the level multiplier.
pub open spec fn line_base(cleared: u8) -> int {
    if cleared == 1 {
        40
    } else if cleared == 2 {
        100
    } else if cleared == 3 {
        300
    } else {
        1200
    }
}

/// The level reached after clearing `lines` lines: one per ten, at most 19.
pub open spec fn level_for(lines: u16) -> u8 {
    if lines / 10 < 19 {
        (lines / 10) as u8
    } else {
        19
    }
}

/// A held direction repeats after the auto-shift delay, then at the
/// auto-repeat rate.
pub open spec fn repeats_at(held: u8) -> bool {
    held >= DAS_FRAMES && (held - DAS_FRAMES) % (ARR_FRAMES as int) == 0
}

/// The offsets tried, in order, when a rotation is blocked.
pub open spec fn kick(i: int) -> (int, int) {
    if i == 0 {
        (0, 0)
    } else if i == 1 {
        (-1, 0)
    } else if i == 2 {
        (1, 0)
    } else if i == 3 {
        (-2, 0)
    } else if i == 4 {
        (2, 0)
    } else if i == 5 {
        (0, -1)
    } else if i == 6 {
        (-1, -1)
    } else if i == 7 {
        (1, -1)
    } else {
        (0, -2)
    }
}

/// The first kick, from `i` on, at which piece `p` fits near (x, y); 9 when
/// none does.
pub open spec fn first_kick(board: Seq<u8>, p: Piece, x: int, y: int, i: int) -> int
    decreases 9 - i,
{
    if i >= 9 {
        9
    } else if fits(board, p, x + kick(i).0, y + kick(i).1) {
        i
    } else {
        first_kick(board, p, x, y, i + 1)
    }
}

/// The empty board, cell ids and styles.
pub open spec fn empty_board() -> Seq<u8> {
    Seq::new(200, |i: int| 0u8)
}

pub open spec fn empty_ids() -> Seq<u16> {
    Seq::new(200, |i: int| 0u16)
}

pub open spec fn empty_styles() -> Seq<BlockStyle> {
    Seq::new(200, |i: int| empty_style())
}

// ---------------------------------------------------------------------------
// Small state changes
// ---------------------------------------------------------------------------

/// Draws a piece kind.
pub open spec fn spec_random_piece(s: GameState) -> (GameState, u8) {
    let r = lcg(s.rng);
    (GameState { rng: r, ..s }, kind_of(r))
}

/// Draws a block style.
pub open spec fn spec_random_style(s: GameState) -> (GameState, BlockStyle) {
    let r1 = lcg(s.rng);
    let r2 = lcg(r1);
    (GameState { rng: r2, ..s }, style_of(r1, r2))
}

/// Hands out the next piece id; ids run from 1 and skip 0 when they wrap.
pub open spec fn spec_take_next_piece_id(s: GameState) -> (GameState, u16) {
    let id = s.next_piece_id;
    let n: u16 = if id == 65535 {
        1
    } else {
        (id + 1) as u16
    };
    (GameState { next_piece_id: n, ..s }, id)
}

/// Raises the hi score to the score, and asks for a save, when the score
/// beats it.
pub open spec fn spec_touch_hi_score(s: GameState) -> GameState {
    if s.score > s.hi_score {
        GameState { hi_score: s.score, save_requested: true, ..s }
    } else {
        s
    }
}

/// Forgets held directions, the lock delay, buffered input and sound timers.
pub open spec fn spec_reset_timing_state(s: GameState) -> GameState {
    GameState {
        left_hold_frames: 0,
        right_hold_frames: 0,
        lock_timer: 0,
        lock_resets: 0,
        buffered_input: 0,
        input_buffer_timer: 0,
        soft_drop_sound_timer: 0,
        ..s
    }
}

/// After the piece moves down the lock delay starts over.
pub open spec fn spec_reset_lock_state(s: GameState) -> GameState {
    GameState { lock_timer: 0, lock_resets: 0, ..s }
}

/// Moving or rotating restarts the lock delay: always for an airborne
/// piece, and at most 15 times for a grounded one.
pub open spec fn spec_reset_lock_delay_after_action(s: GameState, was_grounded: bool) -> GameState {
    if !was_grounded {
        GameState { lock_timer: 0, ..s }
    } else if s.lock_resets < LOCK_RESET_LIMIT {
        GameState { lock_timer: 0, lock_resets: (s.lock_resets + 1) as u8, ..s }
    } else {
        s
    }
}

/// The falling piece rests on something.
pub open spec fn grounded(s: GameState) -> bool {
    !fits(s.board, s.current, s.x as int, s.y + 1)
}

/// Moves the piece by (dx, dy) when it fits there.
pub open spec fn spec_try_move(s: GameState, dx: int, dy: int) -> (GameState, bool) {
    if fits(s.board, s.current, s.x + dx, s.y + dy) {
        (GameState { x: (s.x + dx) as i8, y: (s.y + dy) as i8, ..s }, true)
    } else {
        (s, false)
    }
}

/// The piece turned a quarter in `direction` (1 clockwise, -1 counter).
pub open spec fn rotated_piece(p: Piece, direction: int) -> Piece {
    Piece { kind: p.kind, rot: ((p.rot + direction + 4) % 4) as u8 }
}

/// Rotates the piece, trying the kicks in order.
#[verifier::opaque]
pub open spec fn spec_try_rotate(s: GameState, direction: int) -> (GameState, bool) {
    let rotated = rotated_piece(s.current, direction);
    let k = first_kick(s.board, rotated, s.x as int, s.y as int, 0);
    if k < 9 {
        let moved = GameState {
            current: rotated,
            x: (s.x + kick(k).0) as i8,
            y: (s.y + kick(k).1) as i8,
            ..s
        };
        (spec_reset_lock_delay_after_action(moved, grounded(s)), true)
    } else {
        (s, false)
    }
}

/// Writes the falling piece into the board with a fresh id and its style.
pub open spec fn spec_stamp_current(s: GameState) -> GameState {
    let (s1, id) = spec_take_next_piece_id(s);
    GameState {
        board: stamp(s1.board, s1.current, s1.x as int, s1.y as int, (s1.current.kind + 1) as u8, 4),
        ids: stamp(s1.ids, s1.current, s1.x as int, s1.y as int, id, 4),
        styles: stamp(s1.styles, s1.current, s1.x as int, s1.y as int, s1.current_style, 4),
        ..s1
    }
}

/// Removes the rows in `mask` from the board, ids and styles.
pub open spec fn spec_apply_clear_mask(s: GameState, mask: u32) -> GameState {
    GameState {
        board: compact(s.board, mask, 0u8),
        ids: compact(s.ids, mask, 0u16),
        styles: compact(s.styles, mask, empty_style()),
        ..s
    }
}

/// Scores `cleared` rows and raises lines and level.
#[verifier::opaque]
pub open spec fn spec_add_line_score(s: GameState, cleared: u8) -> GameState {
    let score = sat_u32(s.score + line_base(cleared) * (s.level + 1));
    let lines = sat_u16(s.lines + cleared);
    spec_touch_hi_score(GameState { score, lines, level: level_for(lines), ..s })
}

/// Makes the next piece the falling one, at the spawn point, and draws a new
/// next piece; the game is over when the new piece does not fit.
#[verifier::opaque]
pub open spec fn spec_spawn_next(s: GameState) -> GameState {
    let (s1, kind) = spec_random_piece(s);
    let (s2, style) = spec_random_style(s1);
    let s3 = GameState {
        current: Piece { kind: s.next.kind, rot: 0 },
        current_style: s.next_style,
        next: Piece { kind, rot: 0 },
        next_style: style,
        x: START_X,
        y: START_Y,
        lock_timer: 0,
        lock_resets: 0,
        ..s2
    };
    if !fits(s3.board, s3.current, 3, 0) {
        spec_touch_hi_score(GameState { mode: Mode::GameOver, ..s3 })
    } else {
        s3
    }
}

/// Locks the falling piece; full rows start the clear animation, else the
/// next piece spawns.
#[verifier::opaque]
pub open spec fn spec_lock_piece(s: GameState) -> (GameState, SoundEvent) {
    let s1 = spec_stamp_current(spec_reset_lock_state(s));
    let mask = full_rows_mask(s1.board);
    let cleared = popcount(mask);
    if cleared > 0 {
        (
            spec_add_line_score(GameState { clear_mask: mask, clear_timer: LINE_CLEAR_FRAMES, ..s1 }, cleared as u8),
            SoundEvent::Line(cleared as u8),
        )
    } else {
        let s2 = spec_spawn_next(s1);
        (
            s2,
            if s2.mode == Mode::GameOver {
                SoundEvent::GameOver
            } else {
                SoundEvent::Lock
            },
        )
    }
}

/// Drops the piece as far as it goes, scores two points a row, and locks it.
#[verifier::opaque]
pub open spec fn spec_hard_drop(s: GameState) -> (GameState, SoundEvent) {
    let ry = drop_y(s.board, s.current, s.x as int, s.y as int);
    let dropped = ry - s.y;
    let s1 = GameState { y: ry as i8, ..s };
    let s2 = if dropped > 0 {
        spec_touch_hi_score(GameState { score: sat_u32(s1.score + dropped * 2), ..s1 })
    } else {
        s1
    };
    spec_lock_piece(s2)
}

/// Aims the demo at its preferred placement for the falling piece.
pub open spec fn spec_set_demo_target(s: GameState) -> GameState {
    let (tx, tr) = demo_target(s.board, s.current.kind);
    GameState { demo_target_x: tx, demo_target_rot: tr, ..s }
}

/// Starts the demo over on an empty board.
#[verifier::opaque]
pub open spec fn spec_reset_cpu_demo(s: GameState) -> GameState {
    let (s1, ck) = spec_random_piece(s);
    let (s2, cs) = spec_random_style(s1);
    let (s3, nk) = spec_random_piece(s2);
    let (s4, ns) = spec_random_style(s3);
    let s5 = GameState {
        board: empty_board(),
        ids: empty_ids(),
        styles: empty_styles(),
        clear_mask: 0,
        clear_timer: 0,
        current: Piece { kind: ck, rot: 0 },
        current_style: cs,
        next: Piece { kind: nk, rot: 0 },
        next_style: ns,
        x: START_X,
        y: START_Y,
        ..s4
    };
    spec_set_demo_target(spec_reset_timing_state(s5))
}

/// The demo's next piece spawns; a blocked spawn restarts the demo.
#[verifier::opaque]
pub open spec fn spec_spawn_demo_next(s: GameState) -> GameState {
    let (s1, kind) = spec_random_piece(s);
    let (s2, style) = spec_random_style(s1);
    let s3 = GameState {
        current: Piece { kind: s.next.kind, rot: 0 },
        current_style: s.next_style,
        next: Piece { kind, rot: 0 },
        next_style: style,
        x: START_X,
        y: START_Y,
        lock_timer: 0,
        lock_resets: 0,
        ..s2
    };
    let s4 = spec_set_demo_target(s3);
    if !fits(s4.board, s4.current, 3, 0) {
        spec_reset_cpu_demo(s4)
    } else {
        s4
    }
}

/// The demo locks its piece; full rows start the clear animation.
#[verifier::opaque]
pub open spec fn spec_lock_demo_piece(s: GameState) -> GameState {
    let s1 = spec_stamp_current(s);
    let mask = full_rows_mask(s1.board);
    if mask != 0 {
        GameState { clear_mask: mask, clear_timer: LINE_CLEAR_FRAMES, ..s1 }
    } else {
        spec_spawn_demo_next(s1)
    }
}

/// Every third frame the demo's piece falls a row, or locks.
pub open spec fn spec_demo_fall(s: GameState) -> GameState {
    if s.frame % 3 == 0 {
        let (t, ok) = spec_try_move(s, 0, 1);
        if !ok {
            spec_lock_demo_piece(t)
        } else {
            t
        }
    } else {
        s
    }
}

/// One frame of the title-screen demo.
#[verifier::opaque]
pub open spec fn spec_update_cpu_demo(s: GameState) -> GameState {
    if s.clear_timer > 0 {
        let s1 = GameState { clear_timer: (s.clear_timer - 1) as u8, ..s };
        if s1.clear_timer == 0 {
            spec_spawn_demo_next(
                GameState { clear_mask: 0, ..spec_apply_clear_mask(s1, s1.clear_mask) },
            )
        } else {
            s1
        }
    } else if s.current.rot != s.demo_target_rot {
        let (t, ok) = spec_try_rotate(s, 1);
        if !ok {
            GameState { demo_target_rot: t.current.rot, ..t }
        } else {
            t
        }
    } else if s.x < s.demo_target_x {
        let (t, ok) = spec_try_move(s, 1, 0);
        if ok {
            t
        } else {
            spec_demo_fall(GameState { demo_target_x: t.x, ..t })
        }
    } else if s.x > s.demo_target_x {
        let (t, ok) = spec_try_move(s, -1, 0);
        if ok {
            t
        } else {
            spec_demo_fall(GameState { demo_target_x: t.x, ..t })
        }
    } else {
        spec_demo_fall(s)
    }
}

/// A new game: empty board, zero score, two fresh pieces.
#[verifier::opaque]
pub open spec fn spec_start_game(s: GameState) -> GameState {
    let (s1, ck) = spec_random_piece(s);
    let (s2, cs) = spec_random_style(s1);
    let (s3, nk) = spec_random_piece(s2);
    let (s4, ns) = spec_random_style(s3);
    spec_reset_timing_state(
        GameState {
            board: empty_board(),
            ids: empty_ids(),
            styles: empty_styles(),
            next_piece_id: 1,
            clear_mask: 0,
            clear_timer: 0,
            score: 0,
            lines: 0,
            level: 0,
            current: Piece { kind: ck, rot: 0 },
            current_style: cs,
            next: Piece { kind: nk, rot: 0 },
            next_style: ns,
            x: START_X,
            y: START_Y,
            demo_target_x: START_X,
            demo_target_rot: 0,
            mode: Mode::Playing,
            last_input: 0,
            ..s4
        },
    )
}

/// Moves the piece sideways and restarts its lock delay when it moved.
pub open spec fn spec_try_horizontal_move(s: GameState, dx: int) -> (GameState, SoundEvent) {
    let (t, ok) = spec_try_move(s, dx, 0);
    if ok {
        (spec_reset_lock_delay_after_action(t, grounded(s)), SoundEvent::Move)
    } else {
        (t, SoundEvent::Silent)
    }
}

/// Left and right: a fresh press moves once; a held direction waits for the
/// auto-shift delay, then repeats; both or neither held does nothing.
#[verifier::opaque]
pub open spec fn spec_update_horizontal_movement(s: GameState, input: u8, pressed: u8) -> (
    GameState,
    SoundEvent,
) {
    let left = input & BTN_LEFT != 0;
    let right = input & BTN_RIGHT != 0;
    let was_overlapping = s.last_input & BTN_LEFT != 0 && s.last_input & BTN_RIGHT != 0;
    if left == right {
        (GameState { left_hold_frames: 0, right_hold_frames: 0, ..s }, SoundEvent::Silent)
    } else if left {
        let s1 = GameState { right_hold_frames: 0, ..s };
        if pressed & BTN_LEFT != 0 || was_overlapping {
            spec_try_horizontal_move(GameState { left_hold_frames: 0, ..s1 }, -1)
        } else {
            let h = sat_u8(s1.left_hold_frames + 1);
            let s2 = GameState { left_hold_frames: h, ..s1 };
            if repeats_at(h) {
                spec_try_horizontal_move(s2, -1)
            } else {
                (s2, SoundEvent::Silent)
            }
        }
    } else {
        let s1 = GameState { left_hold_frames: 0, ..s };
        if pressed & BTN_RIGHT != 0 || was_overlapping {
            spec_try_horizontal_move(GameState { right_hold_frames: 0, ..s1 }, 1)
        } else {
            let h = sat_u8(s1.right_hold_frames + 1);
            let s2 = GameState { right_hold_frames: h, ..s1 };
            if repeats_at(h) {
                spec_try_horizontal_move(s2, 1)
            } else {
                (s2, SoundEvent::Silent)
            }
        }
    }
}

/// A grounded piece counts up its lock delay and locks after 20 frames.
#[verifier::opaque]
pub open spec fn spec_update_lock_delay(s: GameState) -> (GameState, Option<SoundEvent>) {
    if !grounded(s) {
        (GameState { lock_timer: 0, ..s }, None)
    } else {
        let t = sat_u8(s.lock_timer + 1);
        let s1 = GameState { lock_timer: t, ..s };
        if t > LOCK_DELAY_FRAMES {
            let (s2, sound) = spec_lock_piece(s1);
            (s2, Some(sound))
        } else {
            (s1, None)
        }
    }
}

/// Presses of left, right and the rotations made during a line clear are
/// remembered for 18 frames.
pub open spec fn spec_buffer_input(s: GameState, pressed: u8) -> GameState {
    let input = pressed & BUFFERABLE_INPUT;
    if input != 0 {
        GameState { buffered_input: s.buffered_input | input, input_buffer_timer: INPUT_BUFFER_FRAMES, ..s }
    } else {
        s
    }
}

/// Replays a buffered rotation, then a buffered sideways move.
#[verifier::opaque]
pub open spec fn spec_apply_buffered_input(s: GameState) -> GameState {
    if s.input_buffer_timer == 0 || s.mode != Mode::Playing {
        s
    } else {
        let input = s.buffered_input;
        let s1 = GameState { buffered_input: 0, input_buffer_timer: 0, ..s };
        let s2 = if input & BTN_1 != 0 {
            spec_try_rotate(s1, 1).0
        } else if input & BTN_2 != 0 {
            spec_try_rotate(s1, -1).0
        } else {
            s1
        };
        if input & BTN_LEFT != 0 && input & BTN_RIGHT == 0 {
            spec_try_move(s2, -1, 0).0
        } else if input & BTN_RIGHT != 0 && input & BTN_LEFT == 0 {
            spec_try_move(s2, 1, 0).0
        } else {
            s2
        }
    }
}

/// Buffered input expires.
pub open spec fn spec_age_input_buffer(s: GameState) -> GameState {
    if s.input_buffer_timer == 0 {
        s
    } else if s.input_buffer_timer == 1 {
        GameState { input_buffer_timer: 0, buffered_input: 0, ..s }
    } else {
        GameState { input_buffer_timer: (s.input_buffer_timer - 1) as u8, ..s }
    }
}

/// The soft-drop sound timer counts down.
pub open spec fn spec_tick_soft_drop_sound_timer(s: GameState) -> GameState {
    if s.soft_drop_sound_timer > 0 {
        GameState { soft_drop_sound_timer: (s.soft_drop_sound_timer - 1) as u8, ..s }
    } else {
        s
    }
}

/// One frame of the line-clear animation: when it ends the rows collapse,
/// the next piece spawns and buffered input is replayed.
#[verifier::opaque]
pub open spec fn spec_update_clearing(s: GameState, pressed: u8) -> (GameState, SoundEvent) {
    let s1 = spec_buffer_input(s, pressed);
    let s2 = GameState { clear_timer: (s1.clear_timer - 1) as u8, ..s1 };
    if s2.clear_timer == 0 {
        let s3 = spec_spawn_next(
            GameState { clear_mask: 0, ..spec_apply_clear_mask(s2, s2.clear_mask) },
        );
        if s3.mode == Mode::GameOver {
            (s3, SoundEvent::GameOver)
        } else {
            (spec_apply_buffered_input(s3), SoundEvent::Silent)
        }
    } else {
        (s2, SoundEvent::Silent)
    }
}

/// Soft drop: holding down moves the piece a row every other frame, for a
/// point each.
#[verifier::opaque]
pub open spec fn spec_soft_drop(s: GameState, input: u8, sound: SoundEvent) -> (
    GameState,
    SoundEvent,
) {
    if input & BTN_DOWN != 0 && s.frame % SOFT_DROP_FRAMES == 0 {
        let (t, ok) = spec_try_move(s, 0, 1);
        if ok {
            let t1 = spec_touch_hi_score(
                GameState { score: sat_u32(t.score + 1), ..spec_reset_lock_state(t) },
            );
            if t1.soft_drop_sound_timer == 0 {
                (GameState { soft_drop_sound_timer: SOFT_DROP_SOUND_FRAMES, ..t1 }, SoundEvent::SoftDrop)
            } else {
                (t1, sound)
            }
        } else {
            (t, sound)
        }
    } else {
        (s, sound)
    }
}

/// Gravity moves the piece a row when the frame count is a multiple of the
/// level's gravity period.
#[verifier::opaque]
pub open spec fn spec_gravity(s: GameState) -> GameState {
    if s.frame % gravity_frames(s.level) == 0 {
        let (t, ok) = spec_try_move(s, 0, 1);
        if ok {
            spec_reset_lock_state(t)
        } else {
            t
        }
    } else {
        s
    }
}

/// Rotates on a fresh press of button 1 (clockwise) or 2 (counter).
pub open spec fn spec_rotate_on(s: GameState, pressed: u8, button: u8, direction: int, sound: SoundEvent) -> (
    GameState,
    SoundEvent,
) {
    if pressed & button != 0 {
        let (t, ok) = spec_try_rotate(s, direction);
        (t, if ok { SoundEvent::Rotate } else { sound })
    } else {
        (s, sound)
    }
}

/// One frame of play.
#[verifier::opaque]
pub open spec fn spec_update_playing(s: GameState, input: u8, pressed: u8) -> (
    GameState,
    SoundEvent,
) {
    if s.clear_timer > 0 {
        spec_update_clearing(s, pressed)
    } else {
        let (s1, snd1) = spec_update_horizontal_movement(s, input, pressed);
        let (s2, snd2) = spec_rotate_on(s1, pressed, BTN_1, 1, snd1);
        let (s3, snd3) = spec_rotate_on(s2, pressed, BTN_2, -1, snd2);
        if pressed & BTN_UP != 0 {
            spec_hard_drop(s3)
        } else {
            let (s4, snd4) = spec_soft_drop(s3, input, snd3);
            let s5 = spec_gravity(s4);
            let (s6, lock) = spec_update_lock_delay(s5);
            (
                s6,
                match lock {
                    Some(l) => l,
                    None => snd4,
                },
            )
        }
    }
}

/// One frame of the game for the buttons held in `input`.
#[verifier::opaque]
pub open spec fn spec_tick(s: GameState, input: u8) -> (GameState, SoundEvent) {
    let s0 = GameState { frame: (if s.frame == u32::MAX { 0 } else { s.frame + 1 }) as u32, ..s };
    let pressed = input & !s.last_input;
    let (s1, sound) = match s0.mode {
        Mode::Title => {
            if pressed & START_BUTTONS != 0 {
                (spec_start_game(s0), SoundEvent::Start)
            } else {
                (spec_update_cpu_demo(s0), SoundEvent::Silent)
            }
        },
        Mode::GameOver => {
            if pressed & START_BUTTONS != 0 {
                (spec_start_game(s0), SoundEvent::Start)
            } else {
                (s0, SoundEvent::Silent)
            }
        },
        Mode::Playing => spec_update_playing(s0, input, pressed),
    };
    (
        spec_tick_soft_drop_sound_timer(
            spec_age_input_buffer(GameState { last_input: input, ..s1 }),
        ),
        sound,
    )
}

/// The game a hi score starts: title screen, empty board, two random pieces.
pub open spec fn spec_new(hi_score: u32) -> GameState {
    let s0 = GameState {
        board: empty_board(),
        ids: empty_ids(),
        styles: empty_styles(),
        current: Piece { kind: 0, rot: 0 },
        next: Piece { kind: 1, rot: 0 },
        current_style: empty_style(),
        next_style: empty_style(),
        x: START_X,
        y: START_Y,
        demo_target_x: START_X,
        demo_target_rot: 0,
        rng: 0x514c3031,
        next_piece_id: 1,
        clear_mask: 0,
        clear_timer: 0,
        frame: 0,
        last_input: 0,
        left_hold_frames: 0,
        right_hold_frames: 0,
        lock_timer: 0,
        lock_resets: 0,
        buffered_input: 0,
        input_buffer_timer: 0,
        soft_drop_sound_timer: 0,
        score: 0,
        lines: 0,
        level: 0,
        hi_score,
        mode: Mode::Title,
        save_requested: false,
    };
    let (s1, ck) = spec_random_piece(s0);
    let (s2, cs) = spec_random_style(s1);
    let (s3, nk) = spec_random_piece(s2);
    let (s4, ns) = spec_random_style(s3);
    spec_set_demo_target(
        GameState {
            current: Piece { kind: ck, rot: 0 },
            current_style: cs,
            next: Piece { kind: nk, rot: 0 },
            next_style: ns,
            ..s4
        },
    )
}

/// Kicks before `i` that do not fit do not change which kick is first.
pub proof fn lemma_first_kick_skip(board: Seq<u8>, p: Piece, x: int, y: int, i: int)
    requires
        0 <= i <= 9,
        forall|j: int| 0 <= j < i ==> !fits(board, p, x + kick(j).0, y + kick(j).1),
    ensures
        first_kick(board, p, x, y, 0) == first_kick(board, p, x, y, i),
    decreases i,
{
    if i > 0 {
        lemma_first_kick_skip(board, p, x, y, i - 1);
    }
}

/// A rotation well above the board never needs an upward kick, so the piece
/// never rises above row -5.
pub proof fn lemma_kick_keeps_height(board: Seq<u8>, p: Piece, x: int, y: int)
    requires
        valid_piece(p),
        y <= -4,
        first_kick(board, p, x, y, 0) < 9,
    ensures
        kick(first_kick(board, p, x, y, 0)).1 == 0,
{
    let k = first_kick(board, p, x, y, 0);
    lemma_first_kick_below(board, p, x, y, 0);
    if k >= 5 {
        let j: int = if k == 6 {
            1
        } else if k == 7 {
            2
        } else {
            0
        };
        lemma_fits_above_board(board, p, x + kick(k).0, y, y + kick(k).1);
        assert(kick(j).0 == kick(k).0);
        assert(!fits(board, p, x + kick(j).0, y + kick(j).1));
    }
}

/// The first kick fits, and no kick before it does.
pub proof fn lemma_first_kick_below(board: Seq<u8>, p: Piece, x: int, y: int, i: int)
    requires
        0 <= i <= 9,
    ensures
        i <= first_kick(board, p, x, y, i) <= 9,
        forall|j: int|
            i <= j < first_kick(board, p, x, y, i) ==> !fits(board, p, x + kick(j).0, y + kick(j).1),
        first_kick(board, p, x, y, i) < 9 ==> fits(
            board,
            p,
            x + kick(first_kick(board, p, x, y, i)).0,
            y + kick(first_kick(board, p, x, y, i)).1,
        ),
    decreases 9 - i,
{
    if i < 9 {
        lemma_first_kick_below(board, p, x, y, i + 1);
    }
}

} // verus!
