use vstd::prelude::*;

use crate::board::{
    blocked, collapse_rows, count_rows, fits, full_rows_mask, full_rows_mask_upto,
    lemma_fits_bounds, popcount, row_full, row_full_in, row_mask, stamp_array,
};
use crate::demo::{
    best_target, board_score_of, candidate, candidate_score, drop_y, earlier,
    lemma_demo_target_is, lemma_placement_score_bounds, lemma_target_range, placement_score,
    target_hi, target_lo, target_range,
};
use crate::model::{
    empty_board, empty_ids, empty_styles, gravity_frames, grounded, kick, lcg,
    lemma_first_kick_skip, lemma_kick_keeps_height, repeats_at, rotated_piece, spec_add_line_score,
    spec_age_input_buffer, spec_apply_buffered_input, spec_apply_clear_mask, spec_buffer_input,
    spec_gravity, spec_hard_drop, spec_lock_demo_piece, spec_lock_piece, spec_new,
    spec_random_piece, spec_random_style, spec_reset_cpu_demo, spec_reset_lock_delay_after_action,
    spec_reset_lock_state, spec_reset_timing_state, spec_set_demo_target, spec_soft_drop,
    spec_spawn_demo_next, spec_spawn_next, spec_stamp_current, spec_start_game,
    spec_take_next_piece_id, spec_tick, spec_tick_soft_drop_sound_timer, spec_touch_hi_score,
    spec_try_horizontal_move, spec_try_move, spec_try_rotate, spec_update_clearing,
    spec_update_cpu_demo, spec_update_horizontal_movement, spec_update_lock_delay,
    spec_update_playing, wf, GameState,
};
use crate::shapes::{cell_dx, cell_dy, lemma_shape_in_box, shape, shape_cells, valid_piece};
use crate::types::{
    empty_block_style, BlockPattern, BlockStyle, Mode, Piece, SoundEvent, TickResult, ARR_FRAMES,
    BOARD_CELLS, BTN_1, BTN_2, BTN_DOWN, BTN_LEFT, BTN_RIGHT, BTN_UP, BUFFERABLE_INPUT,
    DAS_FRAMES, INPUT_BUFFER_FRAMES, LINE_CLEAR_FRAMES, LOCK_DELAY_FRAMES, LOCK_RESET_LIMIT,
    SOFT_DROP_FRAMES, SOFT_DROP_SOUND_FRAMES, START_BUTTONS, START_X, START_Y,
};

verus! {

/// A falling-block game: the board, the falling and next pieces, the
/// scores, and the timers that pace input, gravity and animation.
#[derive(Clone, Copy)]
pub struct Game {
    board: [u8; BOARD_CELLS],
    board_ids: [u16; BOARD_CELLS],
    board_styles: [BlockStyle; BOARD_CELLS],
    current: Piece,
    next: Piece,
    current_style: BlockStyle,
    next_style: BlockStyle,
    x: i8,
    y: i8,
    demo_target_x: i8,
    demo_target_rot: u8,
    rng: u32,
    next_piece_id: u16,
    clear_mask: u32,
    clear_timer: u8,
    frame: u32,
    last_input: u8,
    left_hold_frames: u8,
    right_hold_frames: u8,
    lock_timer: u8,
    lock_resets: u8,
    buffered_input: u8,
    input_buffer_timer: u8,
    soft_drop_sound_timer: u8,
    score: u32,
    lines: u16,
    level: u8,
    hi_score: u32,
    mode: Mode,
    save_requested: bool,
}

impl View for Game {
    type V = GameState;

    closed spec fn view(&self) -> GameState {
        GameState {
            board: self.board@,
            ids: self.board_ids@,
            styles: self.board_styles@,
            current: self.current,
            next: self.next,
            current_style: self.current_style,
            next_style: self.next_style,
            x: self.x,
            y: self.y,
            demo_target_x: self.demo_target_x,
            demo_target_rot: self.demo_target_rot,
            rng: self.rng,
            next_piece_id: self.next_piece_id,
            clear_mask: self.clear_mask,
            clear_timer: self.clear_timer,
            frame: self.frame,
            last_input: self.last_input,
            left_hold_frames: self.left_hold_frames,
            right_hold_frames: self.right_hold_frames,
            lock_timer: self.lock_timer,
            lock_resets: self.lock_resets,
            buffered_input: self.buffered_input,
            input_buffer_timer: self.input_buffer_timer,
            soft_drop_sound_timer: self.soft_drop_sound_timer,
            score: self.score,
            lines: self.lines,
            level: self.level,
            hi_score: self.hi_score,
            mode: self.mode,
            save_requested: self.save_requested,
        }
    }
}

/// The kick offsets in the order they are tried.
fn kick_offset(i: usize) -> (k: (i8, i8))
    requires
        i < 9,
    ensures
        k.0 == kick(i as int).0,
        k.1 == kick(i as int).1,
{
    if i == 0 {
        (0, 0)
    } else if i == 1 {
        (-1, 0)
    } else if i == 2 {
        (1, 0)
    } else if i == 3 {
        (-2, 0)
    } else if i == 4 {
        (2, 0)
    } else if i == 5 {
        (0, -1)
    } else if i == 6 {
        (-1, -1)
    } else if i == 7 {
        (1, -1)
    } else {
        (0, -2)
    }
}

impl Game {
    /// The mode the game is in.
    pub fn mode(&self) -> (m: Mode)
        ensures
            m == self@.mode,
    {
        self.mode
    }

    /// Points scored in this game.
    pub fn score(&self) -> (s: u32)
        ensures
            s == self@.score,
    {
        self.score
    }

    /// The current level.
    pub fn level(&self) -> (l: u8)
        ensures
            l == self@.level,
    {
        self.level
    }

    /// Lines cleared in this game.
    pub fn lines(&self) -> (l: u16)
        ensures
            l == self@.lines,
    {
        self.lines
    }

    /// The best score seen.
    pub fn hi_score(&self) -> (h: u32)
        ensures
            h == self@.hi_score,
    {
        self.hi_score
    }

    /// Frames elapsed, wrapping.
    pub fn frame(&self) -> (f: u32)
        ensures
            f == self@.frame,
    {
        self.frame
    }

    /// The falling piece.
    pub fn current(&self) -> (p: Piece)
        ensures
            p == self@.current,
    {
        self.current
    }

    /// The piece that comes next.
    pub fn next(&self) -> (p: Piece)
        ensures
            p == self@.next,
    {
        self.next
    }

    /// Column and row of the falling piece's 4x4 box.
    pub fn position(&self) -> (p: (i8, i8))
        ensures
            p == (self@.x, self@.y),
    {
        (self.x, self.y)
    }

    /// The block at column `x`, row `y`: 0 when empty, else kind plus one.
    pub fn cell(&self, x: usize, y: usize) -> (c: u8)
        requires
            y * 10 + x < 200,
        ensures
            c == self@.board[y * 10 + x],
    {
        self.board[y * 10 + x]
    }

    /// The id of the locked piece a cell belongs to (0 when empty).
    pub fn cell_id(&self, x: usize, y: usize) -> (c: u16)
        requires
            y * 10 + x < 200,
        ensures
            c == self@.ids[y * 10 + x],
    {
        self.board_ids[y * 10 + x]
    }

    /// How a cell is drawn.
    pub fn cell_style(&self, x: usize, y: usize) -> (c: BlockStyle)
        requires
            y * 10 + x < 200,
        ensures
            c == self@.styles[y * 10 + x],
    {
        self.board_styles[y * 10 + x]
    }

    /// How the falling piece is drawn.
    pub fn current_style(&self) -> (s: BlockStyle)
        ensures
            s == self@.current_style,
    {
        self.current_style
    }

    /// How the next piece is drawn.
    pub fn next_style(&self) -> (s: BlockStyle)
        ensures
            s == self@.next_style,
    {
        self.next_style
    }

    /// A line-clear animation is running.
    pub fn is_clearing(&self) -> (c: bool)
        ensures
            c == (self@.clear_timer > 0),
    {
        self.clear_timer > 0
    }

    /// Row `y` is being cleared.
    pub fn clearing_row(&self, y: usize) -> (c: bool)
        requires
            y < 32,
        ensures
            c == crate::board::in_mask(self@.clear_mask, y as int),
    {
        self.clear_mask & crate::board::row_mask(y) != 0
    }

    /// Frames left in the line-clear animation.
    pub fn clear_timer(&self) -> (t: u8)
        ensures
            t == self@.clear_timer,
    {
        self.clear_timer
    }

    /// The cells of a piece within its 4x4 box.
    pub fn piece_cells(piece: Piece) -> (cells: [(i8, i8); 4])
        requires
            valid_piece(piece),
        ensures
            cells@ == shape(piece.kind, piece.rot),
    {
        shape_cells(piece)
    }

    /// Reports whether the hi score rose since the last call, and forgets it.
    pub fn take_save_request(&mut self) -> (requested: bool)
        ensures
            requested == old(self)@.save_requested,
            final(self)@ == (GameState { save_requested: false, ..old(self)@ }),
    {
        let requested = self.save_requested;
        self.save_requested = false;
        requested
    }

    fn next_random(&mut self) -> (r: u32)
        ensures
            r == lcg(old(self)@.rng),
            final(self)@ == (GameState { rng: r, ..old(self)@ }),
    {
        let m = self.rng.wrapping_mul(1_664_525);
        let r = m.wrapping_add(1_013_904_223);
        proof {
            reveal(lcg);
            let a = self.rng as int * 1664525;
            assert(m == a % 0x1_0000_0000);
            vstd::arithmetic::div_mod::lemma_add_mod_noop(a, 1013904223, 0x1_0000_0000);
            vstd::arithmetic::div_mod::lemma_mod_twice(1013904223, 0x1_0000_0000);
        }
        self.rng = r;
        r
    }

    fn random_piece(&mut self) -> (k: u8)
        ensures
            (final(self)@, k) == spec_random_piece(old(self)@),
            k < 7,
    {
        ((self.next_random() >> 16) % 7) as u8
    }

    /// Draws a random block style.
    pub fn random_style(&mut self) -> (style: BlockStyle)
        ensures
            (final(self)@, style) == spec_random_style(old(self)@),
            2 <= style.color <= 4,
    {
        let color = 2 + ((self.next_random() >> 16) % 3) as u8;
        let pattern = match (self.next_random() >> 16) % 3 {
            0 => BlockPattern::Solid,
            1 => BlockPattern::InnerFrame,
            _ => BlockPattern::Dither,
        };
        BlockStyle { color, pattern }
    }

    fn take_next_piece_id(&mut self) -> (id: u16)
        ensures
            (final(self)@, id) == spec_take_next_piece_id(old(self)@),
    {
        let id = self.next_piece_id;
        self.next_piece_id = self.next_piece_id.wrapping_add(1);
        if self.next_piece_id == 0 {
            self.next_piece_id = 1;
        }
        id
    }

    fn touch_hi_score(&mut self)
        ensures
            final(self)@ == spec_touch_hi_score(old(self)@),
    {
        if self.score > self.hi_score {
            self.hi_score = self.score;
            self.save_requested = true;
        }
    }

    fn reset_timing_state(&mut self)
        ensures
            final(self)@ == spec_reset_timing_state(old(self)@),
    {
        self.left_hold_frames = 0;
        self.right_hold_frames = 0;
        self.lock_timer = 0;
        self.lock_resets = 0;
        self.buffered_input = 0;
        self.input_buffer_timer = 0;
        self.soft_drop_sound_timer = 0;
    }

    fn reset_lock_state_after_descent(&mut self)
        ensures
            final(self)@ == spec_reset_lock_state(old(self)@),
    {
        self.lock_timer = 0;
        self.lock_resets = 0;
    }

    fn reset_lock_delay_after_action(&mut self, was_grounded: bool)
        ensures
            final(self)@ == spec_reset_lock_delay_after_action(old(self)@, was_grounded),
    {
        if !was_grounded {
            self.lock_timer = 0;
            return;
        }
        if self.lock_resets < LOCK_RESET_LIMIT {
            self.lock_timer = 0;
            self.lock_resets += 1;
        }
    }

    fn fits(&self, piece: Piece, x: i8, y: i8) -> (r: bool)
        requires
            valid_piece(piece),
            x <= 124,
            y <= 124,
        ensures
            r == fits(self@.board, piece, x as int, y as int),
    {
        let cells = shape_cells(piece);
        proof {
            lemma_shape_in_box(piece);
        }
        let mut i: usize = 0;
        while i < 4
            invariant
                i <= 4,
                valid_piece(piece),
                x <= 124,
                y <= 124,
                cells@ == shape(piece.kind, piece.rot),
                forall|j: int|
                    0 <= j < i ==> !blocked(
                        self@.board,
                        x + #[trigger] cell_dx(piece, j),
                        y + cell_dy(piece, j),
                    ),
            decreases 4 - i,
        {
            let (cx, cy) = cells[i];
            assert(cx == cell_dx(piece, i as int) && cy == cell_dy(piece, i as int));
            let bx = x + cx;
            let by = y + cy;
            if bx < 0 || bx >= 10 || by >= 20 {
                return false;
            }
            if by >= 0 && self.board[(by as usize) * 10 + bx as usize] != 0 {
                return false;
            }
            i = i + 1;
        }
        true
    }

    fn grounded(&self) -> (g: bool)
        requires
            wf(self@),
        ensures
            g == grounded(self@),
    {
        !self.fits(self.current, self.x, self.y + 1)
    }

    fn try_move(&mut self, dx: i8, dy: i8) -> (moved: bool)
        requires
            valid_piece(old(self)@.current),
            -1 <= dx <= 1,
            -1 <= dy <= 1,
            -128 <= old(self)@.x + dx <= 124,
            -128 <= old(self)@.y + dy <= 124,
        ensures
            (final(self)@, moved) == spec_try_move(old(self)@, dx as int, dy as int),
            wf(old(self)@) && dy >= 0 ==> wf(final(self)@),
    {
        let x = self.x + dx;
        let y = self.y + dy;
        if self.fits(self.current, x, y) {
            proof {
                lemma_fits_bounds(self@.board, self.current, x as int, y as int);
            }
            self.x = x;
            self.y = y;
            true
        } else {
            false
        }
    }

    fn try_rotate(&mut self, direction: i8) -> (rotated: bool)
        requires
            wf(old(self)@),
            direction == 1 || direction == -1,
        ensures
            (final(self)@, rotated) == spec_try_rotate(old(self)@, direction as int),
            wf(final(self)@),
    {
        let rot = ((self.current.rot as i8 + direction + 4) % 4) as u8;
        let rotated = Piece { kind: self.current.kind, rot };
        assert(rotated == rotated_piece(self.current, direction as int));
        let was_grounded = self.grounded();
        let ghost s0 = self@;
        let mut i: usize = 0;
        while i < 9
            invariant
                i <= 9,
                self@ == s0,
                s0 == old(self)@,
                wf(s0),
                valid_piece(rotated),
                was_grounded == grounded(s0),
                rotated == rotated_piece(s0.current, direction as int),
                forall|j: int|
                    0 <= j < i ==> !fits(s0.board, rotated, s0.x + kick(j).0, s0.y + kick(j).1),
            decreases 9 - i,
        {
            let (kick_x, kick_y) = kick_offset(i);
            if self.fits(rotated, self.x + kick_x, self.y + kick_y) {
                proof {
                    reveal(spec_try_rotate);
                    lemma_first_kick_skip(s0.board, rotated, s0.x as int, s0.y as int, i as int);
                    lemma_fits_bounds(
                        s0.board,
                        rotated,
                        s0.x + kick_x,
                        s0.y + kick_y,
                    );
                    if s0.y <= -4 {
                        lemma_kick_keeps_height(s0.board, rotated, s0.x as int, s0.y as int);
                    }
                }
                self.current = rotated;
                self.x += kick_x;
                self.y += kick_y;
                self.reset_lock_delay_after_action(was_grounded);
                return true;
            }
            i = i + 1;
        }
        proof {
            reveal(spec_try_rotate);
            lemma_first_kick_skip(s0.board, rotated, s0.x as int, s0.y as int, 9);
        }
        false
    }

    fn stamp_current(&mut self)
        requires
            wf(old(self)@),
        ensures
            final(self)@ == spec_stamp_current(old(self)@),
            wf(final(self)@),
    {
        let piece_id = self.take_next_piece_id();
        let cells = shape_cells(self.current);
        let value = self.current.kind + 1;
        stamp_array(&mut self.board, &cells, self.current, self.x, self.y, value);
        stamp_array(&mut self.board_ids, &cells, self.current, self.x, self.y, piece_id);
        stamp_array(&mut self.board_styles, &cells, self.current, self.x, self.y, self.current_style);
    }

    /// Whether row `y` has no empty cell.
    pub fn row_full(&self, y: usize) -> (full: bool)
        requires
            y < 20,
        ensures
            full == row_full(self@.board, y as int),
    {
        row_full_in(&self.board, y)
    }

    fn full_rows_mask(&self) -> (mask: u32)
        ensures
            mask == full_rows_mask(self@.board),
    {
        let mut mask = 0u32;
        let mut y: usize = 0;
        while y < 20
            invariant
                y <= 20,
                mask == full_rows_mask_upto(self@.board, y as nat),
            decreases 20 - y,
        {
            if row_full_in(&self.board, y) {
                mask = mask | row_mask(y);
            }
            y = y + 1;
        }
        mask
    }

    fn apply_clear_mask(&mut self, mask: u32)
        requires
            wf(old(self)@),
        ensures
            final(self)@ == spec_apply_clear_mask(old(self)@, mask),
            wf(final(self)@),
    {
        collapse_rows(&mut self.board, mask, 0u8);
        collapse_rows(&mut self.board_ids, mask, 0u16);
        let empty = empty_block_style();
        collapse_rows(&mut self.board_styles, mask, empty);
    }

    /// Removes every full row at once; returns how many were removed.
    pub fn clear_lines(&mut self) -> (cleared: u8)
        requires
            wf(old(self)@),
        ensures
            cleared == popcount(full_rows_mask(old(self)@.board)),
            final(self)@ == if cleared > 0 {
                spec_apply_clear_mask(old(self)@, full_rows_mask(old(self)@.board))
            } else {
                old(self)@
            },
            wf(final(self)@),
    {
        let mask = self.full_rows_mask();
        let cleared = count_rows(mask);
        if cleared > 0 {
            self.apply_clear_mask(mask);
        }
        cleared
    }

    /// Scores `cleared` rows: 40, 100, 300 or 1200 points times the level
    /// plus one; lines go up and the level follows them.
    pub fn add_line_score(&mut self, cleared: u8)
        ensures
            final(self)@ == spec_add_line_score(old(self)@, cleared),
            wf(old(self)@) ==> wf(final(self)@),
    {
        proof {
            reveal(spec_add_line_score);
        }
        let base: u32 = match cleared {
            1 => 40,
            2 => 100,
            3 => 300,
            _ => 1200,
        };
        self.score = self.score.saturating_add(base * (self.level as u32 + 1));
        self.lines = self.lines.saturating_add(cleared as u16);
        let tens = self.lines / 10;
        self.level = if tens < 19 {
            tens as u8
        } else {
            19
        };
        self.touch_hi_score();
    }

    /// Brings in the next piece at the spawn point; the game is over when it
    /// does not fit there.
    pub fn spawn_next(&mut self)
        requires
            wf(old(self)@),
        ensures
            final(self)@ == spec_spawn_next(old(self)@),
            wf(final(self)@),
    {
        proof {
            reveal(spec_spawn_next);
        }
        self.current = self.next;
        self.current.rot = 0;
        self.current_style = self.next_style;
        let kind = self.random_piece();
        self.next = Piece { kind, rot: 0 };
        self.next_style = self.random_style();
        self.x = START_X;
        self.y = START_Y;
        self.reset_lock_state_after_descent();
        if !self.fits(self.current, self.x, self.y) {
            self.mode = Mode::GameOver;
            self.touch_hi_score();
        }
    }

    /// Locks the falling piece into the board.
    pub fn lock_piece(&mut self) -> (sound: SoundEvent)
        requires
            wf(old(self)@),
        ensures
            (final(self)@, sound) == spec_lock_piece(old(self)@),
            wf(final(self)@),
    {
        proof {
            reveal(spec_lock_piece);
        }
        self.reset_lock_state_after_descent();
        self.stamp_current();
        let mask = self.full_rows_mask();
        let cleared = count_rows(mask);
        if cleared > 0 {
            self.clear_mask = mask;
            self.clear_timer = LINE_CLEAR_FRAMES;
            self.add_line_score(cleared);
            SoundEvent::Line(cleared)
        } else {
            self.spawn_next();
            if self.mode == Mode::GameOver {
                SoundEvent::GameOver
            } else {
                SoundEvent::Lock
            }
        }
    }

    fn hard_drop(&mut self) -> (sound: SoundEvent)
        requires
            wf(old(self)@),
        ensures
            (final(self)@, sound) == spec_hard_drop(old(self)@),
            wf(final(self)@),
    {
        proof {
            reveal(spec_hard_drop);
        }
        let ghost s0 = self@;
        let mut dropped = 0u32;
        loop
            invariant
                wf(self@),
                wf(s0),
                s0 == old(self)@,
                self@ == (GameState { y: self@.y, ..s0 }),
                dropped == self@.y - s0.y,
                drop_y(s0.board, s0.current, s0.x as int, s0.y as int) == drop_y(
                    s0.board,
                    s0.current,
                    s0.x as int,
                    self@.y as int,
                ),
            ensures
                wf(self@),
                self@ == (GameState { y: self@.y, ..s0 }),
                dropped == self@.y - s0.y,
                self@.y == drop_y(s0.board, s0.current, s0.x as int, s0.y as int),
            decreases 20 - self@.y,
        {
            let ghost before = self@;
            if !self.try_move(0, 1) {
                break;
            }
            proof {
                lemma_fits_bounds(s0.board, s0.current, s0.x as int, before.y + 1);
            }
            dropped = dropped + 1;
        }
        if dropped > 0 {
            self.score = self.score.saturating_add(dropped * 2);
            self.touch_hi_score();
        }
        self.lock_piece()
    }

    fn update_lock_delay(&mut self) -> (sound: Option<SoundEvent>)
        requires
            wf(old(self)@),
        ensures
            (final(self)@, sound) == spec_update_lock_delay(old(self)@),
            wf(final(self)@),
    {
        proof {
            reveal(spec_update_lock_delay);
        }
        if !self.grounded() {
            self.lock_timer = 0;
            return None;
        }
        self.lock_timer = self.lock_timer.saturating_add(1);
        if self.lock_timer > LOCK_DELAY_FRAMES {
            Some(self.lock_piece())
        } else {
            None
        }
    }

    /// Frames between two gravity steps at the current level.
    pub fn gravity_frames(&self) -> (f: u32)
        ensures
            f == gravity_frames(self@.level),
    {
        let base = 48u32.saturating_sub(self.level as u32 * 3);
        if base > 6 {
            base
        } else {
            6
        }
    }

    fn try_horizontal_move(&mut self, dx: i8) -> (sound: SoundEvent)
        requires
            wf(old(self)@),
            dx == 1 || dx == -1,
        ensures
            (final(self)@, sound) == spec_try_horizontal_move(old(self)@, dx as int),
            wf(final(self)@),
    {
        let was_grounded = self.grounded();
        if self.try_move(dx, 0) {
            self.reset_lock_delay_after_action(was_grounded);
            SoundEvent::Move
        } else {
            SoundEvent::Silent
        }
    }

    fn update_horizontal_movement(&mut self, input: u8, pressed: u8) -> (sound: SoundEvent)
        requires
            wf(old(self)@),
        ensures
            (final(self)@, sound) == spec_update_horizontal_movement(old(self)@, input, pressed),
            wf(final(self)@),
    {
        proof {
            reveal(spec_update_horizontal_movement);
        }
        let left = input & BTN_LEFT != 0;
        let right = input & BTN_RIGHT != 0;
        let was_overlapping = self.last_input & BTN_LEFT != 0 && self.last_input & BTN_RIGHT != 0;
        if left == right {
            self.left_hold_frames = 0;
            self.right_hold_frames = 0;
            return SoundEvent::Silent;
        }
        if left {
            self.right_hold_frames = 0;
            if pressed & BTN_LEFT != 0 || was_overlapping {
                self.left_hold_frames = 0;
                return self.try_horizontal_move(-1);
            }
            self.left_hold_frames = self.left_hold_frames.saturating_add(1);
            if should_repeat_horizontal(self.left_hold_frames) {
                return self.try_horizontal_move(-1);
            }
        } else {
            self.left_hold_frames = 0;
            if pressed & BTN_RIGHT != 0 || was_overlapping {
                self.right_hold_frames = 0;
                return self.try_horizontal_move(1);
            }
            self.right_hold_frames = self.right_hold_frames.saturating_add(1);
            if should_repeat_horizontal(self.right_hold_frames) {
                return self.try_horizontal_move(1);
            }
        }
        SoundEvent::Silent
    }

    fn buffer_input(&mut self, pressed: u8)
        ensures
            final(self)@ == spec_buffer_input(old(self)@, pressed),
    {
        let input = pressed & BUFFERABLE_INPUT;
        if input != 0 {
            self.buffered_input |= input;
            self.input_buffer_timer = INPUT_BUFFER_FRAMES;
        }
    }

    fn apply_buffered_input(&mut self)
        requires
            wf(old(self)@),
        ensures
            final(self)@ == spec_apply_buffered_input(old(self)@),
            wf(final(self)@),
    {
        proof {
            reveal(spec_apply_buffered_input);
        }
        if self.input_buffer_timer == 0 || self.mode != Mode::Playing {
            return;
        }
        let input = self.buffered_input;
        self.buffered_input = 0;
        self.input_buffer_timer = 0;
        if input & BTN_1 != 0 {
            self.try_rotate(1);
        } else if input & BTN_2 != 0 {
            self.try_rotate(-1);
        }
        if input & BTN_LEFT != 0 && input & BTN_RIGHT == 0 {
            self.try_move(-1, 0);
        } else if input & BTN_RIGHT != 0 && input & BTN_LEFT == 0 {
            self.try_move(1, 0);
        }
    }

    fn age_input_buffer(&mut self)
        ensures
            final(self)@ == spec_age_input_buffer(old(self)@),
    {
        if self.input_buffer_timer == 0 {
            return;
        }
        self.input_buffer_timer -= 1;
        if self.input_buffer_timer == 0 {
            self.buffered_input = 0;
        }
    }

    fn tick_soft_drop_sound_timer(&mut self)
        ensures
            final(self)@ == spec_tick_soft_drop_sound_timer(old(self)@),
    {
        if self.soft_drop_sound_timer > 0 {
            self.soft_drop_sound_timer -= 1;
        }
    }

    fn demo_placement_score(&self, piece: Piece, piece_x: i8, piece_y: i8) -> (score: i32)
        requires
            valid_piece(piece),
            -20 <= piece_x <= 20,
            -20 <= piece_y <= 20,
        ensures
            score == placement_score(self@.board, piece, piece_x as int, piece_y as int),
    {
        let mut board = self.board;
        let cells = shape_cells(piece);
        stamp_array(&mut board, &cells, piece, piece_x, piece_y, piece.kind + 1);
        board_score_of(&board)
    }

    /// The demo's rating of dropping `piece` from the spawn row in column `x`,
    /// when it fits there.
    fn rate_placement(&self, piece: Piece, x: i8) -> (rating: Option<i32>)
        requires
            wf(self@),
            valid_piece(piece),
            -3 <= x <= 9,
        ensures
            rating is Some == fits(self@.board, piece, x as int, 0),
            rating matches Some(score) ==> score == placement_score(
                self@.board,
                piece,
                x as int,
                drop_y(self@.board, piece, x as int, 0),
            ),
            rating matches Some(score) ==> score > i32::MIN,
    {
        if !self.fits(piece, x, START_Y) {
            return None;
        }
        let ghost board = self@.board;
        let mut y = START_Y;
        loop
            invariant
                wf(self@),
                board == self@.board,
                valid_piece(piece),
                -3 <= x <= 9,
                0 <= y <= 19,
                drop_y(board, piece, x as int, 0) == drop_y(board, piece, x as int, y as int),
            ensures
                0 <= y <= 19,
                y == drop_y(board, piece, x as int, 0),
            decreases 20 - y,
        {
            if !self.fits(piece, x, y + 1) {
                break;
            }
            proof {
                lemma_fits_bounds(board, piece, x as int, y + 1);
            }
            y = y + 1;
        }
        let score = self.demo_placement_score(piece, x, y);
        proof {
            lemma_placement_score_bounds(board, piece, x as int, y as int);
        }
        Some(score)
    }

    /// Aims the title-screen demo at the placement it rates best for the
    /// falling piece.
    pub fn set_demo_target(&mut self)
        requires
            wf(old(self)@),
        ensures
            final(self)@ == spec_set_demo_target(old(self)@),
            wf(final(self)@),
            (exists|r: int, x: int| candidate(old(self)@.board, old(self)@.current.kind, r, x))
                ==> best_target(
                old(self)@.board,
                old(self)@.current.kind,
                final(self)@.demo_target_rot as int,
                final(self)@.demo_target_x as int,
            ),
            !(exists|r: int, x: int| candidate(old(self)@.board, old(self)@.current.kind, r, x))
                ==> final(self)@.demo_target_x == 3 && final(self)@.demo_target_rot == 0,
    {
        let ghost s0 = self@;
        let ghost board = s0.board;
        let kind = self.current.kind;
        let mut best_score = i32::MIN;
        let mut best_x = START_X;
        let mut best_rot = 0u8;
        let ghost mut found = false;
        let mut rot: u8 = 0;
        while rot < 4
            invariant
                rot <= 4,
                self@ == s0,
                wf(s0),
                board == s0.board,
                kind == s0.current.kind,
                !found ==> best_score == i32::MIN && best_x == 3 && best_rot == 0,
                !found ==> forall|r2: int, x2: int|
                    #[trigger] candidate(board, kind, r2, x2) ==> !(r2 < rot),
                found ==> candidate(board, kind, best_rot as int, best_x as int),
                found ==> best_rot < rot,
                found ==> best_score == candidate_score(board, kind, best_rot as int, best_x as int),
                found ==> forall|r2: int, x2: int|
                    #[trigger] candidate(board, kind, r2, x2) && r2 < rot ==> candidate_score(
                        board,
                        kind,
                        r2,
                        x2,
                    ) <= best_score && (earlier(r2, x2, best_rot as int, best_x as int)
                        ==> candidate_score(board, kind, r2, x2) < best_score),
            decreases 4 - rot,
        {
            let piece = Piece { kind, rot };
            let (min_target, max_target) = target_range(piece);
            proof {
                lemma_target_range(piece);
            }
            let mut x = min_target;
            while x <= max_target
                invariant
                    rot < 4,
                    self@ == s0,
                    wf(s0),
                    board == s0.board,
                    kind == s0.current.kind,
                    piece == (Piece { kind, rot }),
                    min_target == target_lo(piece),
                    max_target == target_hi(piece),
                    -3 <= min_target <= x <= max_target + 1,
                    max_target <= 9,
                    !found ==> best_score == i32::MIN && best_x == 3 && best_rot == 0,
                    !found ==> forall|r2: int, x2: int|
                        #[trigger] candidate(board, kind, r2, x2) ==> !earlier(
                            r2,
                            x2,
                            rot as int,
                            x as int,
                        ),
                    found ==> candidate(board, kind, best_rot as int, best_x as int),
                    found ==> earlier(best_rot as int, best_x as int, rot as int, x as int),
                    found ==> best_score == candidate_score(
                        board,
                        kind,
                        best_rot as int,
                        best_x as int,
                    ),
                    found ==> forall|r2: int, x2: int|
                        #[trigger] candidate(board, kind, r2, x2) && earlier(
                            r2,
                            x2,
                            rot as int,
                            x as int,
                        ) ==> candidate_score(board, kind, r2, x2) <= best_score && (earlier(
                            r2,
                            x2,
                            best_rot as int,
                            best_x as int,
                        ) ==> candidate_score(board, kind, r2, x2) < best_score),
                decreases max_target + 1 - x,
            {
                let rating = self.rate_placement(piece, x);
                let ghost old_best = (best_score, best_x, best_rot, found);
                proof {
                    assert(rating is Some == candidate(board, kind, rot as int, x as int));
                    if rating is Some {
                        assert(rating->0 == candidate_score(board, kind, rot as int, x as int));
                    }
                }
                if let Some(score) = rating {
                    if score > best_score {
                        best_score = score;
                        best_x = x;
                        best_rot = rot;
                        proof {
                            found = true;
                        }
                    }
                }
                proof {
                    let nx = x + 1;
                    if !found {
                        assert forall|r2: int, x2: int| #[trigger] candidate(board, kind, r2, x2)
                            implies !earlier(r2, x2, rot as int, nx) by {
                            if r2 == rot && x2 == x {
                            } else {
                                assert(!earlier(r2, x2, rot as int, x as int));
                            }
                        }
                    } else {
                        assert forall|r2: int, x2: int| #[trigger] candidate(board, kind, r2, x2)
                            && earlier(r2, x2, rot as int, nx) implies candidate_score(
                            board,
                            kind,
                            r2,
                            x2,
                        ) <= best_score && (earlier(r2, x2, best_rot as int, best_x as int)
                            ==> candidate_score(board, kind, r2, x2) < best_score) by {
                            if r2 == rot && x2 == x {
                            } else {
                                assert(earlier(r2, x2, rot as int, x as int));
                                if old_best.3 {
                                    assert(candidate_score(board, kind, r2, x2) <= old_best.0);
                                }
                            }
                        }
                    }
                }
                x = x + 1;
            }
            rot = rot + 1;
        }
        proof {
            if found {
                assert(best_target(board, kind, best_rot as int, best_x as int));
                lemma_demo_target_is(board, kind, best_rot as int, best_x as int);
            } else {
                assert forall|r: int, x: int| !candidate(board, kind, r, x) by {
                    if candidate(board, kind, r, x) {
                        assert(!(r < 4));
                    }
                }
                assert forall|r: int, x: int| !best_target(board, kind, r, x) by {
                    assert(!candidate(board, kind, r, x));
                }
            }
        }
        self.demo_target_x = best_x;
        self.demo_target_rot = best_rot;
    }

    fn lock_demo_piece(&mut self)
        requires
            wf(old(self)@),
        ensures
            final(self)@ == spec_lock_demo_piece(old(self)@),
            wf(final(self)@),
    {
        proof {
            reveal(spec_lock_demo_piece);
        }
        self.stamp_current();
        let mask = self.full_rows_mask();
        if mask != 0 {
            self.clear_mask = mask;
            self.clear_timer = LINE_CLEAR_FRAMES;
        } else {
            self.spawn_demo_next();
        }
    }

    fn spawn_demo_next(&mut self)
        requires
            wf(old(self)@),
        ensures
            final(self)@ == spec_spawn_demo_next(old(self)@),
            wf(final(self)@),
    {
        proof {
            reveal(spec_spawn_demo_next);
        }
        self.current = self.next;
        self.current.rot = 0;
        self.current_style = self.next_style;
        let kind = self.random_piece();
        self.next = Piece { kind, rot: 0 };
        self.next_style = self.random_style();
        self.x = START_X;
        self.y = START_Y;
        self.reset_lock_state_after_descent();
        self.set_demo_target();
        if !self.fits(self.current, self.x, self.y) {
            self.reset_cpu_demo();
        }
    }

    fn clear_board(&mut self)
        ensures
            final(self)@ == (GameState {
                board: empty_board(),
                ids: empty_ids(),
                styles: empty_styles(),
                ..old(self)@
            }),
    {
        self.board = [0u8; BOARD_CELLS];
        self.board_ids = [0u16; BOARD_CELLS];
        let empty = empty_block_style();
        self.board_styles = [empty; BOARD_CELLS];
        assert(self.board@ =~= empty_board());
        assert(self.board_ids@ =~= empty_ids());
        assert(self.board_styles@ =~= empty_styles());
    }

    fn reset_cpu_demo(&mut self)
        requires
            wf(old(self)@),
        ensures
            final(self)@ == spec_reset_cpu_demo(old(self)@),
            wf(final(self)@),
    {
        proof {
            reveal(spec_reset_cpu_demo);
        }
        self.clear_board();
        self.clear_mask = 0;
        self.clear_timer = 0;
        let kind = self.random_piece();
        self.current = Piece { kind, rot: 0 };
        self.current_style = self.random_style();
        let kind = self.random_piece();
        self.next = Piece { kind, rot: 0 };
        self.next_style = self.random_style();
        self.x = START_X;
        self.y = START_Y;
        self.reset_timing_state();
        self.set_demo_target();
    }

    fn update_cpu_demo(&mut self)
        requires
            wf(old(self)@),
        ensures
            final(self)@ == spec_update_cpu_demo(old(self)@),
            wf(final(self)@),
    {
        proof {
            reveal(spec_update_cpu_demo);
        }
        if self.clear_timer > 0 {
            self.clear_timer -= 1;
            if self.clear_timer == 0 {
                self.apply_clear_mask(self.clear_mask);
                self.clear_mask = 0;
                self.spawn_demo_next();
            }
            return;
        }
        if self.current.rot != self.demo_target_rot {
            if !self.try_rotate(1) {
                self.demo_target_rot = self.current.rot;
            }
            return;
        }
        if self.x < self.demo_target_x {
            if self.try_move(1, 0) {
                return;
            }
            self.demo_target_x = self.x;
        } else if self.x > self.demo_target_x {
            if self.try_move(-1, 0) {
                return;
            }
            self.demo_target_x = self.x;
        }
        if self.frame % 3 == 0 {
            if !self.try_move(0, 1) {
                self.lock_demo_piece();
            }
        }
    }

    fn start_game(&mut self)
        requires
            wf(old(self)@),
        ensures
            final(self)@ == spec_start_game(old(self)@),
            wf(final(self)@),
    {
        proof {
            reveal(spec_start_game);
        }
        self.clear_board();
        self.next_piece_id = 1;
        self.clear_mask = 0;
        self.clear_timer = 0;
        self.score = 0;
        self.lines = 0;
        self.level = 0;
        let kind = self.random_piece();
        self.current = Piece { kind, rot: 0 };
        self.current_style = self.random_style();
        let kind = self.random_piece();
        self.next = Piece { kind, rot: 0 };
        self.next_style = self.random_style();
        self.x = START_X;
        self.y = START_Y;
        self.demo_target_x = START_X;
        self.demo_target_rot = 0;
        self.mode = Mode::Playing;
        self.last_input = 0;
        self.reset_timing_state();
    }

    fn update_clearing(&mut self, pressed: u8) -> (sound: SoundEvent)
        requires
            wf(old(self)@),
            old(self)@.clear_timer > 0,
        ensures
            (final(self)@, sound) == spec_update_clearing(old(self)@, pressed),
            wf(final(self)@),
    {
        proof {
            reveal(spec_update_clearing);
        }
        self.buffer_input(pressed);
        self.clear_timer -= 1;
        if self.clear_timer == 0 {
            self.apply_clear_mask(self.clear_mask);
            self.clear_mask = 0;
            self.spawn_next();
            if self.mode == Mode::GameOver {
                return SoundEvent::GameOver;
            }
            self.apply_buffered_input();
        }
        SoundEvent::Silent
    }

    fn soft_drop(&mut self, input: u8, sound: SoundEvent) -> (result: SoundEvent)
        requires
            wf(old(self)@),
        ensures
            (final(self)@, result) == spec_soft_drop(old(self)@, input, sound),
            wf(final(self)@),
    {
        proof {
            reveal(spec_soft_drop);
        }
        let mut sound = sound;
        if input & BTN_DOWN != 0 && self.frame % SOFT_DROP_FRAMES == 0 {
            if self.try_move(0, 1) {
                self.reset_lock_state_after_descent();
                self.score = self.score.saturating_add(1);
                self.touch_hi_score();
                if self.soft_drop_sound_timer == 0 {
                    self.soft_drop_sound_timer = SOFT_DROP_SOUND_FRAMES;
                    sound = SoundEvent::SoftDrop;
                }
            }
        }
        sound
    }

    fn apply_gravity(&mut self)
        requires
            wf(old(self)@),
        ensures
            final(self)@ == spec_gravity(old(self)@),
            wf(final(self)@),
    {
        proof {
            reveal(spec_gravity);
        }
        if self.frame % self.gravity_frames() == 0 {
            if self.try_move(0, 1) {
                self.reset_lock_state_after_descent();
            }
        }
    }

    fn update_playing(&mut self, input: u8, pressed: u8) -> (sound: SoundEvent)
        requires
            wf(old(self)@),
        ensures
            (final(self)@, sound) == spec_update_playing(old(self)@, input, pressed),
            wf(final(self)@),
    {
        proof {
            reveal(spec_update_playing);
        }
        if self.clear_timer > 0 {
            return self.update_clearing(pressed);
        }

        let mut sound = self.update_horizontal_movement(input, pressed);

        if pressed & BTN_1 != 0 {
            if self.try_rotate(1) {
                sound = SoundEvent::Rotate;
            }
        }

        if pressed & BTN_2 != 0 {
            if self.try_rotate(-1) {
                sound = SoundEvent::Rotate;
            }
        }

        if pressed & BTN_UP != 0 {
            return self.hard_drop();
        }

        sound = self.soft_drop(input, sound);
        self.apply_gravity();

        if let Some(lock_sound) = self.update_lock_delay() {
            lock_sound
        } else {
            sound
        }
    }

    /// Runs one frame with the buttons held in `input`.
    pub fn tick(&mut self, input: u8) -> (result: TickResult)
        requires
            wf(old(self)@),
        ensures
            (final(self)@, result.sound) == spec_tick(old(self)@, input),
            wf(final(self)@),
    {
        proof {
            reveal(spec_tick);
        }
        self.frame = self.frame.wrapping_add(1);
        let pressed = input & !self.last_input;
        let mut sound = SoundEvent::Silent;

        match self.mode {
            Mode::Title => {
                if pressed & START_BUTTONS != 0 {
                    self.start_game();
                    sound = SoundEvent::Start;
                } else {
                    self.update_cpu_demo();
                }
            },
            Mode::GameOver => {
                if pressed & START_BUTTONS != 0 {
                    self.start_game();
                    sound = SoundEvent::Start;
                }
            },
            Mode::Playing => {
                sound = self.update_playing(input, pressed);
            },
        }

        self.last_input = input;
        self.age_input_buffer();
        self.tick_soft_drop_sound_timer();
        TickResult { sound }
    }

    /// A new game on the title screen, remembering `hi_score`.
    pub fn new(hi_score: u32) -> (game: Self)
        ensures
            game@ == spec_new(hi_score),
            wf(game@),
    {
        let empty = empty_block_style();
        let mut game = Self {
            board: [0u8; BOARD_CELLS],
            board_ids: [0u16; BOARD_CELLS],
            board_styles: [empty; BOARD_CELLS],
            current: Piece { kind: 0, rot: 0 },
            next: Piece { kind: 1, rot: 0 },
            current_style: empty,
            next_style: empty,
            x: START_X,
            y: START_Y,
            demo_target_x: START_X,
            demo_target_rot: 0,
            rng: 0x51_4c_30_31,
            next_piece_id: 1,
            clear_mask: 0,
            clear_timer: 0,
            frame: 0,
            last_input: 0,
            left_hold_frames: 0,
            right_hold_frames: 0,
            lock_timer: 0,
            lock_resets: 0,
            buffered_input: 0,
            input_buffer_timer: 0,
            soft_drop_sound_timer: 0,
            score: 0,
            lines: 0,
            level: 0,
            hi_score,
            mode: Mode::Title,
            save_requested: false,
        };
        assert(game.board@ =~= empty_board());
        assert(game.board_ids@ =~= empty_ids());
        assert(game.board_styles@ =~= empty_styles());
        game.current.kind = game.random_piece();
        game.current_style = game.random_style();
        game.next.kind = game.random_piece();
        game.next_style = game.random_style();
        game.set_demo_target();
        game
    }

    /// Column and rotation the title-screen demo steers towards.
    pub fn demo_target(&self) -> (t: (i8, u8))
        ensures
            t == (self@.demo_target_x, self@.demo_target_rot),
    {
        (self.demo_target_x, self.demo_target_rot)
    }

    /// The rows of the running line-clear animation, as a mask.
    pub fn clear_mask(&self) -> (m: u32)
        ensures
            m == self@.clear_mask,
    {
        self.clear_mask
    }

    /// Replaces the falling piece.
    pub fn set_current(&mut self, piece: Piece)
        requires
            valid_piece(piece),
        ensures
            final(self)@ == (GameState { current: piece, ..old(self)@ }),
    {
        self.current = piece;
    }

    /// Replaces the next piece.
    pub fn set_next(&mut self, piece: Piece)
        requires
            valid_piece(piece),
        ensures
            final(self)@ == (GameState { next: piece, ..old(self)@ }),
    {
        self.next = piece;
    }

    /// Replaces the style of the falling piece.
    pub fn set_current_style(&mut self, style: BlockStyle)
        ensures
            final(self)@ == (GameState { current_style: style, ..old(self)@ }),
    {
        self.current_style = style;
    }

    /// Moves the falling piece's box to column `x`, row `y`.
    pub fn set_position(&mut self, x: i8, y: i8)
        requires
            -20 <= x <= 20,
            -20 <= y <= 20,
        ensures
            final(self)@ == (GameState { x, y, ..old(self)@ }),
    {
        self.x = x;
        self.y = y;
    }

    /// Sets the frame counter.
    pub fn set_frame(&mut self, frame: u32)
        ensures
            final(self)@ == (GameState { frame, ..old(self)@ }),
    {
        self.frame = frame;
    }

    /// Writes a block (0 for empty) into column `x`, row `y`.
    pub fn set_cell(&mut self, x: usize, y: usize, value: u8)
        requires
            x < 10,
            y < 20,
        ensures
            final(self)@ == (GameState {
                board: old(self)@.board.update(y * 10 + x, value),
                ..old(self)@
            }),
    {
        self.board[y * 10 + x] = value;
    }

    /// Writes the piece id of column `x`, row `y`.
    pub fn set_cell_id(&mut self, x: usize, y: usize, id: u16)
        requires
            x < 10,
            y < 20,
        ensures
            final(self)@ == (GameState { ids: old(self)@.ids.update(y * 10 + x, id), ..old(self)@ }),
    {
        self.board_ids[y * 10 + x] = id;
    }

    /// Writes the style of column `x`, row `y`.
    pub fn set_cell_style(&mut self, x: usize, y: usize, style: BlockStyle)
        requires
            x < 10,
            y < 20,
        ensures
            final(self)@ == (GameState {
                styles: old(self)@.styles.update(y * 10 + x, style),
                ..old(self)@
            }),
    {
        self.board_styles[y * 10 + x] = style;
    }
}

/// A held direction repeats once the auto-shift delay has passed, then every
/// auto-repeat period.
pub fn should_repeat_horizontal(held_frames: u8) -> (r: bool)
    ensures
        r == repeats_at(held_frames),
{
    held_frames >= DAS_FRAMES && (held_frames - DAS_FRAMES) % ARR_FRAMES == 0
}

} // verus!
