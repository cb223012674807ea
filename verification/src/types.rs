use vstd::prelude::*;

verus! {

/// Number of columns on the board.
pub const BOARD_WIDTH: usize = 10;

/// Number of rows on the board.
pub const BOARD_HEIGHT: usize = 20;

/// Number of cells on the board, stored row by row.
pub const BOARD_CELLS: usize = BOARD_WIDTH * BOARD_HEIGHT;

/// Frames that a line-clear animation lasts.
pub const LINE_CLEAR_FRAMES: u8 = 14;

/// Gamepad bit of button 1 (X): rotate clockwise, or start.
pub const BTN_1: u8 = 1;

/// Gamepad bit of button 2 (Z): rotate counter-clockwise, or start.
pub const BTN_2: u8 = 2;

/// Gamepad bit of the left arrow.
pub const BTN_LEFT: u8 = 16;

/// Gamepad bit of the right arrow.
pub const BTN_RIGHT: u8 = 32;

/// Gamepad bit of the up arrow (hard drop).
pub const BTN_UP: u8 = 64;

/// Gamepad bit of the down arrow (soft drop).
pub const BTN_DOWN: u8 = 128;

/// Column where a new piece appears.
pub const START_X: i8 = 3;

/// Row where a new piece appears.
pub const START_Y: i8 = 0;

/// Frames a horizontal direction is held before auto-repeat begins.
pub const DAS_FRAMES: u8 = 12;

/// Frames between two auto-repeated horizontal moves.
pub const ARR_FRAMES: u8 = 4;

/// Frames a grounded piece waits before it locks.
pub const LOCK_DELAY_FRAMES: u8 = 20;

/// How often moving or rotating a grounded piece may restart its lock delay.
pub const LOCK_RESET_LIMIT: u8 = 15;

/// Frames a press made during a line clear stays buffered.
pub const INPUT_BUFFER_FRAMES: u8 = 18;

/// Soft drop moves the piece on every frame that is a multiple of this.
pub const SOFT_DROP_FRAMES: u32 = 2;

/// Frames between two soft-drop sounds.
pub const SOFT_DROP_SOUND_FRAMES: u8 = 5;

/// Buttons that start a game from the title or game-over screen: a fresh
/// press of X, Z or the up arrow.
pub const START_BUTTONS: u8 = BTN_1 | BTN_2 | BTN_UP;

/// Buttons that a line clear buffers: left, right, and the two rotations.
pub const BUFFERABLE_INPUT: u8 = BTN_LEFT | BTN_RIGHT | BTN_1 | BTN_2;

/// What the game is showing.
#[derive(Clone, Copy, Debug, PartialEq, Eq, Structural)]
pub enum Mode {
    Title,
    Playing,
    GameOver,
}

/// The sound cue a frame asks for.
#[derive(Clone, Copy, Debug, PartialEq, Eq, Structural)]
pub enum SoundEvent {
    /// No cue this frame.
    Silent,
    Start,
    Move,
    Rotate,
    SoftDrop,
    Lock,
    Line(u8),
    GameOver,
}

/// What one frame of the game reports back.
#[derive(Clone, Copy, Debug, PartialEq, Eq, Structural)]
pub struct TickResult {
    pub sound: SoundEvent,
}

/// A tetromino: its kind (0..7) and rotation (0..4).
#[derive(Clone, Copy, Debug, PartialEq, Eq, Structural)]
pub struct Piece {
    pub kind: u8,
    pub rot: u8,
}

/// The fill pattern a block is drawn with.
#[derive(Clone, Copy, Debug, PartialEq, Eq, Structural)]
pub enum BlockPattern {
    Solid,
    InnerFrame,
    Dither,
}

/// How a block looks: a palette color and a fill pattern.
#[derive(Clone, Copy, Debug, PartialEq, Eq, Structural)]
pub struct BlockStyle {
    pub color: u8,
    pub pattern: BlockPattern,
}

/// The style of an empty cell.
pub open spec fn empty_style() -> BlockStyle {
    BlockStyle { color: 0, pattern: BlockPattern::Solid }
}

/// Builds the style of an empty cell.
pub fn empty_block_style() -> (s: BlockStyle)
    ensures
        s == empty_style(),
{
    BlockStyle { color: 0, pattern: BlockPattern::Solid }
}

} // verus!
