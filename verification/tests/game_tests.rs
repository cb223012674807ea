use stackline::game::Game;
use stackline::types::{
    BlockPattern, BlockStyle, Mode, Piece, SoundEvent, BOARD_HEIGHT, BOARD_WIDTH, BTN_1,
    BTN_LEFT, BTN_RIGHT, BTN_UP, LINE_CLEAR_FRAMES, LOCK_DELAY_FRAMES, LOCK_RESET_LIMIT,
    START_X, START_Y,
};

const EMPTY_STYLE: BlockStyle = BlockStyle {
    color: 0,
    pattern: BlockPattern::Solid,
};

fn playing_game() -> Game {
    let mut game = Game::new(0);
    game.tick(BTN_1);
    game.tick(0);
    game
}

fn board_has_block(game: &Game) -> bool {
    for y in 0..BOARD_HEIGHT {
        for x in 0..BOARD_WIDTH {
            if game.cell(x, y) != 0 {
                return true;
            }
        }
    }
    false
}

fn board_styles_all_empty(game: &Game) -> bool {
    for y in 0..BOARD_HEIGHT {
        for x in 0..BOARD_WIDTH {
            if game.cell_style(x, y) != EMPTY_STYLE {
                return false;
            }
        }
    }
    true
}

#[test]
fn title_screen_requires_start_input() {
    let mut game = Game::new(0);

    for _ in 0..120 {
        game.tick(0);
    }

    assert_eq!(game.mode(), Mode::Title);
    game.tick(BTN_1);
    assert_eq!(game.mode(), Mode::Playing);
}

#[test]
fn title_screen_runs_cpu_demo_without_starting_game() {
    let mut game = Game::new(0);

    for _ in 0..240 {
        game.tick(0);
    }

    assert_eq!(game.mode(), Mode::Title);
    assert_eq!(game.score(), 0);
    assert!(board_has_block(&game));
}

#[test]
fn starting_game_clears_cpu_demo_board() {
    let mut game = Game::new(0);
    for _ in 0..240 {
        game.tick(0);
    }
    assert!(board_has_block(&game));

    game.tick(BTN_1);

    assert_eq!(game.mode(), Mode::Playing);
    assert!(!board_has_block(&game));
    assert!(board_styles_all_empty(&game));
}

#[test]
fn cpu_demo_prefers_line_clear_placement() {
    let mut game = Game::new(0);
    game.set_current(Piece { kind: 0, rot: 0 });
    game.set_position(START_X, START_Y);
    for x in 0..BOARD_WIDTH {
        if !(3..=6).contains(&x) {
            game.set_cell(x, 19, 1);
        }
    }

    game.set_demo_target();

    assert_eq!(game.demo_target().1, 0);
    assert_eq!(game.demo_target().0, 3);
}

#[test]
fn rotation_kicks_piece_away_from_left_wall() {
    let mut game = playing_game();
    game.set_current(Piece { kind: 0, rot: 1 });
    game.set_position(-1, 0);

    let result = game.tick(BTN_1);

    assert_eq!(result.sound, SoundEvent::Rotate);
    assert!(game.position().0 >= 0);
}

#[test]
fn held_horizontal_movement_waits_for_das_before_repeating() {
    let mut game = playing_game();
    game.set_current(Piece { kind: 1, rot: 0 });
    game.set_position(4, 0);

    game.tick(BTN_LEFT);
    assert_eq!(game.position().0, 3);

    for _ in 0..11 {
        game.tick(BTN_LEFT);
    }
    assert_eq!(game.position().0, 3);

    game.tick(BTN_LEFT);
    assert_eq!(game.position().0, 2);
}

#[test]
fn releasing_one_of_two_horizontal_inputs_moves_remaining_direction() {
    let mut game = playing_game();
    game.set_current(Piece { kind: 1, rot: 0 });
    game.set_position(4, 0);

    game.tick(BTN_LEFT);
    assert_eq!(game.position().0, 3);

    game.tick(BTN_LEFT | BTN_RIGHT);
    assert_eq!(game.position().0, 3);

    game.tick(BTN_RIGHT);
    assert_eq!(game.position().0, 4);
}

#[test]
fn buffered_rotation_applies_after_line_clear_animation() {
    let mut game = playing_game();
    game.set_current(Piece { kind: 0, rot: 0 });
    game.set_next(Piece { kind: 2, rot: 0 });
    game.set_position(3, 18);

    for x in 0..BOARD_WIDTH {
        if !(3..=6).contains(&x) {
            game.set_cell(x, 19, 2);
        }
    }

    assert_eq!(game.lock_piece(), SoundEvent::Line(1));
    game.tick(BTN_1);
    game.tick(0);
    game.tick(BTN_LEFT);
    game.tick(0);
    while game.is_clearing() {
        game.tick(0);
    }

    assert_eq!(game.current().kind, 2);
    assert_eq!(game.current().rot, 1);
    assert_eq!(game.position().0, START_X - 1);
}

#[test]
fn grounded_piece_uses_lock_delay_before_locking() {
    let mut game = playing_game();
    game.set_current(Piece { kind: 1, rot: 0 });
    game.set_position(4, 18);
    let frame = game.gravity_frames() - 1;
    game.set_frame(frame);

    let result = game.tick(0);

    assert_eq!(result.sound, SoundEvent::Silent);
    assert_eq!(game.current().kind, 1);
    assert!(!board_has_block(&game));

    for _ in 0..20 {
        game.tick(0);
    }

    assert!(board_has_block(&game));
}

#[test]
fn grounded_lock_delay_resets_are_limited() {
    let mut game = playing_game();
    game.set_current(Piece { kind: 1, rot: 0 });
    game.set_position(4, 18);
    let frame = game.gravity_frames() - 1;
    game.set_frame(frame);

    game.tick(0);

    for turn in 0..usize::from(LOCK_RESET_LIMIT) + usize::from(LOCK_DELAY_FRAMES) + 8 {
        let input = if turn % 2 == 0 { BTN_LEFT } else { BTN_RIGHT };
        game.tick(input);
        game.tick(0);
        if board_has_block(&game) {
            break;
        }
    }

    assert!(board_has_block(&game));
}

#[test]
fn up_input_hard_drops_and_locks_the_piece() {
    let mut game = playing_game();
    game.set_current(Piece { kind: 1, rot: 0 });
    game.set_position(4, 0);

    let result = game.tick(BTN_UP);

    assert_eq!(result.sound, SoundEvent::Lock);
    assert_eq!(game.cell(5, 18), 2);
    assert_eq!(game.cell(6, 19), 2);
    assert_eq!(game.score(), 36);
}

#[test]
fn clearing_four_lines_scores_like_classic_tetris() {
    let mut game = playing_game();
    for y in 16..20 {
        for x in 0..BOARD_WIDTH {
            game.set_cell(x, y, 2);
        }
    }

    let cleared = game.clear_lines();
    game.add_line_score(cleared);

    assert_eq!(cleared, 4);
    assert_eq!(game.lines(), 4);
    assert_eq!(game.score(), 1200);
    assert_eq!(game.hi_score(), 1200);
    assert!(game.take_save_request());
}

#[test]
fn line_clear_waits_for_animation_before_shifting_board() {
    let mut game = playing_game();
    game.set_current(Piece { kind: 0, rot: 0 });
    game.set_position(3, 18);

    for x in 0..BOARD_WIDTH {
        if !(3..=6).contains(&x) {
            game.set_cell(x, 19, 2);
            game.set_cell_id(x, 19, 8);
        }
    }

    let sound = game.lock_piece();

    assert_eq!(sound, SoundEvent::Line(1));
    assert!(game.is_clearing());
    assert!(game.row_full(19));
    assert_eq!(game.lines(), 1);
    assert_eq!(game.score(), 40);

    for _ in 0..LINE_CLEAR_FRAMES - 1 {
        game.tick(0);
    }
    assert!(game.is_clearing());
    assert!(game.row_full(19));

    game.tick(0);

    assert!(!game.is_clearing());
    assert_eq!(game.clear_mask(), 0);
    assert!(!game.row_full(19));
}

#[test]
fn locked_cells_keep_the_current_piece_visual_style() {
    let mut game = playing_game();
    game.set_current(Piece { kind: 1, rot: 0 });
    let style = BlockStyle {
        color: 4,
        pattern: BlockPattern::InnerFrame,
    };
    game.set_current_style(style);
    game.set_position(3, 16);

    let sound = game.lock_piece();

    assert_eq!(sound, SoundEvent::Lock);
    for (cx, cy) in Game::piece_cells(Piece { kind: 1, rot: 0 }) {
        let x = (3 + cx) as usize;
        let y = (16 + cy) as usize;
        assert_eq!(game.cell_style(x, y), style);
    }
}

#[test]
fn line_clear_shifts_visual_style_with_surviving_cells() {
    let mut game = playing_game();
    let survivor_style = BlockStyle {
        color: 3,
        pattern: BlockPattern::Dither,
    };
    game.set_cell(2, 18, 1);
    game.set_cell_id(2, 18, 12);
    game.set_cell_style(2, 18, survivor_style);
    for x in 0..BOARD_WIDTH {
        game.set_cell(x, 19, 2);
        game.set_cell_id(x, 19, 8);
        game.set_cell_style(
            x,
            19,
            BlockStyle {
                color: 4,
                pattern: BlockPattern::InnerFrame,
            },
        );
    }

    let cleared = game.clear_lines();

    assert_eq!(cleared, 1);
    assert_eq!(game.cell(2, 19), 1);
    assert_eq!(game.cell_id(2, 19), 12);
    assert_eq!(game.cell_style(2, 19), survivor_style);
    assert_eq!(game.cell_style(2, 18).color, 0);
}

#[test]
fn random_styles_keep_only_readable_pattern_variants() {
    let mut game = playing_game();
    let mut seen_solid = false;
    let mut seen_inner_frame = false;
    let mut seen_dither = false;

    for _ in 0..64 {
        match game.random_style().pattern {
            BlockPattern::Solid => seen_solid = true,
            BlockPattern::InnerFrame => seen_inner_frame = true,
            BlockPattern::Dither => seen_dither = true,
        }
    }

    assert!(seen_solid);
    assert!(seen_inner_frame);
    assert!(seen_dither);
}

#[test]
fn game_over_when_spawn_area_is_blocked() {
    let mut game = playing_game();
    for x in 3..7 {
        game.set_cell(x, 0, 1);
    }

    game.spawn_next();

    assert_eq!(game.mode(), Mode::GameOver);
}
