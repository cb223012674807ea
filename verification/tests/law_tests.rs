use stackline::game::{should_repeat_horizontal, Game};
use stackline::save::{decode_hi_score, encode_hi_score};
use stackline::types::{
    BlockPattern, Mode, Piece, SoundEvent, BOARD_HEIGHT, BOARD_WIDTH, BTN_1, BTN_2, BTN_DOWN, BTN_LEFT,
    BTN_RIGHT, BTN_UP,
};

fn board_has_block(game: &Game) -> bool {
    (0..BOARD_HEIGHT).any(|y| (0..BOARD_WIDTH).any(|x| game.cell(x, y) != 0))
}

fn piece_fits(game: &Game) -> bool {
    let (px, py) = game.position();
    Game::piece_cells(game.current()).iter().all(|&(cx, cy)| {
        let x = px as i32 + cx as i32;
        let y = py as i32 + cy as i32;
        x >= 0
            && x < BOARD_WIDTH as i32
            && y < BOARD_HEIGHT as i32
            && (y < 0 || game.cell(x as usize, y as usize) == 0)
    })
}

fn assert_cells_consistent(game: &Game) {
    for y in 0..BOARD_HEIGHT {
        for x in 0..BOARD_WIDTH {
            let cell = game.cell(x, y);
            assert!(cell <= 7);
            if cell == 0 {
                assert_eq!(game.cell_id(x, y), 0);
                assert_eq!(game.cell_style(x, y).color, 0);
                assert_eq!(game.cell_style(x, y).pattern, BlockPattern::Solid);
            } else {
                assert_ne!(game.cell_id(x, y), 0);
                assert_ne!(game.cell_style(x, y).color, 0);
            }
        }
    }
}

fn expected_level(lines: u16) -> u8 {
    std::cmp::min(lines / 10, 19) as u8
}

/// A fixed, busy input pattern: moves, rotations, soft and hard drops.
fn scripted_input(frame: u32) -> u8 {
    match frame % 37 {
        0 | 1 => BTN_LEFT,
        5 => BTN_1,
        9 | 10 | 11 => BTN_RIGHT,
        14 => BTN_2,
        20..=24 => BTN_DOWN,
        30 => BTN_UP,
        _ => 0,
    }
}

#[test]
fn new_game_starts_on_title_with_given_hi_score() {
    let mut game = Game::new(777);
    assert_eq!(game.mode(), Mode::Title);
    assert_eq!(game.score(), 0);
    assert_eq!(game.lines(), 0);
    assert_eq!(game.level(), 0);
    assert_eq!(game.hi_score(), 777);
    assert!(!game.take_save_request());
    assert!(game.current().kind < 7);
    assert!(game.next().kind < 7);
}

#[test]
fn every_frame_keeps_the_invariant_during_play() {
    let mut game = Game::new(0);
    game.tick(BTN_1);
    let mut last_hi = game.hi_score();
    let mut last_score = game.score();
    let mut last_lines = game.lines();
    for frame in 0..6000u32 {
        let was_playing = game.mode() == Mode::Playing;
        let input = if game.mode() == Mode::GameOver { 0 } else { scripted_input(frame) };
        game.tick(input);
        assert!(game.score() <= game.hi_score());
        assert_eq!(game.level(), expected_level(game.lines()));
        assert!(game.hi_score() >= last_hi);
        if was_playing {
            assert!(game.score() >= last_score);
            assert!(game.lines() >= last_lines);
            assert!(game.mode() == Mode::Playing || game.mode() == Mode::GameOver);
        }
        assert_cells_consistent(&game);
        if game.mode() == Mode::Playing && !game.is_clearing() {
            assert!(piece_fits(&game));
        }
        last_hi = game.hi_score();
        last_score = game.score();
        last_lines = game.lines();
    }
}

#[test]
fn title_demo_never_scores() {
    let mut game = Game::new(42);
    for _ in 0..3000 {
        game.tick(0);
        assert_eq!(game.mode(), Mode::Title);
        assert_eq!(game.score(), 0);
        assert_eq!(game.lines(), 0);
        assert_eq!(game.hi_score(), 42);
        assert_cells_consistent(&game);
    }
}

#[test]
fn start_press_gives_a_fresh_game_and_keeps_hi_score() {
    let mut game = Game::new(900);
    for _ in 0..300 {
        game.tick(0);
    }
    let result = game.tick(BTN_2);
    assert_eq!(result.sound, SoundEvent::Start);
    assert_eq!(game.mode(), Mode::Playing);
    assert!(!board_has_block(&game));
    assert_eq!(game.score(), 0);
    assert_eq!(game.hi_score(), 900);
    assert_eq!(game.position(), (3, 0));
}

#[test]
fn held_start_button_does_not_restart() {
    let mut game = Game::new(0);
    game.tick(BTN_1);
    assert_eq!(game.mode(), Mode::Playing);
    for x in 0..BOARD_WIDTH {
        game.set_cell(x, 0, 1);
    }
    game.spawn_next();
    assert_eq!(game.mode(), Mode::GameOver);
    let result = game.tick(BTN_1);
    assert_eq!(result.sound, SoundEvent::Silent);
    assert_eq!(game.mode(), Mode::GameOver);
    game.tick(0);
    let result = game.tick(BTN_1);
    assert_eq!(result.sound, SoundEvent::Start);
    assert_eq!(game.mode(), Mode::Playing);
}

#[test]
fn game_over_waits_for_a_start_press() {
    let mut game = Game::new(0);
    game.tick(BTN_1);
    game.tick(0);
    for x in 3..7 {
        game.set_cell(x, 0, 1);
    }
    game.spawn_next();
    assert_eq!(game.mode(), Mode::GameOver);
    let score = game.score();
    for _ in 0..100 {
        let result = game.tick(BTN_LEFT);
        assert_eq!(result.sound, SoundEvent::Silent);
        assert_eq!(game.mode(), Mode::GameOver);
        assert_eq!(game.score(), score);
        for x in 3..7 {
            assert_eq!(game.cell(x, 0), 1);
        }
    }
}

#[test]
fn game_over_raises_the_hi_score() {
    let mut game = Game::new(0);
    game.tick(BTN_1);
    game.tick(0);
    for y in 18..20 {
        for x in 0..BOARD_WIDTH {
            game.set_cell(x, y, 1);
        }
    }
    let cleared = game.clear_lines();
    assert_eq!(cleared, 2);
    game.add_line_score(cleared);
    assert_eq!(game.score(), 100);
    assert_eq!(game.hi_score(), 100);
    assert!(game.take_save_request());
    assert!(!game.take_save_request());
}

#[test]
fn clearing_removes_every_full_row_and_keeps_the_others() {
    let mut game = Game::new(0);
    for x in 0..BOARD_WIDTH {
        game.set_cell(x, 19, 3);
        game.set_cell(x, 17, 3);
    }
    game.set_cell(0, 18, 5);
    game.set_cell(4, 16, 6);
    let cleared = game.clear_lines();
    assert_eq!(cleared, 2);
    for y in 0..BOARD_HEIGHT {
        assert!(!game.row_full(y));
    }
    assert_eq!(game.cell(0, 19), 5);
    assert_eq!(game.cell(4, 18), 6);
    assert_eq!(game.cell(0, 18), 0);
    assert_eq!(game.cell(4, 17), 0);
}

#[test]
fn clearing_nothing_changes_nothing() {
    let mut game = Game::new(0);
    game.set_cell(2, 19, 4);
    assert_eq!(game.clear_lines(), 0);
    assert_eq!(game.cell(2, 19), 4);
}

#[test]
fn line_scores_follow_the_level() {
    let mut game = Game::new(0);
    game.add_line_score(1);
    assert_eq!(game.score(), 40);
    game.add_line_score(2);
    assert_eq!(game.score(), 140);
    game.add_line_score(3);
    assert_eq!(game.score(), 440);
    assert_eq!(game.lines(), 6);
    assert_eq!(game.level(), 0);
    game.add_line_score(4);
    assert_eq!(game.lines(), 10);
    assert_eq!(game.level(), 1);
    assert_eq!(game.score(), 1640);
    game.add_line_score(1);
    assert_eq!(game.score(), 1720);
}

#[test]
fn level_stops_at_nineteen() {
    let mut game = Game::new(0);
    for _ in 0..60 {
        game.add_line_score(4);
    }
    assert_eq!(game.lines(), 240);
    assert_eq!(game.level(), 19);
    assert_eq!(game.gravity_frames(), 6);
}

#[test]
fn gravity_speeds_up_with_level() {
    let mut game = Game::new(0);
    assert_eq!(game.gravity_frames(), 48);
    for _ in 0..3 {
        game.add_line_score(4);
    }
    assert_eq!(game.level(), 1);
    assert_eq!(game.gravity_frames(), 45);
}

#[test]
fn locking_writes_the_piece_kind_into_its_cells() {
    let mut game = Game::new(0);
    game.tick(BTN_1);
    game.tick(0);
    game.set_current(Piece { kind: 2, rot: 0 });
    game.set_position(0, 18);
    let sound = game.lock_piece();
    assert_eq!(sound, SoundEvent::Lock);
    for (cx, cy) in Game::piece_cells(Piece { kind: 2, rot: 0 }) {
        assert_eq!(game.cell(cx as usize, (18 + cy) as usize), 3);
    }
    assert_eq!(game.cell(0, 18), 0);
}

#[test]
fn lock_reports_line_count() {
    let mut game = Game::new(0);
    game.tick(BTN_1);
    game.tick(0);
    for y in 16..20 {
        for x in 0..BOARD_WIDTH {
            if x != 9 {
                game.set_cell(x, y, 1);
            }
        }
    }
    game.set_current(Piece { kind: 0, rot: 1 });
    game.set_position(7, 16);
    assert_eq!(game.lock_piece(), SoundEvent::Line(4));
    assert_eq!(game.score(), 1200);
    assert!(game.is_clearing());
    for y in 16..20 {
        assert!(game.clearing_row(y));
    }
    assert!(!game.clearing_row(15));
}

#[test]
fn soft_drop_scores_a_point_per_row() {
    let mut game = Game::new(0);
    game.tick(BTN_1);
    game.tick(0);
    game.set_current(Piece { kind: 1, rot: 0 });
    game.set_position(4, 0);
    game.set_frame(1);
    let result = game.tick(BTN_DOWN);
    assert_eq!(result.sound, SoundEvent::SoftDrop);
    assert_eq!(game.position().1, 1);
    assert_eq!(game.score(), 1);
}

#[test]
fn horizontal_repeat_timing() {
    assert!(!should_repeat_horizontal(0));
    assert!(!should_repeat_horizontal(11));
    assert!(should_repeat_horizontal(12));
    assert!(!should_repeat_horizontal(13));
    assert!(should_repeat_horizontal(16));
    assert!(should_repeat_horizontal(20));
    assert!(!should_repeat_horizontal(255));
}

#[test]
fn random_styles_use_piece_colors() {
    let mut game = Game::new(0);
    for _ in 0..100 {
        let style = game.random_style();
        assert!((2..=4).contains(&style.color));
    }
}

#[test]
fn rotation_blocked_everywhere_keeps_the_piece() {
    let mut game = Game::new(0);
    game.tick(BTN_1);
    game.tick(0);
    game.set_current(Piece { kind: 0, rot: 0 });
    game.set_position(3, 17);
    for y in 14..20 {
        for x in 0..BOARD_WIDTH {
            if y != 18 {
                game.set_cell(x, y, 1);
            }
        }
    }
    let result = game.tick(BTN_1);
    assert_ne!(result.sound, SoundEvent::Rotate);
    assert_eq!(game.current().rot, 0);
}

#[test]
fn demo_target_with_no_room_is_spawn_column() {
    let mut game = Game::new(0);
    for x in 0..BOARD_WIDTH {
        game.set_cell(x, 0, 1);
        game.set_cell(x, 1, 1);
    }
    game.set_demo_target();
    assert_eq!(game.demo_target(), (3, 0));
}

#[test]
fn hi_score_round_trips_through_the_save_format() {
    for score in [0u32, 1, 255, 256, 40_000, 1_234_567, u32::MAX] {
        let data = encode_hi_score(score);
        assert_eq!(&data[0..4], b"SL01");
        assert_eq!(&data[4..8], &score.to_le_bytes());
        assert_eq!(decode_hi_score(&data, 8), score);
    }
}

#[test]
fn damaged_save_reads_as_zero() {
    let mut data = encode_hi_score(1234);
    assert_eq!(decode_hi_score(&data, 4), 0);
    data[0] = b'X';
    assert_eq!(decode_hi_score(&data, 8), 0);
}

#[test]
fn releasing_both_directions_stops_repeat() {
    let mut game = Game::new(0);
    game.tick(BTN_1);
    game.tick(0);
    game.set_current(Piece { kind: 1, rot: 0 });
    game.set_position(4, 0);
    game.tick(BTN_LEFT | BTN_RIGHT);
    assert_eq!(game.position().0, 4);
}

#[test]
fn turning_back_restores_the_piece() {
    let mut game = Game::new(0);
    game.tick(BTN_1);
    game.tick(0);
    game.set_current(Piece { kind: 6, rot: 0 });
    game.set_position(4, 5);
    game.set_frame(1000);
    game.tick(BTN_1);
    assert_eq!(game.current().rot, 1);
    game.tick(0);
    game.tick(BTN_2);
    assert_eq!(game.current(), Piece { kind: 6, rot: 0 });
    assert_eq!(game.position().0, 4);
    for _ in 0..4 {
        game.tick(BTN_1);
        game.tick(0);
    }
    assert_eq!(game.current(), Piece { kind: 6, rot: 0 });
}
