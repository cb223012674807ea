use stackline::game::Game;
use stackline::types::{
    Mode, SoundEvent, BOARD_HEIGHT, BOARD_WIDTH, BTN_1, BTN_DOWN, BTN_LEFT, BTN_RIGHT, BTN_UP, BTN_2,
};

/// A fixed, busy input pattern: moves, rotations, soft and hard drops.
fn busy_input(frame: u32) -> u8 {
    match frame % 41 {
        0 | 1 => BTN_LEFT,
        6 => BTN_2,
        10 | 11 | 12 | 13 => BTN_RIGHT,
        17 => BTN_1,
        22..=27 => BTN_DOWN,
        33 => BTN_UP,
        _ => 0,
    }
}

fn falling_piece_fits(game: &Game) -> bool {
    let (px, py) = game.position();
    Game::piece_cells(game.current()).iter().all(|&(cx, cy)| {
        let x = px as i32 + cx as i32;
        let y = py as i32 + cy as i32;
        x >= 0
            && x < BOARD_WIDTH as i32
            && y < BOARD_HEIGHT as i32
            && (y < 0 || game.cell(x as usize, y as usize) == 0)
    })
}

fn assert_piece_colours(game: &Game) {
    for y in 0..BOARD_HEIGHT {
        for x in 0..BOARD_WIDTH {
            if game.cell(x, y) != 0 {
                let color = game.cell_style(x, y).color;
                assert!((2..=4).contains(&color));
            }
        }
    }
    assert!((2..=4).contains(&game.current_style().color));
    assert!((2..=4).contains(&game.next_style().color));
}

fn assert_clear_state(game: &Game) {
    let marked = (0..BOARD_HEIGHT).any(|y| game.clearing_row(y));
    assert_eq!(game.is_clearing(), marked);
    assert!(game.clear_timer() <= 14);
    for y in BOARD_HEIGHT..32 {
        assert!(!game.clearing_row(y));
    }
    for y in 0..BOARD_HEIGHT {
        if game.clearing_row(y) {
            assert!(game.row_full(y));
        }
        if !game.is_clearing() {
            assert!(!game.row_full(y));
        }
    }
}

fn assert_same_play(a: &Game, b: &Game) {
    assert_eq!(a.mode(), b.mode());
    assert_eq!(a.score(), b.score());
    assert_eq!(a.lines(), b.lines());
    assert_eq!(a.level(), b.level());
    assert_eq!(a.frame(), b.frame());
    assert_eq!(a.current(), b.current());
    assert_eq!(a.next(), b.next());
    assert_eq!(a.current_style(), b.current_style());
    assert_eq!(a.next_style(), b.next_style());
    assert_eq!(a.position(), b.position());
    assert_eq!(a.clear_timer(), b.clear_timer());
    assert_eq!(a.clear_mask(), b.clear_mask());
    for y in 0..BOARD_HEIGHT {
        for x in 0..BOARD_WIDTH {
            assert_eq!(a.cell(x, y), b.cell(x, y));
            assert_eq!(a.cell_id(x, y), b.cell_id(x, y));
            assert_eq!(a.cell_style(x, y), b.cell_style(x, y));
        }
    }
}

#[test]
fn arrow_up_starts_a_game_from_the_title() {
    let mut game = Game::new(0);
    let result = game.tick(BTN_UP);
    assert_eq!(game.mode(), Mode::Playing);
    assert_eq!(result.sound, SoundEvent::Start);
    assert_eq!(game.position(), (3, 0));
}

#[test]
fn arrow_up_starts_a_game_after_game_over() {
    let mut game = Game::new(0);
    game.tick(BTN_UP);
    game.tick(0);
    for x in 0..BOARD_WIDTH {
        game.set_cell(x, 0, 1);
    }
    game.spawn_next();
    assert_eq!(game.mode(), Mode::GameOver);
    let result = game.tick(BTN_UP);
    assert_eq!(result.sound, SoundEvent::Start);
    assert_eq!(game.mode(), Mode::Playing);
    assert_eq!(game.score(), 0);
}

#[test]
fn arrow_up_hard_drops_while_playing() {
    let mut game = Game::new(0);
    game.tick(BTN_1);
    game.tick(0);
    let result = game.tick(BTN_UP);
    assert_eq!(game.mode(), Mode::Playing);
    assert!(matches!(result.sound, SoundEvent::Lock));
    assert!((0..BOARD_HEIGHT).any(|y| (0..BOARD_WIDTH).any(|x| game.cell(x, y) != 0)));
}

#[test]
fn title_demo_piece_always_fits() {
    let mut game = Game::new(5);
    for _ in 0..4000 {
        game.tick(0);
        assert_eq!(game.mode(), Mode::Title);
        if !game.is_clearing() {
            assert!(falling_piece_fits(&game));
        }
        assert_piece_colours(&game);
        assert_clear_state(&game);
    }
}

#[test]
fn play_keeps_piece_colours_and_clear_marks() {
    let mut game = Game::new(0);
    game.tick(BTN_1);
    for frame in 0..6000u32 {
        let input = if game.mode() == Mode::GameOver { 0 } else { busy_input(frame) };
        game.tick(input);
        assert_piece_colours(&game);
        assert_clear_state(&game);
        if game.mode() != Mode::GameOver && !game.is_clearing() {
            assert!(falling_piece_fits(&game));
        }
    }
}

#[test]
fn line_cue_counts_the_rows_cleared() {
    let mut game = Game::new(0);
    game.tick(BTN_1);
    game.tick(0);
    for y in 16..20 {
        for x in 0..BOARD_WIDTH {
            if x != 9 {
                game.set_cell(x, y, 1);
            }
        }
    }
    game.set_current(stackline::types::Piece { kind: 0, rot: 1 });
    game.set_position(7, 0);
    let lines = game.lines();
    let result = game.tick(BTN_UP);
    assert_eq!(result.sound, SoundEvent::Line(4));
    assert_eq!(game.lines(), lines + 4);
    assert!(game.is_clearing());
}

#[test]
fn lines_move_only_with_a_line_cue() {
    let mut game = Game::new(0);
    game.tick(BTN_1);
    for frame in 0..6000u32 {
        let input = if game.mode() == Mode::GameOver { 0 } else { busy_input(frame) };
        let before = game.lines();
        let result = game.tick(input);
        match result.sound {
            SoundEvent::Line(n) => {
                assert!((1..=4).contains(&n));
                assert_eq!(game.lines(), before.saturating_add(n as u16));
            }
            SoundEvent::Start => {}
            _ => assert_eq!(game.lines(), before),
        }
    }
}

#[test]
fn hi_score_never_steers_play() {
    let mut low = Game::new(0);
    let mut high = Game::new(4_000_000);
    assert_same_play(&low, &high);
    for frame in 0..6000u32 {
        let input = match frame {
            0..=199 => 0,
            200 => BTN_2,
            _ if low.mode() == Mode::GameOver => {
                if frame % 2 == 0 {
                    BTN_1
                } else {
                    0
                }
            }
            _ => busy_input(frame),
        };
        let a = low.tick(input);
        let b = high.tick(input);
        assert_eq!(a, b);
        assert_same_play(&low, &high);
    }
    assert_eq!(high.hi_score(), 4_000_000);
}

#[test]
fn save_is_requested_exactly_when_the_hi_score_rises() {
    let mut game = Game::new(0);
    game.tick(BTN_1);
    assert!(!game.take_save_request());
    let mut rises = 0;
    for frame in 0..6000u32 {
        let input = if game.mode() == Mode::GameOver { 0 } else { busy_input(frame) };
        let before = game.hi_score();
        game.tick(input);
        let rose = game.hi_score() > before;
        if rose {
            rises += 1;
        }
        assert_eq!(game.take_save_request(), rose);
        assert!(!game.take_save_request());
    }
    assert!(rises > 0);

    let mut champion = Game::new(4_000_000);
    champion.tick(BTN_1);
    for frame in 0..3000u32 {
        let input = if champion.mode() == Mode::GameOver { 0 } else { busy_input(frame) };
        champion.tick(input);
    }
    assert!(!champion.take_save_request());
}
