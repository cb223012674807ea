use stackline::audio::{envelope, music_tones, sound_tones, Tone};
use stackline::display::{
    blink_text_color, clear_animation_elapsed, clear_animation_hides_cell, decimal_text,
    locked_cell_visible, piece_has_board_cell, piece_has_local_cell, same_locked_piece_visible,
};
use stackline::game::Game;
use stackline::types::{Mode, Piece, SoundEvent, BOARD_WIDTH, BTN_1};

#[test]
fn decimal_text_pads_with_zeros() {
    assert_eq!(decimal_text(0, 1), b"0".to_vec());
    assert_eq!(decimal_text(0, 0), b"0".to_vec());
    assert_eq!(decimal_text(36, 4), b"0036".to_vec());
    assert_eq!(decimal_text(7, 2), b"07".to_vec());
    assert_eq!(decimal_text(1_234_567, 4), b"1234567".to_vec());
    assert_eq!(decimal_text(u32::MAX, 10), b"4294967295".to_vec());
    assert_eq!(decimal_text(100, 0), b"100".to_vec());
}

#[test]
fn envelope_packs_one_byte_per_phase() {
    assert_eq!(envelope(1, 2, 4, 5), 16_909_572);
    assert_eq!(envelope(0, 0, 0, 0), 0);
    assert_eq!(envelope(255, 255, 255, 255), u32::MAX);
}

#[test]
fn music_is_silent_outside_a_game() {
    assert!(music_tones(Mode::Title, 0).is_empty());
    assert!(music_tones(Mode::GameOver, 48).is_empty());
}

#[test]
fn music_plays_lead_arp_and_bass_on_their_steps() {
    let tones = music_tones(Mode::Playing, 0);
    assert_eq!(tones.len(), 2);
    assert_eq!(
        tones[0],
        Tone {
            frequency: 62,
            duration: 16_909_572,
            volume: 6413,
            flags: 68,
        }
    );
    assert_eq!(tones[1].frequency, 38);
    assert!(music_tones(Mode::Playing, 12).is_empty());
    let tones = music_tones(Mode::Playing, 36);
    assert_eq!(tones.len(), 2);
    assert_eq!(tones[0].frequency, 69);
    assert_eq!(tones[1].frequency, 69);
    assert_eq!(tones[1].flags, 1 | 32 | 64);
    assert!(music_tones(Mode::Playing, 5).is_empty());
}

#[test]
fn sound_cues_map_to_tones() {
    assert!(sound_tones(SoundEvent::Silent).is_empty());
    let lock = sound_tones(SoundEvent::Lock);
    assert_eq!(
        lock,
        vec![Tone {
            frequency: 120,
            duration: 66_564,
            volume: 12826,
            flags: 15,
        }]
    );
    let line = sound_tones(SoundEvent::Line(2));
    assert_eq!(line.len(), 2);
    assert_eq!(line[0].frequency, 76);
    assert_eq!(line[1].frequency, 52);
    let over = sound_tones(SoundEvent::GameOver);
    assert_eq!(over[0].frequency, 2_490_418);
    assert_eq!(over[1].volume, 17966);
    assert_eq!(sound_tones(SoundEvent::Rotate)[0].frequency, 67);
}

#[test]
fn local_and_board_cells_of_a_piece() {
    let cells = Game::piece_cells(Piece { kind: 1, rot: 0 });
    assert!(piece_has_local_cell(cells, 1, 0));
    assert!(!piece_has_local_cell(cells, 0, 0));
    assert!(piece_has_board_cell(cells, 4, 2, 5, 2));
    assert!(piece_has_board_cell(cells, 4, 2, 6, 3));
    assert!(!piece_has_board_cell(cells, 4, 2, 4, 2));
    assert!(!piece_has_board_cell(cells, 4, -1, 5, -1));
}

#[test]
fn blink_alternates_every_28_frames() {
    let mut game = Game::new(0);
    assert_eq!(blink_text_color(&game), 2);
    game.set_frame(28);
    assert_eq!(blink_text_color(&game), 3);
    game.set_frame(56);
    assert_eq!(blink_text_color(&game), 2);
}

#[test]
fn line_clear_wipe_grows_from_the_centre() {
    let mut game = Game::new(0);
    game.tick(BTN_1);
    game.tick(0);
    game.set_current(Piece { kind: 0, rot: 0 });
    game.set_position(3, 18);
    for x in 0..BOARD_WIDTH {
        if !(3..=6).contains(&x) {
            game.set_cell(x, 19, 2);
            game.set_cell_id(x, 19, 9);
        }
    }
    game.lock_piece();
    assert_eq!(clear_animation_elapsed(&game), 0);
    assert!(locked_cell_visible(&game, 4, 19));
    assert!(!clear_animation_hides_cell(&game, 4, 19));
    for _ in 0..7 {
        game.tick(0);
    }
    assert_eq!(clear_animation_elapsed(&game), 7);
    assert!(clear_animation_hides_cell(&game, 4, 19));
    assert!(clear_animation_hides_cell(&game, 5, 19));
    assert!(!clear_animation_hides_cell(&game, 0, 19));
    assert!(!clear_animation_hides_cell(&game, 5, 18));
    assert!(locked_cell_visible(&game, 0, 19));
    assert!(!locked_cell_visible(&game, 4, 19));
    assert!(same_locked_piece_visible(&game, 0, 19, 9));
    assert!(!same_locked_piece_visible(&game, 0, 19, 10));
    assert!(!same_locked_piece_visible(&game, -1, 19, 9));
    assert!(!same_locked_piece_visible(&game, 0, 19, 0));
}
