use vstd::prelude::*;

use crate::types::{Mode, SoundEvent};

verus! {

/// A rest in the melody tables.
pub const REST: u8 = 0;

/// Frames per step of the music loop.
pub const STEP_FRAMES: u32 = 12;

/// Tone channel and mode flags of the console's `tone` call.
pub const TONE_PULSE1: u32 = 0;

pub const TONE_PULSE2: u32 = 1;

pub const TONE_TRIANGLE: u32 = 2;

pub const TONE_NOISE: u32 = 3;

pub const TONE_MODE1: u32 = 0;

pub const TONE_MODE2: u32 = 4;

pub const TONE_MODE3: u32 = 8;

pub const TONE_MODE4: u32 = 12;

pub const TONE_PAN_LEFT: u32 = 16;

pub const TONE_PAN_RIGHT: u32 = 32;

pub const TONE_NOTE_MODE: u32 = 64;

/// The arguments of one call of the console's `tone`.
#[derive(Clone, Copy, Debug, PartialEq, Eq, Structural)]
pub struct Tone {
    pub frequency: u32,
    pub duration: u32,
    pub volume: u32,
    pub flags: u32,
}

/// The lead melody, one note (MIDI number) or rest per step.
pub open spec fn lead_notes() -> Seq<u8> {
    seq![
        62u8, 0u8, 65u8, 69u8, 67u8, 65u8, 64u8, 0u8,
        62u8, 0u8, 65u8, 70u8, 69u8, 0u8, 65u8, 64u8,
        67u8, 0u8, 69u8, 72u8, 70u8, 69u8, 67u8, 0u8,
        64u8, 0u8, 67u8, 70u8, 69u8, 67u8, 64u8, 0u8,
        62u8, 65u8, 69u8, 72u8, 69u8, 65u8, 62u8, 0u8,
        58u8, 62u8, 65u8, 69u8, 67u8, 65u8, 62u8, 0u8,
        60u8, 64u8, 67u8, 70u8, 69u8, 67u8, 64u8, 0u8,
        57u8, 61u8, 64u8, 67u8, 65u8, 64u8, 62u8, 0u8,
    ]
}

/// The bass line, one root per four steps.
pub open spec fn bass_notes() -> Seq<u8> {
    seq![38u8, 38u8, 34u8, 34u8, 36u8, 36u8, 33u8, 33u8, 38u8, 38u8, 34u8, 34u8, 36u8, 36u8, 33u8, 38u8]
}

/// The off-beat arpeggio, one entry per two steps.
pub open spec fn arp_notes() -> Seq<u8> {
    seq![
        0u8, 69u8, 0u8, 65u8, 0u8, 70u8, 0u8, 65u8,
        0u8, 72u8, 0u8, 67u8, 0u8, 69u8, 0u8, 64u8,
        0u8, 69u8, 0u8, 65u8, 0u8, 70u8, 0u8, 65u8,
        0u8, 72u8, 0u8, 67u8, 0u8, 64u8, 0u8, 61u8,
    ]
}

fn lead_note(i: usize) -> (n: u8)
    requires
        i < 64,
    ensures
        n == lead_notes()[i as int],
{
    let lead: [u8; 64] = [
        62, REST, 65, 69, 67, 65, 64, REST,
        62, REST, 65, 70, 69, REST, 65, 64,
        67, REST, 69, 72, 70, 69, 67, REST,
        64, REST, 67, 70, 69, 67, 64, REST,
        62, 65, 69, 72, 69, 65, 62, REST,
        58, 62, 65, 69, 67, 65, 62, REST,
        60, 64, 67, 70, 69, 67, 64, REST,
        57, 61, 64, 67, 65, 64, 62, REST,
    ];
    assert(lead@ =~= lead_notes());
    lead[i]
}

fn bass_note(i: usize) -> (n: u8)
    requires
        i < 16,
    ensures
        n == bass_notes()[i as int],
{
    let bass: [u8; 16] = [38, 38, 34, 34, 36, 36, 33, 33, 38, 38, 34, 34, 36, 36, 33, 38];
    assert(bass@ =~= bass_notes());
    bass[i]
}

fn arp_note(i: usize) -> (n: u8)
    requires
        i < 32,
    ensures
        n == arp_notes()[i as int],
{
    let arp: [u8; 32] = [
        REST, 69, REST, 65, REST, 70, REST, 65,
        REST, 72, REST, 67, REST, 69, REST, 64,
        REST, 69, REST, 65, REST, 70, REST, 65,
        REST, 72, REST, 67, REST, 64, REST, 61,
    ];
    assert(arp@ =~= arp_notes());
    arp[i]
}

/// An ADSR envelope packs sustain, release, decay and attack frames into
/// one byte each, lowest first.
pub open spec fn envelope_value(attack: u8, decay: u8, sustain: u8, release: u8) -> int {
    sustain + 256 * release + 65536 * decay + 16777216 * attack
}

/// The packed envelope of the `tone` call.
pub fn envelope(attack: u8, decay: u8, sustain: u8, release: u8) -> (e: u32)
    ensures
        e == envelope_value(attack, decay, sustain, release),
{
    let s = sustain as u32;
    let r = release as u32;
    let d = decay as u32;
    let a = attack as u32;
    assert((s | (r << 8u32) | (d << 16u32) | (a << 24u32)) == s + 256 * r + 65536 * d + 16777216
        * a) by (bit_vector)
        requires
            s < 256,
            r < 256,
            d < 256,
            a < 256,
    ;
    s | (r << 8) | (d << 16) | (a << 24)
}

/// A volume packs the sustain volume in the low byte and the peak volume,
/// `boost` louder but at most 100, in the byte above.
pub open spec fn volume_value(volume: u8, boost: int) -> int {
    let peak = if volume + boost < 100 {
        volume + boost
    } else {
        100
    };
    volume + 256 * peak
}

fn packed_volume(volume: u8, boost: u32) -> (v: u32)
    requires
        boost <= 24,
    ensures
        v == volume_value(volume, boost as int),
{
    let low = volume as u32;
    let peak = if low + boost < 100 {
        low + boost
    } else {
        100
    };
    assert((low | (peak << 8u32)) == low + 256 * peak) by (bit_vector)
        requires
            low < 256,
            peak <= 100,
    ;
    low | (peak << 8)
}

/// A note of the melody or a cue: attack 1, decay 2, release 5 frames.
pub open spec fn note_tone(note: u8, sustain: u8, volume: u8, flags: u32) -> Tone {
    Tone {
        frequency: note as u32,
        duration: envelope_value(1, 2, sustain, 5) as u32,
        volume: volume_value(volume, 12) as u32,
        flags: flags | TONE_NOTE_MODE,
    }
}

/// A noise burst.
pub open spec fn noise_tone(sustain: u8, volume: u8) -> Tone {
    Tone {
        frequency: 120,
        duration: envelope_value(0, 1, sustain, 4) as u32,
        volume: volume_value(volume, 24) as u32,
        flags: TONE_NOISE | TONE_MODE4,
    }
}

/// A note that slides from one pitch to another.
pub open spec fn slide_tone(from: u16, to: u16, volume: u8, flags: u32) -> Tone {
    Tone {
        frequency: (from + 65536 * to) as u32,
        duration: envelope_value(0, 4, 22, 10) as u32,
        volume: volume_value(volume, 12) as u32,
        flags: flags | TONE_NOTE_MODE,
    }
}

fn note_on(note: u8, sustain: u8, volume: u8, flags: u32) -> (t: Tone)
    ensures
        t == note_tone(note, sustain, volume, flags),
{
    Tone {
        frequency: note as u32,
        duration: envelope(1, 2, sustain, 5),
        volume: packed_volume(volume, 12),
        flags: flags | TONE_NOTE_MODE,
    }
}

fn noise(sustain: u8, volume: u8) -> (t: Tone)
    ensures
        t == noise_tone(sustain, volume),
{
    Tone {
        frequency: 120,
        duration: envelope(0, 1, sustain, 4),
        volume: packed_volume(volume, 24),
        flags: TONE_NOISE | TONE_MODE4,
    }
}

fn slide(from: u16, to: u16, volume: u8, flags: u32) -> (t: Tone)
    ensures
        t == slide_tone(from, to, volume, flags),
{
    let f = from as u32;
    let g = to as u32;
    assert((f | (g << 16u32)) == f + 65536 * g) by (bit_vector)
        requires
            f < 65536,
            g < 65536,
    ;
    Tone {
        frequency: f | (g << 16),
        duration: envelope(0, 4, 22, 10),
        volume: packed_volume(volume, 12),
        flags: flags | TONE_NOTE_MODE,
    }
}

/// The tones the music loop plays on a frame: nothing outside a game; else
/// the lead on every step, the arpeggio between two steps, and the bass
/// every four steps, each unless its table rests.
pub open spec fn music_tones_spec(mode: Mode, frame: u32) -> Seq<Tone> {
    if mode != Mode::Playing {
        Seq::empty()
    } else {
        let step: int = frame as int / 12;
        let lead = lead_notes()[step % 64];
        let arp = arp_notes()[(step / 2) % 32];
        let bass = bass_notes()[(step / 4) % 16];
        let s1: Seq<Tone> = if frame % 12 == 0 && lead != 0 {
            seq![note_tone(lead, 4, 13, TONE_PULSE1 | TONE_MODE2)]
        } else {
            Seq::empty()
        };
        let s2 = if frame % 24 == 12 && arp != 0 {
            s1.push(note_tone(arp, 2, 7, TONE_PULSE2 | TONE_MODE1 | TONE_PAN_RIGHT))
        } else {
            s1
        };
        if frame % 48 == 0 {
            s2.push(note_tone(bass, 20, 10, TONE_TRIANGLE | TONE_PAN_LEFT))
        } else {
            s2
        }
    }
}

/// The tones the background music plays on a frame.
pub fn music_tones(mode: Mode, frame: u32) -> (tones: Vec<Tone>)
    ensures
        tones@ == music_tones_spec(mode, frame),
{
    let mut tones: Vec<Tone> = Vec::new();
    if mode != Mode::Playing {
        return tones;
    }
    let step = (frame / STEP_FRAMES) as usize;
    if frame % STEP_FRAMES == 0 {
        let note = lead_note(step % 64);
        if note != REST {
            tones.push(note_on(note, 4, 13, TONE_PULSE1 | TONE_MODE2));
        }
    }
    if frame % (STEP_FRAMES * 2) == STEP_FRAMES {
        let note = arp_note((step / 2) % 32);
        if note != REST {
            tones.push(note_on(note, 2, 7, TONE_PULSE2 | TONE_MODE1 | TONE_PAN_RIGHT));
        }
    }
    if frame % (STEP_FRAMES * 4) == 0 {
        let note = bass_note((step / 4) % 16);
        tones.push(note_on(note, 20, 10, TONE_TRIANGLE | TONE_PAN_LEFT));
    }
    tones
}

/// The tones a sound cue plays.
pub open spec fn sound_tones_spec(event: SoundEvent) -> Seq<Tone> {
    match event {
        SoundEvent::Silent => Seq::empty(),
        SoundEvent::Start => seq![note_tone(62, 7, 58, TONE_PULSE1 | TONE_MODE3)],
        SoundEvent::Move => seq![note_tone(47, 2, 24, TONE_PULSE2 | TONE_MODE1 | TONE_PAN_LEFT)],
        SoundEvent::Rotate => seq![note_tone(67, 4, 38, TONE_PULSE2 | TONE_MODE2 | TONE_PAN_RIGHT)],
        SoundEvent::SoftDrop => seq![note_tone(38, 2, 20, TONE_TRIANGLE)],
        SoundEvent::Lock => seq![noise_tone(4, 26)],
        SoundEvent::Line(lines) => seq![
            note_tone((72 + lines * 2) as u8, 12, 68, TONE_PULSE1 | TONE_MODE3),
            note_tone((50 + lines) as u8, 14, 44, TONE_TRIANGLE | TONE_PAN_LEFT),
        ],
        SoundEvent::GameOver => seq![slide_tone(50, 38, 42, TONE_TRIANGLE), noise_tone(16, 46)],
    }
}

/// The tones a sound cue plays. A line cue's pitch rises with the rows
/// cleared, so it needs at most 91 rows.
pub fn sound_tones(event: SoundEvent) -> (tones: Vec<Tone>)
    requires
        event matches SoundEvent::Line(lines) ==> lines <= 91,
    ensures
        tones@ == sound_tones_spec(event),
{
    let mut tones: Vec<Tone> = Vec::new();
    match event {
        SoundEvent::Silent => {},
        SoundEvent::Start => tones.push(note_on(62, 7, 58, TONE_PULSE1 | TONE_MODE3)),
        SoundEvent::Move => tones.push(note_on(47, 2, 24, TONE_PULSE2 | TONE_MODE1 | TONE_PAN_LEFT)),
        SoundEvent::Rotate => tones.push(
            note_on(67, 4, 38, TONE_PULSE2 | TONE_MODE2 | TONE_PAN_RIGHT),
        ),
        SoundEvent::SoftDrop => tones.push(note_on(38, 2, 20, TONE_TRIANGLE)),
        SoundEvent::Lock => tones.push(noise(4, 26)),
        SoundEvent::Line(lines) => {
            tones.push(note_on(72 + lines * 2, 12, 68, TONE_PULSE1 | TONE_MODE3));
            tones.push(note_on(50 + lines, 14, 44, TONE_TRIANGLE | TONE_PAN_LEFT));
        },
        SoundEvent::GameOver => {
            tones.push(slide(50, 38, 42, TONE_TRIANGLE));
            tones.push(noise(16, 46));
        },
    }
    assert(tones@ =~= sound_tones_spec(event));
    tones
}

} // verus!
