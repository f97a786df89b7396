use chord_finder::interval::{Interval, IntervalSet};
use chord_finder::keyboard::{decode_message, Event, MidiKeyboard};
use chord_finder::chord::to_chord;
use chord_finder::note::{Accidental, Name, Note};

#[test]
fn key_numbers_of_notes() {
    assert_eq!(Note::new(Name::C, Accidental::Natural, 4).pitch_index(), 60);
    assert_eq!(Note::new(Name::A, Accidental::Natural, 0).pitch_index(), 21);
    assert_eq!(Note::new(Name::B, Accidental::Flat, 3).pitch_index(), 58);
    assert_eq!(Note::new(Name::A, Accidental::Sharp, 3).pitch_index(), 58);
}

#[test]
fn enharmonic_notes_are_not_equal() {
    let a_sharp = Note::new(Name::A, Accidental::Sharp, 3);
    let b_flat = Note::new(Name::B, Accidental::Flat, 3);
    assert_ne!(a_sharp, b_flat);
    assert_eq!(a_sharp.pitch_index(), b_flat.pitch_index());
}

#[test]
fn white_key_has_one_spelling() {
    let (note, flat) = Note::from(60).unwrap();
    assert_eq!(note, Note::new(Name::C, Accidental::Natural, 4));
    assert_eq!(flat, None);
    let (a0, _) = Note::from(21).unwrap();
    assert_eq!(a0, Note::new(Name::A, Accidental::Natural, 0));
    let (top, _) = Note::from(127).unwrap();
    assert_eq!(top, Note::new(Name::G, Accidental::Natural, 9));
}

#[test]
fn black_key_has_sharp_and_flat_spelling() {
    let (sharp, flat) = Note::from(61).unwrap();
    assert_eq!(sharp, Note::new(Name::C, Accidental::Sharp, 4));
    assert_eq!(flat, Some(Note::new(Name::D, Accidental::Flat, 4)));
    let (g_sharp, a_flat) = Note::from(32).unwrap();
    assert_eq!(g_sharp, Note::new(Name::G, Accidental::Sharp, 1));
    assert_eq!(a_flat, Some(Note::new(Name::A, Accidental::Flat, 1)));
}

#[test]
fn keys_below_a0_have_no_spelling() {
    assert_eq!(Note::from(20), None);
    assert_eq!(Note::from(0), None);
}

#[test]
fn spelling_keeps_key_number() {
    for key in 21..128u8 {
        let (note, flat) = Note::from(key).unwrap();
        assert_eq!(note.pitch_index(), key as i32);
        if let Some(f) = flat {
            assert_eq!(f.pitch_index(), key as i32);
        }
    }
}

#[test]
fn intervals_between_notes() {
    let c4 = Note::new(Name::C, Accidental::Natural, 4);
    let e4 = Note::new(Name::E, Accidental::Natural, 4);
    let c5 = Note::new(Name::C, Accidental::Natural, 5);
    assert_eq!(Note::interval_note(c4, e4), 4);
    assert_eq!(Note::interval_note(c4, c5), 12);
    assert_eq!(Note::interval_note(c4, c4), 0);
    assert_eq!(Note::interval_midi_number(60, 67), 7);
    assert_eq!(Note::interval_midi_number(0, 127), 127);
}

#[test]
fn random_note_stays_in_range() {
    for _ in 0..200 {
        let note = Note::new_random();
        assert!(note.octave < 9);
    }
}

#[test]
fn draws_pick_letter_and_accidental() {
    let note = Note::from_draws(4, 6, 2);
    assert_eq!(note, Note::new(Name::G, Accidental::Sharp, 4));
    let note = Note::from_draws(0, 0, 0);
    assert_eq!(note, Note::new(Name::A, Accidental::Flat, 0));
}

#[test]
fn glyphs_and_letters() {
    assert_eq!(Accidental::Sharp.glyph(), "#");
    assert_eq!(Accidental::Flat.glyph(), "\u{266d}");
    assert_eq!(Accidental::Natural.glyph(), "");
    assert_eq!(Name::F.letter(), "F");
    assert_eq!(Name::from_index(7), None);
    assert_eq!(Accidental::from_index(3), None);
}

#[test]
fn interval_semitones() {
    assert_eq!(Interval::MajorThird.to_semitone(), 4);
    assert_eq!(Interval::from_semitone(11), Some(Interval::MajorSeventh));
    assert_eq!(Interval::from_semitone(12), None);
    assert_eq!(Interval::MinorSecond.add_tone(), Some(("(\u{266d}9)", 7)));
    assert_eq!(Interval::PerfectFifth.add_tone(), None);
}

#[test]
fn interval_set_insert_remove() {
    let mut set = IntervalSet::new();
    assert!(set.is_empty());
    set.insert(Interval::PerfectFifth);
    assert!(set.contains(Interval::PerfectFifth));
    assert!(set.is_only(Interval::PerfectFifth));
    set.insert(Interval::MajorThird);
    assert!(!set.is_only(Interval::PerfectFifth));
    set.remove(Interval::PerfectFifth);
    set.remove(Interval::MajorThird);
    assert!(set.is_empty());
}

#[test]
fn decode_status_bytes() {
    assert_eq!(decode_message(&[0x90, 60, 100]), (Event::KeyOn, 60));
    assert_eq!(decode_message(&[0x83, 61, 0]), (Event::KeyOff, 61));
    assert_eq!(decode_message(&[0xB0, 7, 10]), (Event::ControlChange, 7));
    assert_eq!(decode_message(&[0xE2, 0, 64]), (Event::PitchBendChange, 0));
    assert_eq!(decode_message(&[0xF8, 1]), (Event::SystemMessage, 1));
    assert_eq!(decode_message(&[0x45, 1]), (Event::SystemMessage, 1));
}

#[test]
fn keyboard_press_and_release() {
    let mut keyboard = MidiKeyboard::empty();
    assert!(keyboard.to_notes().is_empty());
    keyboard.press(67);
    keyboard.press(60);
    let held = keyboard.press(64);
    let c4 = Note::new(Name::C, Accidental::Natural, 4);
    let e4 = Note::new(Name::E, Accidental::Natural, 4);
    let g4 = Note::new(Name::G, Accidental::Natural, 4);
    assert_eq!(held, vec![c4, e4, g4]);
    assert!(keyboard.is_held(64));
    assert_eq!(to_chord(held)[0], ("C".to_string(), 1));
    let held = keyboard.release(64);
    assert_eq!(held, vec![c4, g4]);
    assert!(!keyboard.is_held(64));
    assert_eq!(to_chord(held)[0], ("C5".to_string(), 0));
}

#[test]
fn keyboard_spells_black_keys_and_skips_low_keys() {
    let mut keyboard = MidiKeyboard::empty();
    keyboard.press(10);
    keyboard.press(61);
    let spellings = keyboard.to_notes();
    assert_eq!(
        spellings,
        vec![(
            Note::new(Name::C, Accidental::Sharp, 4),
            Some(Note::new(Name::D, Accidental::Flat, 4))
        )]
    );
    assert_eq!(keyboard.held_notes(), vec![Note::new(Name::C, Accidental::Sharp, 4)]);
}

#[test]
fn note_display_text() {
    assert_eq!(Note::new(Name::C, Accidental::Sharp, 4).to_text(), "C#4");
    assert_eq!(Note::new(Name::B, Accidental::Flat, 0).to_text(), "B\u{266d}0");
    assert_eq!(Note::new(Name::A, Accidental::Natural, 10).to_text(), "A10");
    assert_eq!(Note::new(Name::G, Accidental::Natural, 255).to_text(), "G255");
    assert_eq!(Note::new(Name::E, Accidental::Natural, 107).to_text(), "E107");
}

#[test]
fn keyboard_applies_events() {
    let mut keyboard = MidiKeyboard::empty();
    let c4 = Note::new(Name::C, Accidental::Natural, 4);
    assert_eq!(keyboard.apply(Event::KeyOn, 60), Some(vec![c4]));
    assert_eq!(keyboard.apply(Event::ControlChange, 64), None);
    assert!(!keyboard.is_held(64));
    assert_eq!(keyboard.apply(Event::KeyOff, 60), Some(vec![]));
    assert!(!keyboard.is_held(60));
}
