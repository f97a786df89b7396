use chord_finder::chord::{build_bitmap, note_text, to_chord, to_chord_root};
use chord_finder::interval::Interval;
use chord_finder::note::{Accidental, Name, Note};

fn n(name: Name, accidental: Accidental, octave: u8) -> Note {
    Note::new(name, accidental, octave)
}

fn natural(name: Name, octave: u8) -> Note {
    n(name, Accidental::Natural, octave)
}

fn owned(v: &[(&str, u32)]) -> Vec<(String, u32)> {
    v.iter().map(|(s, w)| (s.to_string(), *w)).collect()
}

#[test]
fn c_major_triad_is_c_weight_one() {
    let notes = vec![natural(Name::C, 3), natural(Name::E, 3), natural(Name::G, 3)];
    let chords = to_chord(notes);
    assert_eq!(chords[0], ("C".to_string(), 1));
    assert_eq!(
        chords,
        owned(&[("C", 1), ("Gsus4(13)/C", 13), ("Emin(\u{266d}13)/C", 14)])
    );
}

#[test]
fn a_minor_triad_is_amin_weight_one() {
    let notes = vec![natural(Name::A, 3), natural(Name::C, 4), natural(Name::E, 4)];
    let chords = to_chord(notes);
    assert_eq!(chords[0], ("Amin".to_string(), 1));
    assert!(chords[0].0.contains("min"));
    assert!(!chords[0].0.contains("maj"));
    assert_eq!(
        chords,
        owned(&[("Amin", 1), ("C(13)/A", 13), ("Esus4(\u{266d}13)/A", 14)])
    );
}

#[test]
fn fifth_alone_is_power_chord() {
    let chords = to_chord(vec![natural(Name::C, 3), natural(Name::G, 3)]);
    assert_eq!(chords[0], ("C5".to_string(), 0));
    assert_eq!(chords, owned(&[("C5", 0), ("Gsus4/C", 7)]));
}

#[test]
fn power_chord_in_either_order() {
    let root = natural(Name::D, 2);
    let fifth = natural(Name::A, 2);
    let expected = Some(("D5".to_string(), 0));
    assert_eq!(to_chord_root(&vec![root, fifth], &root), expected);
    assert_eq!(to_chord_root(&vec![fifth, root], &root), expected);
}

#[test]
fn d_minor_seventh_above_d() {
    let notes = vec![natural(Name::D, 3), natural(Name::F, 3), natural(Name::A, 3), natural(Name::C, 4)];
    let root = natural(Name::D, 3);
    let reading = to_chord_root(&notes, &root).unwrap();
    assert!(reading.0.contains("Dmin7"));
    assert_eq!(reading, ("Dmin7".to_string(), 5));
    let chords = to_chord(notes);
    assert_eq!(
        chords,
        owned(&[
            ("Dmin7", 5),
            ("F(13)/D", 10),
            ("Csus(2/4)(13)/D", 17),
            ("Amin(sus4)(\u{266d}13)/D", 23),
        ])
    );
}

#[test]
fn fourth_without_fifth_is_sus4() {
    let root = natural(Name::C, 3);
    let notes = vec![root, natural(Name::F, 3)];
    assert_eq!(to_chord_root(&notes, &root), Some(("Csus4".to_string(), 4)));
}

#[test]
fn fourth_with_fifth_is_not_a_suspension_above_the_root() {
    // A perfect fifth rules out sus4: above C the fourth stays unexplained by a quality.
    let root = natural(Name::C, 3);
    let notes = vec![root, natural(Name::F, 3), natural(Name::G, 3)];
    assert_eq!(to_chord_root(&notes, &root), None);
    assert_eq!(to_chord(notes), owned(&[("Fsus2/C", 7)]));
}

#[test]
fn empty_input_gives_no_chords() {
    assert!(to_chord(vec![]).is_empty());
    let root = natural(Name::C, 4);
    assert_eq!(to_chord_root(&vec![], &root), None);
}

#[test]
fn resolving_twice_gives_same_result() {
    let notes = vec![natural(Name::D, 3), natural(Name::F, 3), natural(Name::A, 3), natural(Name::C, 4)];
    assert_eq!(to_chord(notes.clone()), to_chord(notes));
}

#[test]
fn first_inversion_carries_bass_and_three_more() {
    let c = natural(Name::C, 4);
    let e = natural(Name::E, 3);
    let g = natural(Name::G, 3);
    let inverted = to_chord(vec![e, g, c]);
    let root_first = to_chord(vec![c, e, g]);
    assert!(root_first.contains(&("C".to_string(), 1)));
    assert!(inverted.contains(&("C/E".to_string(), 4)));
    assert!(inverted.iter().any(|(s, w)| s.ends_with("/E") && *w == 1 + 3));
}

#[test]
fn flat_bass_is_written_with_flat_sign() {
    let bass = n(Name::E, Accidental::Flat, 3);
    let chords = to_chord(vec![bass, natural(Name::G, 3), natural(Name::C, 4)]);
    assert!(chords.contains(&("Cmin/E\u{266d}".to_string(), 4)));
}

#[test]
fn ranking_is_sorted_by_weight() {
    let inputs = vec![
        vec![natural(Name::C, 3), natural(Name::E, 3), natural(Name::G, 3), natural(Name::B, 3)],
        vec![natural(Name::E, 3), natural(Name::G, 3), natural(Name::B, 3), natural(Name::D, 4)],
        vec![natural(Name::C, 3), natural(Name::D, 3), natural(Name::E, 3), natural(Name::F, 3), natural(Name::G, 3)],
    ];
    for notes in inputs {
        let chords = to_chord(notes);
        for pair in chords.windows(2) {
            assert!(pair[0].1 <= pair[1].1);
        }
    }
}

#[test]
fn sevenths_and_extensions() {
    let c = natural(Name::C, 3);
    let e = natural(Name::E, 3);
    let g = natural(Name::G, 3);
    let b = natural(Name::B, 3);
    let b_flat = n(Name::B, Accidental::Flat, 3);
    let d = natural(Name::D, 4);
    assert_eq!(to_chord_root(&vec![c, e, g, b], &c), Some(("Cmaj7".to_string(), 6)));
    assert_eq!(to_chord_root(&vec![c, e, g, b_flat], &c), Some(("C7".to_string(), 5)));
    assert_eq!(to_chord_root(&vec![c, e, g, b_flat, d], &c), Some(("C9".to_string(), 5)));
    assert_eq!(to_chord_root(&vec![c, e, g, d], &c), Some(("C(9)".to_string(), 7)));
}

#[test]
fn suspended_seconds() {
    let c = natural(Name::C, 3);
    let d = natural(Name::D, 3);
    let g = natural(Name::G, 3);
    assert_eq!(to_chord_root(&vec![c, d, g], &c), Some(("Csus2".to_string(), 4)));
    assert_eq!(to_chord_root(&vec![c, d], &c), Some(("Csus2".to_string(), 7)));
    let d_flat = n(Name::D, Accidental::Flat, 3);
    assert_eq!(
        to_chord_root(&vec![c, d_flat, g], &c),
        Some(("Csus\u{266d}2".to_string(), 5))
    );
}

#[test]
fn third_alone_pays_for_missing_fifth() {
    let c = natural(Name::C, 3);
    assert_eq!(to_chord_root(&vec![c, natural(Name::E, 3)], &c), Some(("C".to_string(), 4)));
    let e_flat = n(Name::E, Accidental::Flat, 3);
    assert_eq!(to_chord_root(&vec![c, e_flat], &c), Some(("Cmin".to_string(), 4)));
}

#[test]
fn sharp_root_is_written_with_sharp() {
    let f_sharp = n(Name::F, Accidental::Sharp, 3);
    let notes = vec![f_sharp, n(Name::A, Accidental::Sharp, 3), n(Name::C, Accidental::Sharp, 4)];
    assert_eq!(to_chord(notes)[0], ("F#".to_string(), 1));
}

#[test]
fn added_tones_without_quality_do_not_resolve() {
    let c = natural(Name::C, 3);
    let notes = vec![c, natural(Name::A, 3)];
    assert_eq!(to_chord_root(&notes, &c), None);
}

#[test]
fn bitmap_reduces_to_one_octave_and_drops_unison() {
    let c = natural(Name::C, 4);
    let notes = vec![natural(Name::E, 2), c, natural(Name::C, 5), natural(Name::G, 6)];
    let set = build_bitmap(&notes, &c);
    assert!(set.contains(Interval::MajorThird));
    assert!(set.contains(Interval::PerfectFifth));
    assert!(!set.contains(Interval::PerfectFirst));
    assert!(!set.contains(Interval::MinorThird));
}

#[test]
fn note_text_has_letter_and_accidental() {
    assert_eq!(note_text(&n(Name::C, Accidental::Sharp, 4)), "C#");
    assert_eq!(note_text(&n(Name::B, Accidental::Flat, 2)), "B\u{266d}");
    assert_eq!(note_text(&natural(Name::G, 1)), "G");
}

#[test]
fn seventh_beside_sharp_nine() {
    let c = natural(Name::C, 3);
    let e = natural(Name::E, 3);
    let g = natural(Name::G, 3);
    let d_sharp = n(Name::D, Accidental::Sharp, 3);
    let b_flat = n(Name::B, Accidental::Flat, 3);
    let b = natural(Name::B, 3);
    assert_eq!(
        to_chord_root(&vec![c, d_sharp, e, g, b_flat], &c),
        Some(("C7(#9)".to_string(), 12))
    );
    assert_eq!(
        to_chord_root(&vec![c, d_sharp, e, g, b], &c),
        Some(("Cmaj7(#9)".to_string(), 13))
    );
}

#[test]
fn minor_chord_with_major_seventh_is_parenthesised() {
    let a = natural(Name::A, 3);
    let c = natural(Name::C, 4);
    let e = natural(Name::E, 4);
    let g_sharp = n(Name::G, Accidental::Sharp, 4);
    let b = natural(Name::B, 4);
    assert_eq!(
        to_chord_root(&vec![a, c, e, g_sharp], &a),
        Some(("Amin(maj7)".to_string(), 6))
    );
    assert_eq!(
        to_chord_root(&vec![a, c, e, g_sharp, b], &a),
        Some(("Amin(maj9)".to_string(), 6))
    );
}

#[test]
fn major_chord_with_major_seventh_has_no_parentheses() {
    let c = natural(Name::C, 3);
    let e = natural(Name::E, 3);
    let g = natural(Name::G, 3);
    let b = natural(Name::B, 3);
    let d = natural(Name::D, 4);
    assert_eq!(to_chord_root(&vec![c, e, g, b, d], &c), Some(("Cmaj9".to_string(), 6)));
}

#[test]
fn highest_extension_present_names_the_chord() {
    let c = natural(Name::C, 3);
    let e = natural(Name::E, 3);
    let g = natural(Name::G, 3);
    let b_flat = n(Name::B, Accidental::Flat, 3);
    let a = natural(Name::A, 3);
    assert_eq!(to_chord_root(&vec![c, e, g, b_flat, a], &c), Some(("C13".to_string(), 5)));
    let d = natural(Name::D, 3);
    let notes = vec![
        d,
        natural(Name::F, 3),
        natural(Name::A, 3),
        natural(Name::C, 4),
        natural(Name::E, 4),
        natural(Name::G, 4),
    ];
    assert_eq!(to_chord_root(&notes, &d), Some(("Dmin11".to_string(), 5)));
}
