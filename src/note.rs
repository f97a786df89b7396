//! Pitches: a letter, an accidental and an octave, and the key number each stands for.

use rand::Rng;
use vstd::prelude::*;

verus! {

/// The seven letter names of the natural notes.
#[derive(Clone, Copy, Debug, PartialEq, Eq, Structural)]
pub enum Name {
    A,
    B,
    C,
    D,
    E,
    F,
    G,
}

/// A flat, a natural or a sharp.
#[derive(Clone, Copy, Debug, PartialEq, Eq, Structural)]
pub enum Accidental {
    Flat,
    Natural,
    Sharp,
}

/// A pitch as it is written. Two notes are equal when they are spelled alike:
/// a sharp and its enharmonic flat are different notes.
#[derive(Clone, Copy, Debug, PartialEq, Eq, Structural)]
pub struct Note {
    pub name: Name,
    pub accidental: Accidental,
    pub octave: u8,
}

impl Name {
    /// Semitones above C of the natural note with this letter.
    pub open spec fn semitone(self) -> int {
        match self {
            Name::A => 9,
            Name::B => 11,
            Name::C => 0,
            Name::D => 2,
            Name::E => 4,
            Name::F => 5,
            Name::G => 7,
        }
    }

    pub open spec fn text(self) -> Seq<char> {
        match self {
            Name::A => "A"@,
            Name::B => "B"@,
            Name::C => "C"@,
            Name::D => "D"@,
            Name::E => "E"@,
            Name::F => "F"@,
            Name::G => "G"@,
        }
    }

    /// The letter, as text.
    pub fn letter(&self) -> (r: &'static str)
        ensures
            r@ == self.text(),
    {
        match self {
            Name::A => "A",
            Name::B => "B",
            Name::C => "C",
            Name::D => "D",
            Name::E => "E",
            Name::F => "F",
            Name::G => "G",
        }
    }

    /// Place of the letter in A to G, from 0.
    pub open spec fn place(self) -> nat {
        match self {
            Name::A => 0,
            Name::B => 1,
            Name::C => 2,
            Name::D => 3,
            Name::E => 4,
            Name::F => 5,
            Name::G => 6,
        }
    }

    /// The letter at place `i` of A to G.
    pub fn from_index(i: u8) -> (r: Option<Name>)
        ensures
            r is Some <==> i < 7,
            r matches Some(n) ==> n.place() == i,
    {
        match i {
            0 => Some(Name::A),
            1 => Some(Name::B),
            2 => Some(Name::C),
            3 => Some(Name::D),
            4 => Some(Name::E),
            5 => Some(Name::F),
            6 => Some(Name::G),
            _ => None,
        }
    }
}

impl Accidental {
    /// How far the accidental moves the natural note, in semitones.
    pub open spec fn offset(self) -> int {
        match self {
            Accidental::Flat => -1,
            Accidental::Natural => 0,
            Accidental::Sharp => 1,
        }
    }

    pub open spec fn text(self) -> Seq<char> {
        match self {
            Accidental::Flat => "\u{266d}"@,
            Accidental::Natural => ""@,
            Accidental::Sharp => "#"@,
        }
    }

    /// The accidental's sign: `#`, the flat sign, or nothing for a natural.
    pub fn glyph(&self) -> (r: &'static str)
        ensures
            r@ == self.text(),
    {
        match self {
            Accidental::Flat => "\u{266d}",
            Accidental::Natural => "",
            Accidental::Sharp => "#",
        }
    }

    /// Place of the accidental in flat, natural, sharp, from 0.
    pub open spec fn place(self) -> nat {
        match self {
            Accidental::Flat => 0,
            Accidental::Natural => 1,
            Accidental::Sharp => 2,
        }
    }

    /// The accidental at place `i` of flat, natural, sharp.
    pub fn from_index(i: u8) -> (r: Option<Accidental>)
        ensures
            r is Some <==> i < 3,
            r matches Some(a) ==> a.place() == i,
    {
        match i {
            0 => Some(Accidental::Flat),
            1 => Some(Accidental::Natural),
            2 => Some(Accidental::Sharp),
            _ => None,
        }
    }
}

/// Letter of the key `number` semitones above an A, spelled with sharps.
pub open spec fn sharp_name(number: int) -> Name {
    if number <= 1 {
        Name::A
    } else if number == 2 {
        Name::B
    } else if number <= 4 {
        Name::C
    } else if number <= 6 {
        Name::D
    } else if number == 7 {
        Name::E
    } else if number <= 9 {
        Name::F
    } else {
        Name::G
    }
}

/// Letter of the key `number` semitones above an A, spelled with flats.
pub open spec fn flat_name(number: int) -> Name {
    if number == 0 {
        Name::A
    } else if number <= 2 {
        Name::B
    } else if number == 3 {
        Name::C
    } else if number <= 5 {
        Name::D
    } else if number <= 7 {
        Name::E
    } else if number == 8 {
        Name::F
    } else if number <= 10 {
        Name::G
    } else {
        Name::A
    }
}

/// Whether the key `number` semitones above an A is a black key.
pub open spec fn is_black(number: int) -> bool {
    number == 1 || number == 4 || number == 6 || number == 9 || number == 11
}

/// The spelling of a key: its natural or sharp name, and for a black key its flat name too.
/// Keys below the lowest A of a piano have none.
pub open spec fn key_spelling(key: int) -> Option<(Note, Option<Note>)> {
    if key < 21 {
        None
    } else {
        let number = (key - 21) % 12;
        let octave = ((key - 12) / 12) as u8;
        if is_black(number) {
            Some(
                (
                    Note { name: sharp_name(number), accidental: Accidental::Sharp, octave },
                    Some(Note { name: flat_name(number), accidental: Accidental::Flat, octave }),
                ),
            )
        } else {
            Some((Note { name: sharp_name(number), accidental: Accidental::Natural, octave }, None))
        }
    }
}

fn sharp_name_of(number: u8) -> (r: Name)
    ensures
        r == sharp_name(number as int),
{
    if number <= 1 {
        Name::A
    } else if number == 2 {
        Name::B
    } else if number <= 4 {
        Name::C
    } else if number <= 6 {
        Name::D
    } else if number == 7 {
        Name::E
    } else if number <= 9 {
        Name::F
    } else {
        Name::G
    }
}

fn flat_name_of(number: u8) -> (r: Name)
    ensures
        r == flat_name(number as int),
{
    if number == 0 {
        Name::A
    } else if number <= 2 {
        Name::B
    } else if number == 3 {
        Name::C
    } else if number <= 5 {
        Name::D
    } else if number <= 7 {
        Name::E
    } else if number == 8 {
        Name::F
    } else if number <= 10 {
        Name::G
    } else {
        Name::A
    }
}

/// The character of decimal digit `d`.
pub open spec fn digit_char(d: int) -> char {
    if d == 0 {
        '0'
    } else if d == 1 {
        '1'
    } else if d == 2 {
        '2'
    } else if d == 3 {
        '3'
    } else if d == 4 {
        '4'
    } else if d == 5 {
        '5'
    } else if d == 6 {
        '6'
    } else if d == 7 {
        '7'
    } else if d == 8 {
        '8'
    } else {
        '9'
    }
}

/// The decimal digits of `n`, most significant first, without leading zeros.
pub open spec fn decimal(n: nat) -> Seq<char>
    decreases n,
{
    if n < 10 {
        seq![digit_char(n as int)]
    } else {
        decimal(n / 10).push(digit_char((n % 10) as int))
    }
}

fn digit_text(d: u8) -> (r: &'static str)
    requires
        d < 10,
    ensures
        r@ == seq![digit_char(d as int)],
{
    proof {
        reveal_strlit("0");
        reveal_strlit("1");
        reveal_strlit("2");
        reveal_strlit("3");
        reveal_strlit("4");
        reveal_strlit("5");
        reveal_strlit("6");
        reveal_strlit("7");
        reveal_strlit("8");
        reveal_strlit("9");
    }
    if d == 0 {
        "0"
    } else if d == 1 {
        "1"
    } else if d == 2 {
        "2"
    } else if d == 3 {
        "3"
    } else if d == 4 {
        "4"
    } else if d == 5 {
        "5"
    } else if d == 6 {
        "6"
    } else if d == 7 {
        "7"
    } else if d == 8 {
        "8"
    } else {
        "9"
    }
}

/// Relies on rand's `thread_rng` and `Rng::gen_range`: a value drawn from `0..n`,
/// which panics on an empty range.
#[verifier::external_body]
fn draw_below(n: u8) -> (r: u8)
    requires
        n > 0,
    ensures
        r < n,
{
    rand::thread_rng().gen_range(0..n)
}

impl Note {
    /// The key number of the note: C4 is 60, A0 is 21.
    pub open spec fn index(self) -> int {
        12 + self.name.semitone() + 12 * self.octave + self.accidental.offset()
    }

    /// The note as written in a chord symbol: letter and accidental, without the octave.
    pub open spec fn text(self) -> Seq<char> {
        self.name.text() + self.accidental.text()
    }

    /// The note as it is displayed: letter, accidental and octave, as in `C#4`.
    pub fn to_text(&self) -> (r: String)
        ensures
            r@ == self.text() + decimal(self.octave as nat),
    {
        let mut text = String::from_str(self.name.letter());
        text.append(self.accidental.glyph());
        let o = self.octave;
        let ghost before = text@;
        if o >= 100 {
            text.append(digit_text(o / 100));
            text.append(digit_text((o / 10) % 10));
            proof {
                assert(decimal((o / 100) as nat) == seq![digit_char((o / 100) as int)]);
                assert((o / 10) / 10 == o / 100);
                assert(decimal((o / 10) as nat) =~= seq![digit_char((o / 100) as int)].push(
                    digit_char(((o / 10) % 10) as int),
                ));
            }
        } else if o >= 10 {
            text.append(digit_text(o / 10));
            proof {
                assert(decimal((o / 10) as nat) == seq![digit_char((o / 10) as int)]);
            }
        }
        text.append(digit_text(o % 10));
        proof {
            if o >= 10 {
                assert(text@ =~= before + decimal((o / 10) as nat).push(digit_char((o % 10) as int)));
            } else {
                assert(text@ =~= before + decimal(o as nat));
            }
        }
        text
    }

    pub fn new(name: Name, accidental: Accidental, octave: u8) -> (r: Note)
        ensures
            r == (Note { name, accidental, octave }),
    {
        Note { name, accidental, octave }
    }

    /// The note picked by three draws: an octave, a letter (A to G) and an accidental
    /// (flat, natural, sharp).
    pub fn from_draws(octave: u8, name: u8, accidental: u8) -> (r: Note)
        requires
            name < 7,
            accidental < 3,
        ensures
            r.octave == octave,
            r.name.place() == name,
            r.accidental.place() == accidental,
    {
        let n = match Name::from_index(name) {
            Some(n) => n,
            None => Name::A,
        };
        let a = match Accidental::from_index(accidental) {
            Some(a) => a,
            None => Accidental::Natural,
        };
        Note { name: n, accidental: a, octave }
    }

    /// A note of a random letter and accidental, in one of the octaves 0 to 8.
    pub fn new_random() -> (r: Note)
        ensures
            r.octave < 9,
    {
        let octave = draw_below(9);
        let name = draw_below(7);
        let accidental = draw_below(3);
        Note::from_draws(octave, name, accidental)
    }

    /// The spelling of a key number (see `key_spelling`); keys from 21 up have one.
    pub fn from(value: u8) -> (r: Option<(Note, Option<Note>)>)
        requires
            value < 128,
        ensures
            r == key_spelling(value as int),
            r matches Some((n, f)) ==> n.index() == value && (f matches Some(g) ==> g.index()
                == value),
    {
        if value < 21 {
            return None;
        }
        let offset: u8 = value - 21;
        let octave: u8 = (value - 12) / 12;
        let number: u8 = offset % 12;
        let name = sharp_name_of(number);
        if number == 1 || number == 4 || number == 6 || number == 9 || number == 11 {
            let flat = flat_name_of(number);
            Some(
                (
                    Note { name, accidental: Accidental::Sharp, octave },
                    Some(Note { name: flat, accidental: Accidental::Flat, octave }),
                ),
            )
        } else {
            Some((Note { name, accidental: Accidental::Natural, octave }, None))
        }
    }

    /// The key number of the note (see `index`).
    pub fn pitch_index(&self) -> (r: i32)
        ensures
            r == self.index(),
    {
        let base: i32 = match self.name {
            Name::A => 9,
            Name::B => 11,
            Name::C => 0,
            Name::D => 2,
            Name::E => 4,
            Name::F => 5,
            Name::G => 7,
        };
        let offset: i32 = match self.accidental {
            Accidental::Flat => -1,
            Accidental::Natural => 0,
            Accidental::Sharp => 1,
        };
        12 + base + 12 * (self.octave as i32) + offset
    }

    /// Semitones from `note_a` up to `note_b`, which lies at most 127 semitones above it.
    pub fn interval_note(note_a: Note, note_b: Note) -> (r: i8)
        requires
            note_a.index() <= note_b.index() <= note_a.index() + 127,
        ensures
            r == note_b.index() - note_a.index(),
    {
        (note_b.pitch_index() - note_a.pitch_index()) as i8
    }

    /// Semitones from key `number_a` up to key `number_b`, at most 127 above it.
    pub fn interval_midi_number(number_a: u8, number_b: u8) -> (r: i8)
        requires
            number_a <= number_b <= number_a + 127,
        ensures
            r == number_b - number_a,
    {
        (number_b - number_a) as i8
    }
}

} // verus!
