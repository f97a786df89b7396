//! The keys held on a keyboard, and the events that change them.

use crate::note::{key_spelling, Note};
use vstd::prelude::*;

verus! {

/// The kind of an input event, from the high four bits of its status byte.
#[derive(Clone, Copy, Debug, PartialEq, Eq, Structural)]
pub enum Event {
    KeyOff,
    KeyOn,
    PolyphonicKeyPressure,
    ControlChange,
    ProgramChange,
    ChannelPressure,
    PitchBendChange,
    SystemMessage,
}

/// The event kind of a status byte. Bytes below 0x80 carry no kind of their own and are
/// taken as system messages.
pub open spec fn event_of(status: u8) -> Event {
    let kind = status / 16;
    if kind == 8 {
        Event::KeyOff
    } else if kind == 9 {
        Event::KeyOn
    } else if kind == 10 {
        Event::PolyphonicKeyPressure
    } else if kind == 11 {
        Event::ControlChange
    } else if kind == 12 {
        Event::ProgramChange
    } else if kind == 13 {
        Event::ChannelPressure
    } else if kind == 14 {
        Event::PitchBendChange
    } else {
        Event::SystemMessage
    }
}

/// Splits a message into its event kind and its first data byte (the key number).
pub fn decode_message(message: &[u8]) -> (r: (Event, u8))
    requires
        message@.len() >= 2,
    ensures
        r.0 == event_of(message@[0]),
        r.1 == message@[1],
{
    let status = message[0];
    let key = message[1];
    let event = match status / 16 {
        8 => Event::KeyOff,
        9 => Event::KeyOn,
        10 => Event::PolyphonicKeyPressure,
        11 => Event::ControlChange,
        12 => Event::ProgramChange,
        13 => Event::ChannelPressure,
        14 => Event::PitchBendChange,
        _ => Event::SystemMessage,
    };
    (event, key)
}

/// The spellings of the held keys below `k`, lowest first; keys without a spelling are
/// left out.
pub open spec fn key_spellings(held: Set<int>, k: int) -> Seq<(Note, Option<Note>)>
    decreases k,
{
    if k <= 0 {
        Seq::empty()
    } else {
        let prev = key_spellings(held, k - 1);
        match key_spelling(k - 1) {
            Some(p) => if held.contains(k - 1) {
                prev.push(p)
            } else {
                prev
            },
            None => prev,
        }
    }
}

/// The notes of the held keys, lowest first, each by its natural or sharp name.
pub open spec fn held_notes(held: Set<int>) -> Seq<Note> {
    key_spellings(held, 128).map_values(|p: (Note, Option<Note>)| p.0)
}

proof fn lemma_key_remove(b: u128, k: u128, i: u128)
    by (bit_vector)
    requires
        k < 128,
        i < 128,
    ensures
        ((b & !(1u128 << k)) >> i) & 1u128 != 0u128 <==> ((b >> i) & 1u128 != 0u128 && i != k),
{
}

proof fn lemma_key_insert(b: u128, k: u128, i: u128)
    by (bit_vector)
    requires
        k < 128,
        i < 128,
    ensures
        ((b | (1u128 << k)) >> i) & 1u128 != 0u128 <==> ((b >> i) & 1u128 != 0u128 || i == k),
{
}

proof fn lemma_key_test(b: u128, k: u128)
    by (bit_vector)
    requires
        k < 128,
    ensures
        (b & (1u128 << k) != 0u128) <==> (b >> k) & 1u128 != 0u128,
{
}

proof fn lemma_no_key(i: u128)
    by (bit_vector)
    ensures
        (0u128 >> i) & 1u128 == 0u128,
{
}

/// The keys held down, one bit per key number.
pub struct MidiKeyboard(u128);

impl View for MidiKeyboard {
    type V = Set<int>;

    closed spec fn view(&self) -> Set<int> {
        Set::new(|k: int| 0 <= k < 128 && (self.0 >> (k as u128)) & 1u128 != 0u128)
    }
}

impl MidiKeyboard {
    /// A keyboard with no key held.
    pub fn empty() -> (r: MidiKeyboard)
        ensures
            r@ == Set::<int>::empty(),
    {
        let r = MidiKeyboard(0);
        proof {
            assert forall|k: int| !r@.contains(k) by {
                if 0 <= k < 128 {
                    lemma_no_key(k as u128);
                }
            }
            assert(r@ =~= Set::<int>::empty());
        }
        r
    }

    /// Whether key `key` is held.
    pub fn is_held(&self, key: u8) -> (r: bool)
        requires
            key < 128,
        ensures
            r == self@.contains(key as int),
    {
        proof {
            lemma_key_test(self.0, key as u128);
        }
        self.0 & (1u128 << key) != 0
    }

    /// Holds key `key` down and returns the notes now held.
    pub fn press(&mut self, key: u8) -> (r: Vec<Note>)
        requires
            key < 128,
        ensures
            final(self)@ == old(self)@.insert(key as int),
            r@ == held_notes(final(self)@),
    {
        let ghost before = self.0;
        self.0 = self.0 | (1u128 << key);
        proof {
            assert forall|k: int| #[trigger]
                self@.contains(k) == old(self)@.insert(key as int).contains(k) by {
                if 0 <= k < 128 {
                    lemma_key_insert(before, key as u128, k as u128);
                }
            }
            assert(self@ =~= old(self)@.insert(key as int));
        }
        self.held_notes()
    }

    /// Lets key `key` go and returns the notes still held.
    pub fn release(&mut self, key: u8) -> (r: Vec<Note>)
        requires
            key < 128,
        ensures
            final(self)@ == old(self)@.remove(key as int),
            r@ == held_notes(final(self)@),
    {
        let ghost before = self.0;
        self.0 = self.0 & !(1u128 << key);
        proof {
            assert forall|k: int| #[trigger]
                self@.contains(k) == old(self)@.remove(key as int).contains(k) by {
                if 0 <= k < 128 {
                    lemma_key_remove(before, key as u128, k as u128);
                }
            }
            assert(self@ =~= old(self)@.remove(key as int));
        }
        self.held_notes()
    }

    /// Applies an event to the keyboard. A key-on holds `key` down and a key-off lets it
    /// go; both return the notes held afterwards. Other events change nothing and return
    /// `None`.
    pub fn apply(&mut self, event: Event, key: u8) -> (r: Option<Vec<Note>>)
        requires
            key < 128,
        ensures
            event == Event::KeyOn ==> final(self)@ == old(self)@.insert(key as int),
            event == Event::KeyOff ==> final(self)@ == old(self)@.remove(key as int),
            event != Event::KeyOn && event != Event::KeyOff ==> final(self)@ == old(self)@
                && r is None,
            r matches Some(notes) ==> notes@ == held_notes(final(self)@),
            (event == Event::KeyOn || event == Event::KeyOff) ==> r is Some,
    {
        match event {
            Event::KeyOn => Some(self.press(key)),
            Event::KeyOff => Some(self.release(key)),
            _ => None,
        }
    }

    /// The spelling of each held key from the lowest A of a piano up, lowest first.
    pub fn to_notes(&self) -> (r: Vec<(Note, Option<Note>)>)
        ensures
            r@ == key_spellings(self@, 128),
    {
        let mut result: Vec<(Note, Option<Note>)> = Vec::new();
        let mut i: u8 = 0;
        while i < 128
            invariant
                i <= 128,
                result@ == key_spellings(self@, i as int),
            decreases 128 - i,
        {
            if self.is_held(i) {
                match Note::from(i) {
                    Some(n) => result.push(n),
                    None => {},
                }
            }
            i = i + 1;
        }
        result
    }

    /// The held notes, lowest first, each by its natural or sharp name.
    pub fn held_notes(&self) -> (r: Vec<Note>)
        ensures
            r@ == held_notes(self@),
    {
        let spellings = self.to_notes();
        let mut notes: Vec<Note> = Vec::new();
        let mut i: usize = 0;
        while i < spellings.len()
            invariant
                i <= spellings.len(),
                spellings@ == key_spellings(self@, 128),
                notes@ == spellings@.take(i as int).map_values(|p: (Note, Option<Note>)| p.0),
            decreases spellings.len() - i,
        {
            notes.push(spellings[i].0);
            proof {
                assert(spellings@.take(i + 1).drop_last() =~= spellings@.take(i as int));
                assert(notes@ =~= spellings@.take(i + 1).map_values(
                    |p: (Note, Option<Note>)| p.0,
                ));
            }
            i = i + 1;
        }
        proof {
            assert(spellings@.take(i as int) =~= spellings@);
        }
        notes
    }
}

} // verus!
