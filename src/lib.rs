//! Chord recognition: names the chord formed by a set of sounding pitches.
//!
//! - `note`: pitches as letter, accidental and octave, and their key numbers.
//! - `interval`: intervals above a root and the twelve-bit set of those present.
//! - `chord`: resolution of an interval set into a chord symbol and weight, and the
//!   ranking of the readings above every sounding pitch.
//! - `keyboard`: the keys held on an input device and the events that change them.
//! - `lemmas`: properties of resolution and ranking, proved.

pub mod interval;
pub mod note;
pub mod chord;
pub mod keyboard;
pub mod lemmas;
