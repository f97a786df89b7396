//! Naming the chord formed by a set of pitches.
//!
//! For a candidate root, the intervals that the pitches form above it are gathered in an
//! `IntervalSet`. Resolution then consumes that set in fixed stages: triad quality,
//! suspension, the fifth, the seventh and its extension, and added tones. Each stage
//! removes the intervals it explains, writes part of the symbol and adds to the weight.
//! A reading succeeds only when every interval has been explained.
//!
//! The diminished and augmented tests keep their historical form (a minor third with a
//! perfect fourth, or with a minor sixth, and no perfect fifth). Both need a minor third,
//! and a minor third without a major third is always read as minor first, so neither
//! reading is ever chosen: `lemma_no_diminished_or_augmented_reading` proves it.

use crate::interval::{interval_of, Interval, IntervalSet};
use crate::lemmas::{lemma_major_seventh, lemma_minor_major_seventh};
use crate::note::Note;
use vstd::prelude::*;
use vstd::string::*;

verus! {

// ---------------------------------------------------------------------------------------
// Shape predicates on the intervals that remain at a stage.

/// A major third is present.
pub open spec fn maj_shape(s: Set<Interval>) -> bool {
    s.contains(Interval::MajorThird)
}

/// A minor third is present and a major third is not.
pub open spec fn min_shape(s: Set<Interval>) -> bool {
    s.contains(Interval::MinorThird) && !s.contains(Interval::MajorThird)
}

/// A minor third and a perfect fourth, without a perfect fifth.
pub open spec fn dim_shape(s: Set<Interval>) -> bool {
    s.contains(Interval::MinorThird) && s.contains(Interval::PerfectFourth) && !s.contains(
        Interval::PerfectFifth,
    )
}

/// A minor third and a minor sixth, without a perfect fifth.
pub open spec fn aug_shape(s: Set<Interval>) -> bool {
    s.contains(Interval::MinorThird) && s.contains(Interval::MinorSixth) && !s.contains(
        Interval::PerfectFifth,
    )
}

/// A seventh of either kind is present.
pub open spec fn has_seventh(s: Set<Interval>) -> bool {
    s.contains(Interval::MinorSeventh) || s.contains(Interval::MajorSeventh)
}

/// A second without any third, unless a major second sounds with a seventh
/// (that is read as a ninth).
pub open spec fn sus2_shape(s: Set<Interval>) -> bool {
    !s.contains(Interval::MajorThird) && !s.contains(Interval::MinorThird) && !(has_seventh(s)
        && s.contains(Interval::MajorSecond)) && (s.contains(Interval::MajorSecond) || s.contains(
        Interval::MinorSecond,
    ))
}

/// A fourth or diminished fifth without a perfect fifth, unless a perfect fourth sounds
/// with a seventh (that is read as an eleventh).
pub open spec fn sus4_shape(s: Set<Interval>) -> bool {
    !s.contains(Interval::PerfectFifth) && !(has_seventh(s) && s.contains(
        Interval::PerfectFourth,
    )) && (s.contains(Interval::PerfectFourth) || s.contains(Interval::DiminishedFifth))
}

pub open spec fn sus_shape(s: Set<Interval>) -> bool {
    sus2_shape(s) || sus4_shape(s)
}

/// The cost of a triad that lacks its fifth.
pub open spec fn fifth_penalty(s: Set<Interval>) -> nat {
    if s.contains(Interval::PerfectFifth) {
        0
    } else {
        3
    }
}

// ---------------------------------------------------------------------------------------
// The stages. Each maps the remaining intervals to what remains after it, the text it
// writes and the weight it adds.

/// Triad quality: what remains, the quality text, its weight, and whether the chord was
/// read as major or as minor.
pub open spec fn quality_of(s: Set<Interval>) -> (Set<Interval>, Seq<char>, nat, bool, bool) {
    if maj_shape(s) {
        let r = s.remove(Interval::MajorThird);
        (r, Seq::<char>::empty(), 1 + fifth_penalty(r), true, false)
    } else if min_shape(s) {
        let r = s.remove(Interval::MinorThird);
        (r, "min"@, 1 + fifth_penalty(r), false, true)
    } else if dim_shape(s) {
        (s.remove(Interval::MinorThird).remove(Interval::PerfectFourth), "dim"@, 3, false, false)
    } else if aug_shape(s) {
        (s.remove(Interval::MajorThird).remove(Interval::MinorSixth), "aug"@, 3, false, false)
    } else {
        (s, Seq::<char>::empty(), 0, false, false)
    }
}

/// The suspension text and its weight; `has_third` tells whether a major or minor
/// quality already claimed a third.
pub open spec fn suspension_of(s: Set<Interval>, has_third: bool) -> (
    Set<Interval>,
    Seq<char>,
    nat,
) {
    if sus2_shape(s) && !has_third {
        let (s1, second, w1) = if s.contains(Interval::MajorSecond) {
            (s.remove(Interval::MajorSecond), "2"@, 4nat)
        } else {
            (s.remove(Interval::MinorSecond), "\u{266d}2"@, 5nat)
        };
        if sus4_shape(s1) {
            if s1.contains(Interval::PerfectFourth) {
                (s1.remove(Interval::PerfectFourth), "sus("@ + second + "/4)"@, w1 + 4)
            } else {
                (s1.remove(Interval::DiminishedFifth), "sus("@ + second + "/#4)"@, w1 + 5)
            }
        } else {
            (s1, "sus"@ + second, w1 + fifth_penalty(s1))
        }
    } else if sus4_shape(s) && !s.contains(Interval::PerfectFifth) {
        if s.contains(Interval::PerfectFourth) {
            (s.remove(Interval::PerfectFourth), "sus4"@, 4)
        } else {
            (s.remove(Interval::DiminishedFifth), "sus#4"@, 5)
        }
    } else {
        (s, Seq::<char>::empty(), 0)
    }
}

/// Suspension stage: a suspended shape replaces the quality text, or is wrapped in it
/// for a minor chord (`min(sus4)`).
pub open spec fn sus_of(s: Set<Interval>, quality: Seq<char>, major: bool, minor: bool) -> (
    Set<Interval>,
    Seq<char>,
    nat,
) {
    if sus_shape(s) {
        let (r, sus, w) = suspension_of(s, major || minor);
        if minor {
            (r, "min("@ + sus + ")"@, w + 5)
        } else {
            (r, sus, w)
        }
    } else {
        (s, quality, 0)
    }
}

/// Extension above a seventh: the highest degree present names it. A sixth gives 13, else
/// a fourth gives 11, else a second gives 9, else plain 7. The named degree and the
/// degrees below it that sound are consumed.
pub open spec fn degree_of(s: Set<Interval>) -> (Set<Interval>, Seq<char>) {
    if s.contains(Interval::MajorSixth) {
        (
            s.remove(Interval::MajorSixth).remove(Interval::PerfectFourth).remove(
                Interval::MajorSecond,
            ),
            "13"@,
        )
    } else if s.contains(Interval::PerfectFourth) {
        (s.remove(Interval::PerfectFourth).remove(Interval::MajorSecond), "11"@)
    } else if s.contains(Interval::MajorSecond) {
        (s.remove(Interval::MajorSecond), "9"@)
    } else {
        (s, "7"@)
    }
}

/// Seventh and extension stage; `minor` tells whether the triad was read as minor. A
/// major seventh alone writes `maj` (cost 5); otherwise the minor seventh is taken
/// (cost 4). On a minor chord the major seventh is set in parentheses that close after
/// the extension, as in `min(maj9)`.
pub open spec fn extension_of(s: Set<Interval>, minor: bool) -> (Set<Interval>, Seq<char>, nat) {
    if has_seventh(s) {
        let lone_major = s.contains(Interval::MajorSeventh) && !s.contains(
            Interval::MinorSeventh,
        );
        let (s1, seventh, w) = if lone_major {
            (
                s.remove(Interval::MajorSeventh),
                if minor {
                    "(maj"@
                } else {
                    "maj"@
                },
                5nat,
            )
        } else {
            (s.remove(Interval::MinorSeventh), Seq::<char>::empty(), 4nat)
        };
        let (s2, degree) = degree_of(s1);
        let closing = if minor && lone_major {
            ")"@
        } else {
            ""@
        };
        (s2, seventh + degree + closing, w)
    } else {
        (s, Seq::<char>::empty(), 0)
    }
}

/// The text and cost of an interval named as an added tone.
pub open spec fn add_tone(iv: Interval) -> Option<(Seq<char>, nat)> {
    match iv {
        Interval::MinorSecond => Some(("(\u{266d}9)"@, 7)),
        Interval::MajorSecond => Some(("(9)"@, 6)),
        Interval::MinorThird => Some(("(#9)"@, 7)),
        Interval::PerfectFourth => Some(("(4)"@, 6)),
        Interval::DiminishedFifth => Some(("(\u{266d}5)"@, 7)),
        Interval::MinorSixth => Some(("(\u{266d}13)"@, 7)),
        Interval::MajorSixth => Some(("(13)"@, 6)),
        Interval::MinorSeventh => Some(("(7)"@, 6)),
        Interval::MajorSeventh => Some(("(maj7)"@, 7)),
        _ => None,
    }
}

/// Added tones among the intervals of `s` below `k` semitones, in ascending order, and
/// their total cost.
pub open spec fn added_tones(s: Set<Interval>, k: nat) -> (Seq<char>, nat)
    decreases k,
{
    if k == 0 {
        (Seq::<char>::empty(), 0)
    } else {
        let (text, w) = added_tones(s, (k - 1) as nat);
        let iv = interval_of(k - 1);
        match add_tone(iv) {
            Some((t, c)) => if s.contains(iv) {
                (text + t, w + c)
            } else {
                (text, w)
            },
            None => (text, w),
        }
    }
}

/// What remains of `s` once the added tones below `k` semitones are named.
pub open spec fn after_added_tones(s: Set<Interval>, k: nat) -> Set<Interval> {
    s.filter(|iv: Interval| !(add_tone(iv) is Some && iv.semitone() < k))
}

/// The stages run in order on the intervals `s`: what no stage explained, the symbol text
/// that follows the root, the total weight, and whether the reading stands on something
/// (a quality or suspension text, or a major third).
pub open spec fn stages(s: Set<Interval>) -> (Set<Interval>, Seq<char>, nat, bool) {
    let (s1, q1, w1, major, minor) = quality_of(s);
    let (s2, q2, w2) = sus_of(s1, q1, major, minor);
    let s3 = s2.remove(Interval::PerfectFifth);
    let (s4, ext, w4) = extension_of(s3, minor);
    let (add, w5) = added_tones(s4, 12);
    (after_added_tones(s4, 12), q2 + ext + add, w1 + w2 + w4 + w5, q2.len() > 0 || major)
}

/// The chord symbol and weight that the intervals `s` above `root` resolve to, if any.
/// A lone perfect fifth is a power chord. Otherwise the stages must explain every
/// interval and find a quality, a suspension or a major third to stand on.
#[verifier::opaque]
pub open spec fn resolve(s: Set<Interval>, root: Note) -> Option<(Seq<char>, nat)> {
    if s == set![Interval::PerfectFifth] {
        Some((root.text() + "5"@, 0))
    } else {
        let (rest, text, w, founded) = stages(s);
        if rest != Set::<Interval>::empty() {
            None
        } else if founded {
            Some((root.text() + text, w))
        } else {
            None
        }
    }
}

// ---------------------------------------------------------------------------------------
// The intervals that a set of pitches forms above a root.

/// The interval from `root` up to `p`, reduced to one octave.
pub open spec fn interval_between(root: Note, p: Note) -> Interval {
    interval_of(p.index() - root.index())
}

/// The intervals formed above `root` by the first `k` notes.
pub open spec fn present_intervals(notes: Seq<Note>, root: Note, k: int) -> Set<Interval> {
    Set::new(|iv: Interval| exists|j: int| 0 <= j < k && interval_between(root, notes[j]) == iv)
}

/// The intervals formed above `root` by `notes`, without the unison.
pub open spec fn interval_bitmap(notes: Seq<Note>, root: Note) -> Set<Interval> {
    present_intervals(notes, root, notes.len() as int).remove(Interval::PerfectFirst)
}

/// The chord that `notes` form when read above `root`.
pub open spec fn resolve_root(notes: Seq<Note>, root: Note) -> Option<(Seq<char>, nat)> {
    resolve(interval_bitmap(notes, root), root)
}

// ---------------------------------------------------------------------------------------
// Reading every pitch as a root, and ranking the readings.

/// The suffix naming the bass of an inversion: `/` and the bass note.
pub open spec fn slash_text(bass: Note) -> Seq<char> {
    "/"@ + bass.name.text() + bass.accidental.text()
}

/// The reading of `notes` above `root` as it is reported: a root other than the bass
/// (the first note) gets the bass suffix and costs 3 more.
pub open spec fn candidate(notes: Seq<Note>, root: Note) -> Option<(Seq<char>, nat)> {
    match resolve_root(notes, root) {
        Some((label, w)) => if root == notes[0] {
            Some((label, w))
        } else {
            Some((label + slash_text(notes[0]), w + 3))
        },
        None => None,
    }
}

/// The readings above each of the first `k` notes that resolve, in the order of the notes.
pub open spec fn candidates(notes: Seq<Note>, k: int) -> Seq<(Seq<char>, nat)>
    decreases k,
{
    if k <= 0 {
        Seq::empty()
    } else {
        let prev = candidates(notes, k - 1);
        match candidate(notes, notes[k - 1]) {
            Some(c) => prev.push(c),
            None => prev,
        }
    }
}

/// Where an item of weight `w` goes in `s`: after every item from the end that does
/// not weigh more than it.
pub open spec fn insert_index(s: Seq<(Seq<char>, nat)>, w: nat) -> nat
    decreases s.len(),
{
    if s.len() == 0 || s.last().1 <= w {
        s.len()
    } else {
        insert_index(s.drop_last(), w)
    }
}

/// Stable sort by ascending weight: items of equal weight keep their order.
pub open spec fn sort_by_weight(s: Seq<(Seq<char>, nat)>) -> Seq<(Seq<char>, nat)>
    decreases s.len(),
{
    if s.len() == 0 {
        s
    } else {
        let t = sort_by_weight(s.drop_last());
        t.insert(insert_index(t, s.last().1) as int, s.last())
    }
}

/// Every reading of `notes`, simplest first.
pub open spec fn resolve_all(notes: Seq<Note>) -> Seq<(Seq<char>, nat)> {
    sort_by_weight(candidates(notes, notes.len() as int))
}

pub open spec fn chords_view(v: Seq<(String, u32)>) -> Seq<(Seq<char>, nat)> {
    v.map_values(|c: (String, u32)| (c.0@, c.1 as nat))
}

pub open spec fn weight_sorted(s: Seq<(Seq<char>, nat)>) -> bool {
    forall|i: int, j: int| 0 <= i < j < s.len() ==> s[i].1 <= s[j].1
}

pub open spec fn chord_view(c: Option<(String, u32)>) -> Option<(Seq<char>, nat)> {
    match c {
        Some((label, w)) => Some((label@, w as nat)),
        None => None,
    }
}


// ---------------------------------------------------------------------------------------
// Executable predicates and stages.

fn is_sus(set: &IntervalSet) -> (r: bool)
    ensures
        r == sus_shape(set@),
{
    is_sus2(set) || is_sus4(set)
}

fn is_sus2(set: &IntervalSet) -> (r: bool)
    ensures
        r == sus2_shape(set@),
{
    if set.contains(Interval::MajorThird) || set.contains(Interval::MinorThird) {
        return false;
    }
    if (set.contains(Interval::MinorSeventh) || set.contains(Interval::MajorSeventh))
        && set.contains(Interval::MajorSecond) {
        return false;
    }
    set.contains(Interval::MajorSecond) || set.contains(Interval::MinorSecond)
}

fn is_sus4(set: &IntervalSet) -> (r: bool)
    ensures
        r == sus4_shape(set@),
{
    if set.contains(Interval::PerfectFifth) {
        return false;
    }
    if (set.contains(Interval::MinorSeventh) || set.contains(Interval::MajorSeventh))
        && set.contains(Interval::PerfectFourth) {
        return false;
    }
    set.contains(Interval::PerfectFourth) || set.contains(Interval::DiminishedFifth)
}

fn is_min(set: &IntervalSet) -> (r: bool)
    ensures
        r == min_shape(set@),
{
    set.contains(Interval::MinorThird) && !set.contains(Interval::MajorThird)
}

fn is_maj(set: &IntervalSet) -> (r: bool)
    ensures
        r == maj_shape(set@),
{
    set.contains(Interval::MajorThird)
}

fn is_dim(set: &IntervalSet) -> (r: bool)
    ensures
        r == dim_shape(set@),
{
    set.contains(Interval::MinorThird) && set.contains(Interval::PerfectFourth)
        && !set.contains(Interval::PerfectFifth)
}

fn is_aug(set: &IntervalSet) -> (r: bool)
    ensures
        r == aug_shape(set@),
{
    set.contains(Interval::MinorThird) && set.contains(Interval::MinorSixth)
        && !set.contains(Interval::PerfectFifth)
}

fn fifth_penalty_of(set: &IntervalSet) -> (r: u32)
    ensures
        r == fifth_penalty(set@),
{
    if set.contains(Interval::PerfectFifth) {
        0
    } else {
        3
    }
}

fn quality_stage(set: &mut IntervalSet) -> (r: (String, u32, bool, bool))
    requires
        old(set).wf(),
    ensures
        final(set).wf(),
        (final(set)@, r.0@, r.1 as nat, r.2, r.3) == quality_of(old(set)@),
{
    if is_maj(set) {
        set.remove(Interval::MajorThird);
        let w = 1 + fifth_penalty_of(set);
        (String::new(), w, true, false)
    } else if is_min(set) {
        set.remove(Interval::MinorThird);
        let w = 1 + fifth_penalty_of(set);
        (String::from_str("min"), w, false, true)
    } else if is_dim(set) {
        set.remove(Interval::MinorThird);
        set.remove(Interval::PerfectFourth);
        (String::from_str("dim"), 3, false, false)
    } else if is_aug(set) {
        set.remove(Interval::MajorThird);
        set.remove(Interval::MinorSixth);
        (String::from_str("aug"), 3, false, false)
    } else {
        (String::new(), 0, false, false)
    }
}

fn suspension_stage(set: &mut IntervalSet, has_third: bool) -> (r: (String, u32))
    requires
        old(set).wf(),
    ensures
        final(set).wf(),
        (final(set)@, r.0@, r.1 as nat) == suspension_of(old(set)@, has_third),
{
    if is_sus2(set) && !has_third {
        let second: &str;
        let w: u32;
        if set.contains(Interval::MajorSecond) {
            second = "2";
            set.remove(Interval::MajorSecond);
            w = 4;
        } else {
            second = "\u{266d}2";
            set.remove(Interval::MinorSecond);
            w = 5;
        }
        if is_sus4(set) {
            let mut text = String::from_str("sus(");
            text.append(second);
            if set.contains(Interval::PerfectFourth) {
                text.append("/4)");
                set.remove(Interval::PerfectFourth);
                (text, w + 4)
            } else {
                text.append("/#4)");
                set.remove(Interval::DiminishedFifth);
                (text, w + 5)
            }
        } else {
            let mut text = String::from_str("sus");
            text.append(second);
            let p = fifth_penalty_of(set);
            (text, w + p)
        }
    } else if is_sus4(set) && !set.contains(Interval::PerfectFifth) {
        if set.contains(Interval::PerfectFourth) {
            set.remove(Interval::PerfectFourth);
            (String::from_str("sus4"), 4)
        } else {
            set.remove(Interval::DiminishedFifth);
            (String::from_str("sus#4"), 5)
        }
    } else {
        (String::new(), 0)
    }
}

fn sus_stage(set: &mut IntervalSet, quality: String, major: bool, minor: bool) -> (r: (
    String,
    u32,
))
    requires
        old(set).wf(),
    ensures
        final(set).wf(),
        (final(set)@, r.0@, r.1 as nat) == sus_of(old(set)@, quality@, major, minor),
{
    if !is_sus(set) {
        return (quality, 0);
    }
    let (sus, w) = suspension_stage(set, major || minor);
    if minor {
        let mut text = String::from_str("min(");
        text.append(sus.as_str());
        text.append(")");
        (text, w + 5)
    } else {
        (sus, w)
    }
}

fn degree_stage(set: &mut IntervalSet) -> (r: &'static str)
    requires
        old(set).wf(),
    ensures
        final(set).wf(),
        (final(set)@, r@) == degree_of(old(set)@),
{
    if set.contains(Interval::MajorSixth) {
        set.remove(Interval::MajorSixth);
        set.remove(Interval::PerfectFourth);
        set.remove(Interval::MajorSecond);
        "13"
    } else if set.contains(Interval::PerfectFourth) {
        set.remove(Interval::PerfectFourth);
        set.remove(Interval::MajorSecond);
        "11"
    } else if set.contains(Interval::MajorSecond) {
        set.remove(Interval::MajorSecond);
        "9"
    } else {
        "7"
    }
}

fn extension_stage(set: &mut IntervalSet, minor: bool) -> (r: (String, u32))
    requires
        old(set).wf(),
    ensures
        final(set).wf(),
        (final(set)@, r.0@, r.1 as nat) == extension_of(old(set)@, minor),
{
    if !(set.contains(Interval::MajorSeventh) || set.contains(Interval::MinorSeventh)) {
        return (String::new(), 0);
    }
    let lone_major = set.contains(Interval::MajorSeventh) && !set.contains(
        Interval::MinorSeventh,
    );
    let mut text;
    let w: u32;
    if lone_major {
        text = if minor {
            String::from_str("(maj")
        } else {
            String::from_str("maj")
        };
        set.remove(Interval::MajorSeventh);
        w = 5;
    } else {
        text = String::new();
        set.remove(Interval::MinorSeventh);
        w = 4;
    }
    text.append(degree_stage(set));
    text.append(
        if minor && lone_major {
            ")"
        } else {
            ""
        },
    );
    (text, w)
}

impl Interval {
    /// The text and cost of this interval named as an added tone, if it can be one.
    pub fn add_tone(&self) -> (r: Option<(&'static str, u32)>)
        ensures
            match add_tone(*self) {
                Some((t, c)) => r matches Some((rt, rc)) && rt@ == t && rc == c,
                None => r is None,
            },
    {
        match self {
            Interval::MinorSecond => Some(("(\u{266d}9)", 7)),
            Interval::MajorSecond => Some(("(9)", 6)),
            Interval::MinorThird => Some(("(#9)", 7)),
            Interval::PerfectFourth => Some(("(4)", 6)),
            Interval::DiminishedFifth => Some(("(\u{266d}5)", 7)),
            Interval::MinorSixth => Some(("(\u{266d}13)", 7)),
            Interval::MajorSixth => Some(("(13)", 6)),
            Interval::MinorSeventh => Some(("(7)", 6)),
            Interval::MajorSeventh => Some(("(maj7)", 7)),
            _ => None,
        }
    }
}

fn added_tone_stage(set: &mut IntervalSet) -> (r: (String, u32))
    requires
        old(set).wf(),
    ensures
        final(set).wf(),
        final(set)@ == after_added_tones(old(set)@, 12),
        (r.0@, r.1 as nat) == added_tones(old(set)@, 12),
        r.1 <= 84,
{
    let ghost s0 = set@;
    let mut text = String::new();
    let mut w: u32 = 0;
    let mut k: u8 = 0;
    proof {
        assert(set@ =~= after_added_tones(s0, 0));
    }
    while k < 12
        invariant
            k <= 12,
            set.wf(),
            set@ == after_added_tones(s0, k as nat),
            (text@, w as nat) == added_tones(s0, k as nat),
            w <= 7 * k,
        decreases 12 - k,
    {
        let iv = match Interval::from_semitone(k) {
            Some(iv) => iv,
            None => Interval::PerfectFirst,
        };
        assert(iv == interval_of(k as int));
        if set.contains(iv) {
            match iv.add_tone() {
                Some((t, c)) => {
                    text.append(t);
                    w = w + c;
                    set.remove(iv);
                },
                None => {},
            }
        }
        proof {
            assert(set@ =~= after_added_tones(s0, (k + 1) as nat));
        }
        k = k + 1;
    }
    (text, w)
}

/// The note as it is written in a chord symbol: letter and accidental.
pub fn note_text(n: &Note) -> (r: String)
    ensures
        r@ == n.text(),
{
    let mut text = String::from_str(n.name.letter());
    text.append(n.accidental.glyph());
    text
}

/// The intervals that `notes` form above `root`, each reduced to one octave, without
/// the unison.
pub fn build_bitmap(notes: &Vec<Note>, root: &Note) -> (r: IntervalSet)
    ensures
        r.wf(),
        r@ == interval_bitmap(notes@, *root),
{
    let mut set = IntervalSet::new();
    let root_index = root.pitch_index();
    let mut i: usize = 0;
    proof {
        assert(set@ =~= present_intervals(notes@, *root, 0));
    }
    while i < notes.len()
        invariant
            i <= notes.len(),
            set.wf(),
            set@ == present_intervals(notes@, *root, i as int),
            root_index == root.index(),
        decreases notes.len() - i,
    {
        let ghost diff = notes@[i as int].index() - root.index();
        let mut semitone: i32 = notes[i].pitch_index() - root_index;
        while semitone < 0
            invariant
                semitone % 12 == diff % 12,
                diff >= 0 ==> semitone == diff,
                diff < 0 ==> diff <= semitone < 12,
            decreases 12 - semitone,
        {
            semitone = semitone + 12;
        }
        let iv = match Interval::from_semitone((semitone % 12) as u8) {
            Some(iv) => iv,
            None => Interval::PerfectFirst,
        };
        assert(iv == interval_between(*root, notes@[i as int]));
        set.insert(iv);
        proof {
            let next = present_intervals(notes@, *root, i + 1);
            assert forall|x: Interval| #[trigger] set@.contains(x) == next.contains(x) by {
                if next.contains(x) {
                    let j = choose|j: int| 0 <= j < i + 1 && interval_between(*root, notes@[j]) == x;
                    if j < i {
                        assert(present_intervals(notes@, *root, i as int).contains(x));
                    }
                }
                if set@.contains(x) && x != iv {
                    assert(present_intervals(notes@, *root, i as int).contains(x));
                    let j = choose|j: int| 0 <= j < i && interval_between(*root, notes@[j]) == x;
                    assert(0 <= j < i + 1 && interval_between(*root, notes@[j]) == x);
                }
            }
            assert(set@ =~= next);
        }
        i = i + 1;
    }
    set.remove(Interval::PerfectFirst);
    set
}

/// Names the chord that `notes` form above `root`, with its weight, or `None` where they
/// do not resolve to a chord.
pub fn to_chord_root(notes: &Vec<Note>, root: &Note) -> (r: Option<(String, u32)>)
    ensures
        chord_view(r) == resolve_root(notes@, *root),
        r matches Some((_, w)) ==> w <= 120,
        interval_bitmap(notes@, *root) == set![
            Interval::MinorThird,
            Interval::PerfectFifth,
            Interval::MajorSeventh,
        ] ==> chord_view(r) == Some((root.text() + "min(maj7)"@, 6nat)),
        interval_bitmap(notes@, *root) == set![
            Interval::MajorThird,
            Interval::PerfectFifth,
            Interval::MajorSeventh,
        ] ==> chord_view(r) == Some((root.text() + "maj7"@, 6nat)),
{
    proof {
        lemma_minor_major_seventh(*root);
        lemma_major_seventh(*root);
        reveal(resolve);
    }
    if notes.len() == 0 {
        proof {
            assert(interval_bitmap(notes@, *root) =~= Set::<Interval>::empty());
        }
        return None;
    }
    let mut set = build_bitmap(notes, root);
    if set.is_only(Interval::PerfectFifth) {
        let mut label = note_text(root);
        label.append("5");
        return Some((label, 0));
    }
    let (quality, w1, major, minor) = quality_stage(&mut set);
    let (quality, w2) = sus_stage(&mut set, quality, major, minor);
    set.remove(Interval::PerfectFifth);
    let (extension, w4) = extension_stage(&mut set, minor);
    let (added, w5) = added_tone_stage(&mut set);
    if !set.is_empty() {
        return None;
    }
    if quality.as_str().is_empty() && !major {
        return None;
    }
    let mut text = quality;
    text.append(extension.as_str());
    text.append(added.as_str());
    let mut label = note_text(root);
    label.append(text.as_str());
    Some((label, w1 + w2 + w4 + w5))
}

/// Places `c` in the weight-sorted `out` after every item that does not weigh more.
fn insert_by_weight(out: &mut Vec<(String, u32)>, c: (String, u32))
    ensures
        chords_view(final(out)@) == chords_view(old(out)@).insert(
            insert_index(chords_view(old(out)@), c.1 as nat) as int,
            (c.0@, c.1 as nat),
        ),
{
    let ghost t = chords_view(out@);
    let w = c.1;
    let mut i: usize = out.len();
    proof {
        assert(t.take(i as int) =~= t);
    }
    while i > 0 && out[i - 1].1 > w
        invariant
            i <= out.len(),
            t == chords_view(out@),
            insert_index(t, w as nat) == insert_index(t.take(i as int), w as nat),
        decreases i,
    {
        proof {
            assert(t.take(i as int).drop_last() =~= t.take(i - 1));
        }
        i = i - 1;
    }
    proof {
        if i > 0 {
            assert(t.take(i as int).last() == t[i - 1]);
        }
    }
    out.insert(i, c);
    proof {
        assert(chords_view(out@) =~= t.insert(i as int, (c.0@, c.1 as nat)));
    }
}

/// Every chord that `notes` form, read above each of them in turn, simplest first.
/// The first note is the bass: a chord read above another root is written with `/` and
/// the bass, and weighs 3 more.
pub fn to_chord(notes: Vec<Note>) -> (r: Vec<(String, u32)>)
    ensures
        chords_view(r@) == resolve_all(notes@),
{
    let mut out: Vec<(String, u32)> = Vec::new();
    if notes.len() == 0 {
        proof {
            assert(chords_view(out@) =~= Seq::<(Seq<char>, nat)>::empty());
        }
        return out;
    }
    let first = notes[0];
    let mut k: usize = 0;
    proof {
        assert(chords_view(out@) =~= Seq::<(Seq<char>, nat)>::empty());
    }
    while k < notes.len()
        invariant
            k <= notes.len(),
            notes.len() > 0,
            first == notes@[0],
            chords_view(out@) == sort_by_weight(candidates(notes@, k as int)),
        decreases notes.len() - k,
    {
        let root = notes[k];
        let ghost prev = candidates(notes@, k as int);
        match to_chord_root(&notes, &root) {
            Some((label, w)) => {
                if root == first {
                    insert_by_weight(&mut out, (label, w));
                } else {
                    let mut suffix = String::from_str("/");
                    suffix.append(first.name.letter());
                    suffix.append(first.accidental.glyph());
                    let mut text = label;
                    text.append(suffix.as_str());
                    insert_by_weight(&mut out, (text, w + 3));
                }
                proof {
                    let next = candidates(notes@, k + 1);
                    assert(candidate(notes@, notes@[k as int]) is Some);
                    assert(next.drop_last() =~= prev);
                    assert(next.len() > 0);
                }
            },
            None => {},
        }
        k = k + 1;
    }
    proof {
        assert(notes@.len() == notes.len());
    }
    out
}

} // verus!
