//! Properties of chord resolution and ranking, proved over the spec functions that the
//! executable functions are verified against.

use crate::chord::{
    add_tone, added_tones, after_added_tones, aug_shape, candidate, candidates, dim_shape,
    degree_of, extension_of, insert_index, interval_between, interval_bitmap, maj_shape, min_shape,
    present_intervals, quality_of, resolve, resolve_all, resolve_root, slash_text,
    sort_by_weight, stages, sus_of, sus_shape, weight_sorted,
};
use crate::interval::Interval;
use crate::note::Note;
use vstd::prelude::*;

verus! {

/// Whether `t` occurs in `s` as a contiguous run.
pub open spec fn contains_text(s: Seq<char>, t: Seq<char>) -> bool {
    exists|i: int| 0 <= i && i + t.len() <= s.len() && #[trigger] s.subrange(i, i + t.len()) == t
}

proof fn lemma_insert_index_bound(s: Seq<(Seq<char>, nat)>, w: nat)
    ensures
        insert_index(s, w) <= s.len(),
    decreases s.len(),
{
    if s.len() > 0 && s.last().1 > w {
        lemma_insert_index_bound(s.drop_last(), w);
    }
}

proof fn lemma_sort_len(s: Seq<(Seq<char>, nat)>)
    ensures
        sort_by_weight(s).len() == s.len(),
    decreases s.len(),
{
    if s.len() > 0 {
        lemma_sort_len(s.drop_last());
        lemma_insert_index_bound(sort_by_weight(s.drop_last()), s.last().1);
    }
}

proof fn lemma_insert_index_split(t: Seq<(Seq<char>, nat)>, w: nat)
    requires
        weight_sorted(t),
    ensures
        insert_index(t, w) <= t.len(),
        forall|i: int| 0 <= i < insert_index(t, w) ==> t[i].1 <= w,
        forall|i: int| insert_index(t, w) <= i < t.len() ==> t[i].1 > w,
    decreases t.len(),
{
    if t.len() > 0 && t.last().1 > w {
        let u = t.drop_last();
        assert(weight_sorted(u));
        lemma_insert_index_split(u, w);
        assert forall|i: int| 0 <= i < insert_index(t, w) implies t[i].1 <= w by {
            assert(u[i] == t[i]);
        }
        assert forall|i: int| insert_index(t, w) <= i < t.len() implies t[i].1 > w by {
            if i < u.len() {
                assert(u[i] == t[i]);
            }
        }
    } else if t.len() > 0 {
        assert forall|i: int| 0 <= i < insert_index(t, w) implies t[i].1 <= w by {
            assert(t[i].1 <= t[t.len() - 1].1);
        }
    }
}

/// Ranking orders the readings by ascending weight.
pub proof fn lemma_sort_sorted(s: Seq<(Seq<char>, nat)>)
    ensures
        weight_sorted(sort_by_weight(s)),
    decreases s.len(),
{
    if s.len() > 0 {
        let t = sort_by_weight(s.drop_last());
        lemma_sort_sorted(s.drop_last());
        let w = s.last().1;
        lemma_insert_index_split(t, w);
        let p = insert_index(t, w) as int;
        let u = t.insert(p, s.last());
        assert forall|i: int, j: int| 0 <= i < j < u.len() implies u[i].1 <= u[j].1 by {
            if j < p {
            } else if j == p {
            } else if i < p {
                assert(u[j] == t[j - 1]);
            } else if i == p {
                assert(u[j] == t[j - 1]);
            } else {
                assert(u[i] == t[i - 1] && u[j] == t[j - 1]);
            }
        }
    }
}

/// Ranking keeps exactly the readings it is given.
pub proof fn lemma_sort_contains(s: Seq<(Seq<char>, nat)>, x: (Seq<char>, nat))
    ensures
        sort_by_weight(s).contains(x) <==> s.contains(x),
    decreases s.len(),
{
    if s.len() > 0 {
        let d = s.drop_last();
        let t = sort_by_weight(d);
        lemma_sort_contains(d, x);
        lemma_sort_len(d);
        lemma_insert_index_bound(t, s.last().1);
        let p = insert_index(t, s.last().1) as int;
        let u = t.insert(p, s.last());
        if u.contains(x) {
            let i = choose|i: int| 0 <= i < u.len() && u[i] == x;
            if i < p {
                assert(t[i] == x);
            } else if i > p {
                assert(t[i - 1] == x);
            }
            if x != s.last() {
                assert(t.contains(x));
                let k = choose|k: int| 0 <= k < d.len() && d[k] == x;
                assert(s[k] == x);
            } else {
                assert(s[s.len() - 1] == x);
            }
        }
        if s.contains(x) {
            let i = choose|i: int| 0 <= i < s.len() && s[i] == x;
            if i == s.len() - 1 {
                assert(u[p] == x);
            } else {
                assert(d[i] == x);
                assert(t.contains(x));
                let k = choose|k: int| 0 <= k < t.len() && t[k] == x;
                if k < p {
                    assert(u[k] == x);
                } else {
                    assert(u[k + 1] == x);
                }
            }
        }
    }
}

/// Each reading among the candidates is the reading above one of the notes.
proof fn lemma_candidates_from(notes: Seq<Note>, k: int, x: (Seq<char>, nat))
    requires
        0 <= k <= notes.len(),
        candidates(notes, k).contains(x),
    ensures
        exists|j: int| 0 <= j < k && candidate(notes, notes[j]) == Some(x),
    decreases k,
{
    let prev = candidates(notes, k - 1);
    if prev.contains(x) {
        lemma_candidates_from(notes, k - 1, x);
        let j = choose|j: int| 0 <= j < k - 1 && candidate(notes, notes[j]) == Some(x);
        assert(0 <= j < k && candidate(notes, notes[j]) == Some(x));
    } else {
        let c = candidates(notes, k);
        let i = choose|i: int| 0 <= i < c.len() && c[i] == x;
        if i < prev.len() {
            assert(prev[i] == x);
        }
        assert(candidate(notes, notes[k - 1]) == Some(x));
    }
}

/// The reading above each of the first `k` notes is among the candidates.
proof fn lemma_candidates_include(notes: Seq<Note>, k: int, j: int)
    requires
        0 <= j < k <= notes.len(),
        candidate(notes, notes[j]) is Some,
    ensures
        candidates(notes, k).contains(candidate(notes, notes[j])->0),
    decreases k,
{
    let prev = candidates(notes, k - 1);
    if j < k - 1 {
        lemma_candidates_include(notes, k - 1, j);
        let c = candidate(notes, notes[j])->0;
        let i = choose|i: int| 0 <= i < prev.len() && prev[i] == c;
        match candidate(notes, notes[k - 1]) {
            Some(n) => {
                assert(prev.push(n)[i] == c);
            },
            None => {},
        }
    } else {
        let c = candidate(notes, notes[j])->0;
        assert(prev.push(c)[prev.len() as int] == c);
    }
}

/// The intervals above a root depend on which notes sound, not on their order or repeats.
proof fn lemma_bitmap_same_notes(a: Seq<Note>, b: Seq<Note>, root: Note)
    requires
        forall|n: Note| a.contains(n) <==> b.contains(n),
    ensures
        interval_bitmap(a, root) == interval_bitmap(b, root),
{
    let pa = present_intervals(a, root, a.len() as int);
    let pb = present_intervals(b, root, b.len() as int);
    assert forall|iv: Interval| pa.contains(iv) implies pb.contains(iv) by {
        let j = choose|j: int| 0 <= j < a.len() && interval_between(root, a[j]) == iv;
        assert(a.contains(a[j]));
        let k = choose|k: int| 0 <= k < b.len() && b[k] == a[j];
        assert(0 <= k < b.len() && interval_between(root, b[k]) == iv);
    }
    assert forall|iv: Interval| pb.contains(iv) implies pa.contains(iv) by {
        let j = choose|j: int| 0 <= j < b.len() && interval_between(root, b[j]) == iv;
        assert(b.contains(b[j]));
        let k = choose|k: int| 0 <= k < a.len() && a[k] == b[j];
        assert(0 <= k < a.len() && interval_between(root, a[k]) == iv);
    }
    assert(pa =~= pb);
}

/// An interval set without any added-tone interval names no added tones.
proof fn lemma_no_added_tones(s: Set<Interval>, k: nat)
    requires
        forall|iv: Interval| s.contains(iv) ==> add_tone(iv) is None,
    ensures
        added_tones(s, k) == (Seq::<char>::empty(), 0nat),
    decreases k,
{
    if k > 0 {
        lemma_no_added_tones(s, (k - 1) as nat);
    }
}

/// The intervals that three notes form above the first of them.
proof fn lemma_triad_bitmap(r: Note, t: Note, f: Note)
    ensures
        interval_bitmap(seq![r, t, f], r) == set![interval_between(r, t), interval_between(
            r,
            f,
        )].remove(Interval::PerfectFirst),
{
    let n = seq![r, t, f];
    let p = present_intervals(n, r, 3);
    assert(interval_between(r, r) == Interval::PerfectFirst);
    assert(p.contains(interval_between(r, n[1])));
    assert(p.contains(interval_between(r, n[2])));
    assert(p.contains(interval_between(r, n[0])));
    assert(p.remove(Interval::PerfectFirst) =~= set![interval_between(r, t), interval_between(
        r,
        f,
    )].remove(Interval::PerfectFirst));
}

/// Readings are sorted by ascending weight, simplest first.
pub proof fn lemma_resolve_all_sorted(notes: Seq<Note>)
    ensures
        weight_sorted(resolve_all(notes)),
{
    lemma_sort_sorted(candidates(notes, notes.len() as int));
}

/// Resolution depends on nothing but the notes: resolving the same notes again gives the
/// same readings, in the same order.
pub proof fn lemma_resolution_repeatable(a: Seq<Note>, b: Seq<Note>)
    requires
        a == b,
    ensures
        resolve_all(a) == resolve_all(b),
        forall|root: Note| resolve_root(a, root) == resolve_root(b, root),
{
}

/// Neither a diminished nor an augmented reading is ever chosen: both shapes need a minor
/// third, and a minor third without a major third is read as minor before them.
pub proof fn lemma_no_diminished_or_augmented_reading(s: Set<Interval>)
    ensures
        !maj_shape(s) && !min_shape(s) ==> !dim_shape(s) && !aug_shape(s),
{
}

/// Every interval but the unison is explained by some stage: resolution never ends with
/// an interval left over.
pub proof fn lemma_every_interval_explained(s: Set<Interval>)
    requires
        !s.contains(Interval::PerfectFirst),
    ensures
        stages(s).0 == Set::<Interval>::empty(),
{
    let (s1, q1, w1, major, minor) = quality_of(s);
    let (s2, q2, w2) = sus_of(s1, q1, major, minor);
    let s3 = s2.remove(Interval::PerfectFifth);
    let (s4, ext, w4) = extension_of(s3, minor);
    assert(s1.subset_of(s) && !s1.contains(Interval::MajorThird));
    assert(s2.subset_of(s1));
    assert(s4.subset_of(s3));
    assert(after_added_tones(s4, 12) =~= Set::<Interval>::empty());
}

/// On a minor chord a lone major seventh is written in parentheses with its extension,
/// `(maj<degree>)`; on any other chord it is written `maj<degree>`, without them.
pub proof fn lemma_major_seventh_text(s: Set<Interval>, minor: bool)
    requires
        s.contains(Interval::MajorSeventh),
        !s.contains(Interval::MinorSeventh),
    ensures
        minor ==> extension_of(s, minor).1 == "(maj"@ + degree_of(
            s.remove(Interval::MajorSeventh),
        ).1 + ")"@,
        !minor ==> extension_of(s, minor).1 == "maj"@ + degree_of(
            s.remove(Interval::MajorSeventh),
        ).1,
{
    reveal_strlit("");
    let d = degree_of(s.remove(Interval::MajorSeventh)).1;
    assert("maj"@ + d + ""@ =~= "maj"@ + d);
}

/// A minor triad with a major seventh reads `<root>min(maj7)`, with weight 6.
pub proof fn lemma_minor_major_seventh(root: Note)
    ensures
        resolve(
            set![Interval::MinorThird, Interval::PerfectFifth, Interval::MajorSeventh],
            root,
        ) == Some((root.text() + "min(maj7)"@, 6nat)),
{
    reveal(resolve);
    let s = set![Interval::MinorThird, Interval::PerfectFifth, Interval::MajorSeventh];
    assert(!set![Interval::PerfectFifth].contains(Interval::MinorThird));
    let s1 = s.remove(Interval::MinorThird);
    assert(s1 =~= set![Interval::PerfectFifth, Interval::MajorSeventh]);
    assert(!sus_shape(s1));
    let s3 = s1.remove(Interval::PerfectFifth);
    assert(s3 =~= set![Interval::MajorSeventh]);
    let s4 = s3.remove(Interval::MajorSeventh);
    assert(s4 =~= Set::<Interval>::empty());
    lemma_no_added_tones(s4, 12);
    assert(after_added_tones(s4, 12) =~= Set::<Interval>::empty());
    reveal_strlit("min");
    reveal_strlit("(maj");
    reveal_strlit("7");
    reveal_strlit(")");
    reveal_strlit("min(maj7)");
    assert(quality_of(s) == (s1, "min"@, 1nat, false, true));
    assert(sus_of(s1, "min"@, false, true) == (s1, "min"@, 0nat));
    assert(extension_of(s3, true) == (s4, "(maj"@ + "7"@ + ")"@, 5nat));
    assert("min"@ + ("(maj"@ + "7"@ + ")"@) + Seq::<char>::empty() =~= "min(maj7)"@);
}

/// A major triad with a major seventh reads `<root>maj7`, with weight 6 and without
/// parentheses.
pub proof fn lemma_major_seventh(root: Note)
    ensures
        resolve(
            set![Interval::MajorThird, Interval::PerfectFifth, Interval::MajorSeventh],
            root,
        ) == Some((root.text() + "maj7"@, 6nat)),
{
    reveal(resolve);
    let s = set![Interval::MajorThird, Interval::PerfectFifth, Interval::MajorSeventh];
    assert(!set![Interval::PerfectFifth].contains(Interval::MajorThird));
    let s1 = s.remove(Interval::MajorThird);
    assert(s1 =~= set![Interval::PerfectFifth, Interval::MajorSeventh]);
    assert(!sus_shape(s1));
    let s3 = s1.remove(Interval::PerfectFifth);
    assert(s3 =~= set![Interval::MajorSeventh]);
    let s4 = s3.remove(Interval::MajorSeventh);
    assert(s4 =~= Set::<Interval>::empty());
    lemma_no_added_tones(s4, 12);
    assert(after_added_tones(s4, 12) =~= Set::<Interval>::empty());
    reveal_strlit("maj");
    reveal_strlit("7");
    reveal_strlit("");
    reveal_strlit("maj7");
    assert(quality_of(s) == (s1, Seq::<char>::empty(), 1nat, true, false));
    assert(extension_of(s3, false) == (s4, "maj"@ + "7"@ + ""@, 5nat));
    assert(Seq::<char>::empty() + ("maj"@ + "7"@ + ""@) + Seq::<char>::empty() =~= "maj7"@);
}

/// Two notes a perfect fifth apart, in either order, read above the lower one, make a
/// power chord: the root and `5`, with weight 0.
pub proof fn lemma_power_chord(r: Note, f: Note)
    requires
        interval_between(r, f) == Interval::PerfectFifth,
    ensures
        resolve_root(seq![r, f], r) == Some((r.text() + "5"@, 0nat)),
        resolve_root(seq![f, r], r) == Some((r.text() + "5"@, 0nat)),
{
    reveal(resolve);
    let n = seq![r, f];
    let p = present_intervals(n, r, 2);
    assert(interval_between(r, r) == Interval::PerfectFirst);
    assert(p.contains(interval_between(r, n[0])));
    assert(p.contains(interval_between(r, n[1])));
    assert(p.remove(Interval::PerfectFirst) =~= set![Interval::PerfectFifth]);
    let m = seq![f, r];
    assert forall|x: Note| n.contains(x) <==> m.contains(x) by {
        if n.contains(x) {
            assert(m[0] == f && m[1] == r);
        }
        if m.contains(x) {
            assert(n[0] == r && n[1] == f);
        }
    }
    lemma_bitmap_same_notes(n, m, r);
}

/// A root with its major third and perfect fifth, root in the bass, reads as the bare
/// root name with weight 1, and that is the first reading.
pub proof fn lemma_major_triad(r: Note, t: Note, f: Note)
    requires
        interval_between(r, t) == Interval::MajorThird,
        interval_between(r, f) == Interval::PerfectFifth,
    ensures
        resolve_root(seq![r, t, f], r) == Some((r.text(), 1nat)),
        resolve_all(seq![r, t, f]).len() > 0,
        resolve_all(seq![r, t, f])[0] == (r.text(), 1nat),
{
    reveal(resolve);
    let n = seq![r, t, f];
    lemma_triad_bitmap(r, t, f);
    let s = interval_bitmap(n, r);
    assert(s =~= set![Interval::MajorThird, Interval::PerfectFifth]);
    assert(!set![Interval::PerfectFifth].contains(Interval::MajorThird));
    let s1 = s.remove(Interval::MajorThird);
    assert(s1 =~= set![Interval::PerfectFifth]);
    assert(!sus_shape(s1));
    let s3 = s1.remove(Interval::PerfectFifth);
    assert(s3 =~= Set::<Interval>::empty());
    lemma_no_added_tones(s3, 12);
    assert(after_added_tones(s3, 12) =~= Set::<Interval>::empty());
    assert(r.text() + (Seq::<char>::empty() + Seq::<char>::empty() + Seq::<char>::empty())
        =~= r.text());
    lemma_first_reading_of_triad(r, t, f, r.text(), 1);
}

/// A root with its minor third and perfect fifth, root in the bass, reads as the root
/// and `min` with weight 1, and that is the first reading: the symbol holds `min` and
/// no `maj`.
pub proof fn lemma_minor_triad(r: Note, t: Note, f: Note)
    requires
        interval_between(r, t) == Interval::MinorThird,
        interval_between(r, f) == Interval::PerfectFifth,
    ensures
        resolve_root(seq![r, t, f], r) == Some((r.text() + "min"@, 1nat)),
        contains_text(r.text() + "min"@, "min"@),
        !contains_text(r.text() + "min"@, "maj"@),
        resolve_all(seq![r, t, f]).len() > 0,
        resolve_all(seq![r, t, f])[0] == (r.text() + "min"@, 1nat),
{
    reveal(resolve);
    let n = seq![r, t, f];
    lemma_triad_bitmap(r, t, f);
    let s = interval_bitmap(n, r);
    assert(s =~= set![Interval::MinorThird, Interval::PerfectFifth]);
    assert(!set![Interval::PerfectFifth].contains(Interval::MinorThird));
    let s1 = s.remove(Interval::MinorThird);
    assert(s1 =~= set![Interval::PerfectFifth]);
    assert(!sus_shape(s1));
    let s3 = s1.remove(Interval::PerfectFifth);
    assert(s3 =~= Set::<Interval>::empty());
    lemma_no_added_tones(s3, 12);
    assert(after_added_tones(s3, 12) =~= Set::<Interval>::empty());
    let label = r.text() + "min"@;
    reveal_strlit("min");
    assert(quality_of(s) == (s1, "min"@, 1nat, false, true));
    assert(sus_of(s1, "min"@, false, true) == (s1, "min"@, 0nat));
    assert(extension_of(s3, true) == (s3, Seq::<char>::empty(), 0nat));
    assert(r.text() + ("min"@ + Seq::<char>::empty() + Seq::<char>::empty()) =~= label);
    assert(resolve_root(n, r) == Some((label, 1nat)));
    assert(label.subrange(r.text().len() as int, (r.text().len() + "min"@.len()) as int) =~= "min"@);
    reveal_strlit("A");
    reveal_strlit("B");
    reveal_strlit("C");
    reveal_strlit("D");
    reveal_strlit("E");
    reveal_strlit("F");
    reveal_strlit("G");
    reveal_strlit("#");
    reveal_strlit("\u{266d}");
    reveal_strlit("");
    reveal_strlit("min");
    reveal_strlit("maj");
    assert forall|i: int| 0 <= i < label.len() implies label[i] != 'a' by {
        if i < r.name.text().len() {
        } else if i < r.text().len() {
        }
    }
    if contains_text(label, "maj"@) {
        let i = choose|i: int|
            0 <= i && i + "maj"@.len() <= label.len() && #[trigger] label.subrange(
                i,
                i + "maj"@.len(),
            ) == "maj"@;
        assert(label.subrange(i, i + 3)[1] == label[i + 1]);
    }
    lemma_first_reading_of_triad(r, t, f, label, 1);
}

/// A reading above a root other than the bass weighs at least 3.
proof fn lemma_slash_weight(notes: Seq<Note>, root: Note)
    requires
        notes.len() > 0,
        root != notes[0],
    ensures
        candidate(notes, root) matches Some(c) ==> c.1 >= 3,
{
    match resolve_root(notes, root) {
        Some((label, w)) => {
            assert(candidate(notes, root) == Some((label + slash_text(notes[0]), w + 3)));
        },
        None => {},
    }
}

/// Of the readings of three notes with the root in the bass, the one above the root
/// comes first when it weighs less than 3.
proof fn lemma_first_reading_of_triad(r: Note, t: Note, f: Note, label: Seq<char>, w: nat)
    requires
        interval_between(r, t) != Interval::PerfectFirst,
        interval_between(r, f) != Interval::PerfectFirst,
        resolve_root(seq![r, t, f], r) == Some((label, w)),
        w < 3,
    ensures
        resolve_all(seq![r, t, f]).len() > 0,
        resolve_all(seq![r, t, f])[0] == (label, w),
{
    let n = seq![r, t, f];
    let c = candidates(n, 3);
    let out = resolve_all(n);
    assert(interval_between(r, r) == Interval::PerfectFirst);
    assert(t != r && f != r);
    lemma_candidates_include(n, 3, 0);
    lemma_sort_contains(c, (label, w));
    lemma_sort_sorted(c);
    let j = choose|j: int| 0 <= j < out.len() && out[j] == (label, w);
    lemma_sort_contains(c, out[0]);
    lemma_candidates_from(n, 3, out[0]);
    let k = choose|k: int| 0 <= k < 3 && candidate(n, n[k]) == Some(out[0]);
    if k != 0 {
        assert(n[k] != n[0]);
        lemma_slash_weight(n, n[k]);
        assert(out[0].1 >= 3);
        if j > 0 {
            assert(out[0].1 <= out[j].1);
        }
    }
}

/// Read above a root that is not in the bass, a chord is written with `/` and the bass
/// note, and weighs 3 more than the same notes read with that root in the bass; with the
/// root in the bass, the reading carries no suffix.
pub proof fn lemma_inversion(notes: Seq<Note>, root_first: Seq<Note>, root: Note)
    requires
        notes.contains(root),
        root != notes[0],
        root_first.len() > 0,
        root_first[0] == root,
        forall|n: Note| notes.contains(n) <==> root_first.contains(n),
    ensures
        resolve_root(notes, root) == resolve_root(root_first, root),
        resolve_root(root_first, root) matches Some((label, w)) ==> resolve_all(notes).contains(
            (label + slash_text(notes[0]), w + 3),
        ) && resolve_all(root_first).contains((label, w)),
{
    lemma_bitmap_same_notes(notes, root_first, root);
    if resolve_root(root_first, root) is Some {
        let j = choose|j: int| 0 <= j < notes.len() && notes[j] == root;
        lemma_candidates_include(notes, notes.len() as int, j);
        lemma_sort_contains(
            candidates(notes, notes.len() as int),
            candidate(notes, notes[j])->0,
        );
        lemma_candidates_include(root_first, root_first.len() as int, 0);
        lemma_sort_contains(
            candidates(root_first, root_first.len() as int),
            candidate(root_first, root_first[0])->0,
        );
    }
}

} // verus!
