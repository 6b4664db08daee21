use vstd::prelude::*;

use crate::note_or_rest::{
    duration_ticks, is_note_length, lemma_duration_ticks_bounds, lemma_small_powers, two_pow,
    BaseDuration, NoteInteraction, NoteOrRest, NoteValue,
};
use crate::pitch::Pitch;

verus! {

/// Total length in ticks of a sequence of notes and rests.
pub open spec fn total_ticks(s: Seq<NoteValue>) -> nat
    decreases s.len(),
{
    if s.len() == 0 {
        0
    } else {
        total_ticks(s.drop_last()) + duration_ticks(s.last().base_duration)
    }
}

/// Every note and rest in `s` has an implemented base duration.
pub open spec fn all_supported(s: Seq<NoteValue>) -> bool {
    forall|j: int| 0 <= j < s.len() ==> (#[trigger] s[j]).base_duration.0 <= 7
}

/// The largest `k` at most `top` with `2^k <= r` (or 0 when there is none).
pub open spec fn largest_exp_within(r: nat, top: nat) -> nat
    decreases top,
{
    if top == 0 || two_pow(top) <= r {
        top
    } else {
        largest_exp_within(r, (top - 1) as nat)
    }
}

/// The largest `k` at most `top` such that `2^k` divides `start` (or 0 when there is none).
pub open spec fn largest_exp_dividing(start: nat, top: nat) -> nat
    decreases top,
{
    if top == 0 || start % two_pow(top) == 0 {
        top
    } else {
        largest_exp_dividing(start, (top - 1) as nat)
    }
}

/// Exponent of the longest note that fits in `r` ticks and starts at tick `start`
/// on a multiple of its own length.
pub open spec fn fill_exp(start: nat, r: nat) -> nat {
    largest_exp_dividing(start, largest_exp_within(r, 7))
}

/// Every power of two is at least 1.
pub proof fn lemma_two_pow_positive(k: nat)
    ensures
        two_pow(k) >= 1,
    decreases k,
{
    if k > 0 {
        lemma_two_pow_positive((k - 1) as nat);
    }
}

/// The exponent found by `largest_exp_within` is at most `top` and its power fits in `r`.
pub proof fn lemma_largest_exp_within(r: nat, top: nat)
    requires
        r >= 1,
    ensures
        largest_exp_within(r, top) <= top,
        two_pow(largest_exp_within(r, top)) <= r,
    decreases top,
{
    if top == 0 {
        reveal_with_fuel(two_pow, 1);
    } else if two_pow(top) > r {
        lemma_largest_exp_within(r, (top - 1) as nat);
    }
}

/// The exponent found by `largest_exp_dividing` is at most `top` and its power divides `start`.
pub proof fn lemma_largest_exp_dividing(start: nat, top: nat)
    ensures
        largest_exp_dividing(start, top) <= top,
        start % two_pow(largest_exp_dividing(start, top)) == 0,
    decreases top,
{
    if top == 0 {
        reveal_with_fuel(two_pow, 1);
    } else if start % two_pow(top) != 0 {
        lemma_largest_exp_dividing(start, (top - 1) as nat);
    }
}

/// The exponent chosen for the next filling note gives a note that fits.
pub proof fn lemma_fill_exp(start: nat, r: nat)
    requires
        r >= 1,
    ensures
        fill_exp(start, r) <= 7,
        1 <= two_pow(fill_exp(start, r)) <= r,
        start % two_pow(fill_exp(start, r)) == 0,
{
    let top = largest_exp_within(r, 7);
    lemma_largest_exp_within(r, 7);
    lemma_largest_exp_dividing(start, top);
    lemma_two_pow_monotone(fill_exp(start, r), top);
    lemma_two_pow_positive(fill_exp(start, r));
}

/// Powers of two grow with the exponent.
pub proof fn lemma_two_pow_monotone(a: nat, b: nat)
    requires
        a <= b,
    ensures
        two_pow(a) <= two_pow(b),
    decreases b,
{
    if a < b {
        lemma_two_pow_monotone(a, (b - 1) as nat);
        lemma_two_pow_positive((b - 1) as nat);
    }
}

/// The notes, all with pitch `pitch`, that fill `r` ticks from tick `start`: each
/// one as long as possible while fitting in what is left and starting on a multiple
/// of its own length.
pub open spec fn fill(pitch: Option<Pitch>, start: nat, r: nat) -> Seq<NoteValue>
    decreases r,
{
    if r == 0 {
        seq![]
    } else {
        let k = fill_exp(start, r);
        let g = two_pow(k);
        proof {
            lemma_fill_exp(start, r);
        }
        seq![NoteValue { pitch, base_duration: BaseDuration((7 - k) as u8) }] + fill(
            pitch,
            start + g,
            (r - g) as nat,
        )
    }
}

/// Every filling note starts on a multiple of its own length.
pub proof fn lemma_fill_aligned(pitch: Option<Pitch>, start: nat, r: nat)
    ensures
        forall|j: int|
            0 <= j < fill(pitch, start, r).len() ==> (start + total_ticks(
                #[trigger] fill(pitch, start, r).take(j),
            )) % duration_ticks(fill(pitch, start, r)[j].base_duration) == 0,
    decreases r,
{
    if r > 0 {
        let k = fill_exp(start, r);
        let g = two_pow(k);
        lemma_fill_exp(start, r);
        let head = seq![NoteValue { pitch, base_duration: BaseDuration((7 - k) as u8) }];
        let tail = fill(pitch, start + g, (r - g) as nat);
        let f = fill(pitch, start, r);
        assert(f == head + tail);
        lemma_fill_aligned(pitch, start + g, (r - g) as nat);
        assert((7 - (7 - k)) as nat == k);
        assert forall|j: int| 0 <= j < f.len() implies (start + total_ticks(
            #[trigger] f.take(j),
        )) % duration_ticks(f[j].base_duration) == 0 by {
            if j == 0 {
                assert(f.take(0) =~= Seq::<NoteValue>::empty());
                assert(total_ticks(Seq::<NoteValue>::empty()) == 0);
            } else {
                assert(f.take(j) =~= head + tail.take(j - 1));
                lemma_total_ticks_concat(head, tail.take(j - 1));
                lemma_total_ticks_single(head[0]);
                assert(f[j] == tail[j - 1]);
                assert(start + total_ticks(f.take(j)) == (start + g) + total_ticks(tail.take(j - 1)));
            }
        }
    }
}

/// How many of the notes in `rest` are taken up, one after another, until at least
/// `extra` ticks are covered.
pub open spec fn absorbed(rest: Seq<NoteValue>, extra: int) -> nat
    decreases rest.len(),
{
    if extra <= 0 || rest.len() == 0 {
        0
    } else {
        1 + absorbed(rest.drop_first(), extra - duration_ticks(rest[0].base_duration))
    }
}

/// The notes of a bar after the note at `i` is given base duration `d`.
///
/// The change is refused (the bar stays as it is) unless the notes from `i` to the
/// end of the bar last at least as long as the new duration; past the last note
/// nothing does. Shortening the note
/// fills the freed time with rests; lengthening it removes the following notes until
/// the extra time is covered, and fills any time removed beyond that with notes of
/// the pitch of the last note removed. Filling uses `fill`, starting right after the
/// changed note.
pub open spec fn with_base_duration(notes: Seq<NoteValue>, i: int, d: BaseDuration) -> Seq<NoteValue> {
    let old_d = notes[i].base_duration;
    let changed = NoteValue { pitch: notes[i].pitch, base_duration: d };
    let start = total_ticks(notes.take(i)) + duration_ticks(d);
    if i >= notes.len() || total_ticks(notes.skip(i)) < duration_ticks(d) {
        notes
    } else if d.0 >= old_d.0 {
        notes.take(i).push(changed) + fill(
            None,
            start,
            (duration_ticks(old_d) - duration_ticks(d)) as nat,
        ) + notes.skip(i + 1)
    } else {
        let rest = notes.skip(i + 1);
        let extra = duration_ticks(d) - duration_ticks(old_d);
        let c = absorbed(rest, extra);
        notes.take(i).push(changed) + fill(
            rest[c - 1].pitch,
            start,
            (total_ticks(rest.take(c as int)) - extra) as nat,
        ) + rest.skip(c as int)
    }
}

/// The length of two sequences played one after the other is the sum of their lengths.
pub proof fn lemma_total_ticks_concat(a: Seq<NoteValue>, b: Seq<NoteValue>)
    ensures
        total_ticks(a + b) == total_ticks(a) + total_ticks(b),
    decreases b.len(),
{
    if b.len() == 0 {
        assert(a + b =~= a);
    } else {
        lemma_total_ticks_concat(a, b.drop_last());
        assert((a + b).drop_last() =~= a + b.drop_last());
    }
}

/// A single note lasts its own length.
pub proof fn lemma_total_ticks_single(n: NoteValue)
    ensures
        total_ticks(seq![n]) == duration_ticks(n.base_duration),
{
    assert(seq![n].drop_last() =~= Seq::<NoteValue>::empty());
    assert(total_ticks(Seq::<NoteValue>::empty()) == 0);
}

/// The length of a sequence is the length of its first note plus that of the rest.
pub proof fn lemma_total_ticks_first(s: Seq<NoteValue>)
    requires
        s.len() > 0,
    ensures
        total_ticks(s) == duration_ticks(s[0].base_duration) + total_ticks(s.drop_first()),
{
    assert(s =~= seq![s[0]] + s.drop_first());
    lemma_total_ticks_concat(seq![s[0]], s.drop_first());
    lemma_total_ticks_single(s[0]);
}

/// The length of a sequence is the length of any prefix plus that of what follows it.
pub proof fn lemma_total_ticks_split(s: Seq<NoteValue>, k: int)
    requires
        0 <= k <= s.len(),
    ensures
        total_ticks(s) == total_ticks(s.take(k)) + total_ticks(s.skip(k)),
{
    assert(s =~= s.take(k) + s.skip(k));
    lemma_total_ticks_concat(s.take(k), s.skip(k));
}

/// The filling notes last exactly the time they fill, and each has an implemented duration.
pub proof fn lemma_fill(pitch: Option<Pitch>, start: nat, r: nat)
    ensures
        total_ticks(fill(pitch, start, r)) == r,
        all_supported(fill(pitch, start, r)),
    decreases r,
{
    if r > 0 {
        let k = fill_exp(start, r);
        let g = two_pow(k);
        lemma_fill_exp(start, r);
        lemma_fill(pitch, start + g, (r - g) as nat);
        let head = seq![NoteValue { pitch, base_duration: BaseDuration((7 - k) as u8) }];
        lemma_total_ticks_concat(head, fill(pitch, start + g, (r - g) as nat));
        lemma_total_ticks_single(head[0]);
        assert((7 - (7 - k)) as nat == k);
        assert(fill(pitch, start, r) == head + fill(pitch, start + g, (r - g) as nat));
    }
}

/// Taking up notes one after another until `extra` ticks are covered stops within
/// the sequence, after at least one note, and covers at least `extra` ticks, while
/// the notes taken before the last one do not yet cover them.
pub proof fn lemma_absorbed(rest: Seq<NoteValue>, extra: int)
    requires
        0 < extra <= total_ticks(rest),
    ensures
        1 <= absorbed(rest, extra) <= rest.len(),
        total_ticks(rest.take(absorbed(rest, extra) as int)) >= extra,
        total_ticks(rest.take(absorbed(rest, extra) - 1)) < extra,
    decreases rest.len(),
{
    if rest.len() == 0 {
        assert(total_ticks(rest) == 0);
    } else {
        let t = duration_ticks(rest[0].base_duration);
        lemma_total_ticks_first(rest);
        if extra - t > 0 {
            lemma_absorbed(rest.drop_first(), extra - t);
        }
        let c = absorbed(rest, extra);
        lemma_total_ticks_first(rest.take(c as int));
        assert(rest.take(c as int).drop_first() =~= rest.drop_first().take(c - 1));
        if c - 1 == 0 {
            assert(total_ticks(rest.drop_first().take(0)) == 0);
            assert(rest.take(0) =~= Seq::<NoteValue>::empty());
            assert(total_ticks(Seq::<NoteValue>::empty()) == 0);
        } else {
            lemma_total_ticks_first(rest.take(c - 1));
            assert(rest.take(c - 1).drop_first() =~= rest.drop_first().take(c - 2));
        }
    }
}

/// A longer prefix of a sequence lasts at least as long as a shorter one.
pub proof fn lemma_total_ticks_prefix_monotone(s: Seq<NoteValue>, p: int, q: int)
    requires
        0 <= p <= q <= s.len(),
    ensures
        total_ticks(s.take(p)) <= total_ticks(s.take(q)),
{
    lemma_total_ticks_split(s.take(q), p);
    assert(s.take(q).take(p) =~= s.take(p));
}

/// `c` is the fewest notes from the start of `rest` that together last at least
/// `extra` ticks: the first `c` cover them and the first `c - 1` do not.
pub open spec fn covers_fewest(rest: Seq<NoteValue>, extra: int, c: int) -> bool {
    &&& 1 <= c <= rest.len()
    &&& total_ticks(rest.take(c - 1)) < extra
    &&& extra <= total_ticks(rest.take(c))
}

/// Only one count of notes is the fewest that cover a given time.
pub proof fn lemma_covers_fewest_unique(rest: Seq<NoteValue>, extra: int, a: int, b: int)
    requires
        covers_fewest(rest, extra, a),
        covers_fewest(rest, extra, b),
    ensures
        a == b,
{
    if a < b {
        lemma_total_ticks_prefix_monotone(rest, a, b - 1);
    } else if b < a {
        lemma_total_ticks_prefix_monotone(rest, b, a - 1);
    }
}

/// Changing the duration of a note never changes how long the bar lasts.
pub proof fn lemma_with_base_duration_keeps_total(notes: Seq<NoteValue>, i: int, d: BaseDuration)
    requires
        0 <= i < notes.len(),
        all_supported(notes),
        d.0 <= 7,
    ensures
        total_ticks(with_base_duration(notes, i, d)) == total_ticks(notes),
{
    let old_d = notes[i].base_duration;
    let changed = NoteValue { pitch: notes[i].pitch, base_duration: d };
    let start = total_ticks(notes.take(i)) + duration_ticks(d);
    let result = with_base_duration(notes, i, d);
    lemma_total_ticks_split(notes, i);
    assert(notes.skip(i).drop_first() =~= notes.skip(i + 1));
    lemma_total_ticks_first(notes.skip(i));
    lemma_total_ticks_concat(notes.take(i), seq![changed]);
    lemma_total_ticks_single(changed);
    assert(notes.take(i) + seq![changed] =~= notes.take(i).push(changed));
    lemma_duration_ticks_bounds(d);
    lemma_duration_ticks_bounds(old_d);
    if total_ticks(notes.skip(i)) < duration_ticks(d) {
    } else if d.0 >= old_d.0 {
        if old_d.0 < d.0 {
            crate::note_or_rest::lemma_duration_ticks_order(old_d, d);
        }
        let r = (duration_ticks(old_d) - duration_ticks(d)) as nat;
        lemma_fill(None, start, r);
        lemma_total_ticks_concat(notes.take(i).push(changed), fill(None, start, r));
        lemma_total_ticks_concat(
            notes.take(i).push(changed) + fill(None, start, r),
            notes.skip(i + 1),
        );
    } else {
        crate::note_or_rest::lemma_duration_ticks_order(d, old_d);
        let rest = notes.skip(i + 1);
        let extra = duration_ticks(d) - duration_ticks(old_d);
        lemma_absorbed(rest, extra);
        let c = absorbed(rest, extra);
        let r = (total_ticks(rest.take(c as int)) - extra) as nat;
        lemma_total_ticks_split(rest, c as int);
        lemma_fill(rest[c - 1].pitch, start, r);
        lemma_total_ticks_concat(notes.take(i).push(changed), fill(rest[c - 1].pitch, start, r));
        lemma_total_ticks_concat(
            notes.take(i).push(changed) + fill(rest[c - 1].pitch, start, r),
            rest.skip(c as int),
        );
    }
}

/// Changing the duration of a note leaves the notes before it as they were; unless
/// the change is refused, the note itself keeps its pitch and gets the new duration.
/// A refused change leaves the whole bar as it was.
pub proof fn lemma_with_base_duration_shape(notes: Seq<NoteValue>, i: int, d: BaseDuration)
    requires
        0 <= i < notes.len(),
        all_supported(notes),
        d.0 <= 7,
    ensures
        with_base_duration(notes, i, d).len() > i,
        with_base_duration(notes, i, d).take(i) == notes.take(i),
        total_ticks(notes.skip(i)) >= duration_ticks(d) ==> with_base_duration(notes, i, d)[i]
            == (NoteValue { pitch: notes[i].pitch, base_duration: d }),
        total_ticks(notes.skip(i)) < duration_ticks(d) ==> with_base_duration(notes, i, d)
            == notes,
        all_supported(with_base_duration(notes, i, d)),
{
    let old_d = notes[i].base_duration;
    let changed = NoteValue { pitch: notes[i].pitch, base_duration: d };
    let start = total_ticks(notes.take(i)) + duration_ticks(d);
    let result = with_base_duration(notes, i, d);
    let prefix = notes.take(i).push(changed);
    if total_ticks(notes.skip(i)) >= duration_ticks(d) {
        let (f, tail) = if d.0 >= old_d.0 {
            (fill(None, start, (duration_ticks(old_d) - duration_ticks(d)) as nat), notes.skip(i + 1))
        } else {
            let rest = notes.skip(i + 1);
            let extra = duration_ticks(d) - duration_ticks(old_d);
            let c = absorbed(rest, extra);
            (fill(rest[c - 1].pitch, start, (total_ticks(rest.take(c as int)) - extra) as nat), rest.skip(c as int))
        };
        assert(result == prefix + f + tail);
        lemma_fill(None, start, (duration_ticks(old_d) - duration_ticks(d)) as nat);
        if d.0 < old_d.0 {
            let rest = notes.skip(i + 1);
            let extra = duration_ticks(d) - duration_ticks(old_d);
            assert(notes.skip(i).drop_first() =~= notes.skip(i + 1));
            lemma_total_ticks_first(notes.skip(i));
            lemma_duration_ticks_bounds(d);
            lemma_duration_ticks_bounds(old_d);
            crate::note_or_rest::lemma_duration_ticks_order(d, old_d);
            lemma_absorbed(rest, extra);
            let c = absorbed(rest, extra);
            lemma_fill(rest[c - 1].pitch, start, (total_ticks(rest.take(c as int)) - extra) as nat);
        }
        assert(result.take(i) =~= notes.take(i));
        assert(result[i] == changed);
        assert forall|j: int| 0 <= j < result.len() implies (#[trigger] result[j]).base_duration.0
            <= 7 by {
            if j < prefix.len() {
                assert(result[j] == prefix[j]);
            } else if j < prefix.len() + f.len() {
                assert(result[j] == f[j - prefix.len()]);
            } else {
                assert(result[j] == tail[j - prefix.len() - f.len()]);
            }
        }
    }
}

/// Giving a note the duration it already has leaves the bar as it was.
pub proof fn lemma_with_same_base_duration(notes: Seq<NoteValue>, i: int)
    requires
        0 <= i < notes.len(),
        all_supported(notes),
    ensures
        with_base_duration(notes, i, notes[i].base_duration) == notes,
{
    let d = notes[i].base_duration;
    let changed = NoteValue { pitch: notes[i].pitch, base_duration: d };
    assert(changed == notes[i]);
    assert(fill(None, total_ticks(notes.take(i)) + duration_ticks(d), 0) =~= Seq::<
        NoteValue,
    >::empty());
    assert(notes.take(i).push(changed) + Seq::<NoteValue>::empty() + notes.skip(i + 1) =~= notes);
}

/// The note at `j` of `f` is a greedy step of filling `r` ticks from tick `start`
/// with notes of pitch `pitch`: it starts on a multiple of its own length, fits in
/// what is left, and a note twice as long would be past a whole note, would not fit,
/// or would not start on a multiple of its length.
pub open spec fn greedy_note(f: Seq<NoteValue>, pitch: Option<Pitch>, start: nat, r: nat, j: int) -> bool {
    let t = duration_ticks(f[j].base_duration);
    let done = total_ticks(f.take(j));
    &&& f[j].pitch == pitch
    &&& f[j].base_duration.0 <= 7
    &&& (start + done) % t == 0
    &&& done + t <= r
    &&& (f[j].base_duration.0 == 0 || done + 2 * t > r || (start + done) % (2 * t) != 0)
}

/// `f` fills exactly `r` ticks from tick `start` with notes of pitch `pitch`, each
/// one the longest note that fits in what is left and starts on a multiple of its
/// own length.
pub open spec fn is_greedy_fill(f: Seq<NoteValue>, pitch: Option<Pitch>, start: nat, r: nat) -> bool {
    &&& total_ticks(f) == r
    &&& forall|j: int| 0 <= j < f.len() ==> #[trigger] greedy_note(f, pitch, start, r, j)
}

/// When `largest_exp_within` stops below `top`, the next power up does not fit in `r`.
pub proof fn lemma_largest_exp_within_max(r: nat, top: nat)
    ensures
        largest_exp_within(r, top) < top ==> two_pow(largest_exp_within(r, top) + 1) > r,
    decreases top,
{
    if top > 0 && two_pow(top) > r {
        lemma_largest_exp_within_max(r, (top - 1) as nat);
    }
}

/// When `largest_exp_dividing` stops below `top`, the next power up does not divide `start`.
pub proof fn lemma_largest_exp_dividing_max(start: nat, top: nat)
    ensures
        largest_exp_dividing(start, top) < top ==> start % two_pow(largest_exp_dividing(start, top) + 1)
            != 0,
    decreases top,
{
    if top > 0 && start % two_pow(top) != 0 {
        lemma_largest_exp_dividing_max(start, (top - 1) as nat);
    }
}

/// The note chosen to fill from `start` cannot be doubled: doubling it would pass a
/// whole note, not fit in `r`, or not start on a multiple of its length.
pub proof fn lemma_fill_exp_max(start: nat, r: nat)
    requires
        r >= 1,
    ensures
        fill_exp(start, r) == 7 || two_pow(fill_exp(start, r) + 1) > r || start % two_pow(
            fill_exp(start, r) + 1,
        ) != 0,
{
    let top = largest_exp_within(r, 7);
    lemma_largest_exp_within(r, 7);
    lemma_largest_exp_within_max(r, 7);
    lemma_largest_exp_dividing(start, top);
    lemma_largest_exp_dividing_max(start, top);
}

/// `fill` fills its time greedily: every note is the longest that fits and starts on a
/// multiple of its own length.
pub proof fn lemma_fill_is_greedy(pitch: Option<Pitch>, start: nat, r: nat)
    ensures
        is_greedy_fill(fill(pitch, start, r), pitch, start, r),
    decreases r,
{
    lemma_fill(pitch, start, r);
    if r > 0 {
        let k = fill_exp(start, r);
        let g = two_pow(k);
        lemma_fill_exp(start, r);
        lemma_fill_exp_max(start, r);
        let head = seq![NoteValue { pitch, base_duration: BaseDuration((7 - k) as u8) }];
        let tail = fill(pitch, start + g, (r - g) as nat);
        let f = fill(pitch, start, r);
        assert(f == head + tail);
        lemma_fill_is_greedy(pitch, start + g, (r - g) as nat);
        assert((7 - (7 - k)) as nat == k);
        assert(two_pow(k + 1) == 2 * g);
        assert forall|j: int| 0 <= j < f.len() implies #[trigger] greedy_note(f, pitch, start, r, j) by {
            if j == 0 {
                assert(f.take(0) =~= Seq::<NoteValue>::empty());
                assert(total_ticks(Seq::<NoteValue>::empty()) == 0);
                assert(duration_ticks(f[0].base_duration) == g);
            } else {
                assert(greedy_note(tail, pitch, start + g, (r - g) as nat, j - 1));
                assert(f.take(j) =~= head + tail.take(j - 1));
                lemma_total_ticks_concat(head, tail.take(j - 1));
                lemma_total_ticks_single(head[0]);
                assert(f[j] == tail[j - 1]);
                assert(total_ticks(f.take(j)) == g + total_ticks(tail.take(j - 1)));
            }
        }
    }
}

/// Shortening a note is never refused: the note keeps its pitch and gets the new
/// duration, the notes after it stay as they were, and the freed time between them
/// is filled greedily with rests starting right after the shortened note.
pub proof fn lemma_shortening(notes: Seq<NoteValue>, i: int, d: BaseDuration)
    requires
        0 <= i < notes.len(),
        all_supported(notes),
        notes[i].base_duration.0 <= d.0 <= 7,
    ensures
        exists|f: Seq<NoteValue>|
            #[trigger] is_greedy_fill(
                f,
                None,
                total_ticks(notes.take(i)) + duration_ticks(d),
                (duration_ticks(notes[i].base_duration) - duration_ticks(d)) as nat,
            ) && with_base_duration(notes, i, d) == notes.take(i).push(
                NoteValue { pitch: notes[i].pitch, base_duration: d },
            ) + f + notes.skip(i + 1),
{
    let old_d = notes[i].base_duration;
    let start = total_ticks(notes.take(i)) + duration_ticks(d);
    let r = (duration_ticks(old_d) - duration_ticks(d)) as nat;
    if old_d.0 < d.0 {
        crate::note_or_rest::lemma_duration_ticks_order(old_d, d);
    }
    assert(notes.skip(i).drop_first() =~= notes.skip(i + 1));
    lemma_total_ticks_first(notes.skip(i));
    lemma_fill_is_greedy(None, start, r);
    let f = fill(None, start, r);
    assert(is_greedy_fill(f, None, start, r));
}

/// Lengthening a note, when the bar has room for it, removes the fewest following
/// notes that together cover the extra time (say `c` of them) and no more; the note
/// keeps its pitch and gets the new duration; whatever the removed notes lasted
/// beyond the extra time is filled greedily, right after the lengthened note, with
/// notes of the pitch of the last note removed; the notes after the removed ones stay
/// as they were. When the removed notes cover the extra time exactly, nothing is
/// filled in.
pub proof fn lemma_lengthening(notes: Seq<NoteValue>, i: int, d: BaseDuration, c: int)
    requires
        0 <= i < notes.len(),
        all_supported(notes),
        d.0 < notes[i].base_duration.0,
        total_ticks(notes.skip(i)) >= duration_ticks(d),
        covers_fewest(
            notes.skip(i + 1),
            duration_ticks(d) - duration_ticks(notes[i].base_duration),
            c,
        ),
    ensures
        exists|f: Seq<NoteValue>|
            #[trigger] is_greedy_fill(
                f,
                notes[i + c].pitch,
                total_ticks(notes.take(i)) + duration_ticks(d),
                (total_ticks(notes.skip(i + 1).take(c)) - (duration_ticks(d) - duration_ticks(
                    notes[i].base_duration,
                ))) as nat,
            ) && with_base_duration(notes, i, d) == notes.take(i).push(
                NoteValue { pitch: notes[i].pitch, base_duration: d },
            ) + f + notes.skip(i + 1 + c),
        total_ticks(notes.skip(i + 1).take(c)) == duration_ticks(d) - duration_ticks(
            notes[i].base_duration,
        ) ==> with_base_duration(notes, i, d) == notes.take(i).push(
            NoteValue { pitch: notes[i].pitch, base_duration: d },
        ) + notes.skip(i + 1 + c),
{
    let old_d = notes[i].base_duration;
    let changed = NoteValue { pitch: notes[i].pitch, base_duration: d };
    let start = total_ticks(notes.take(i)) + duration_ticks(d);
    let rest = notes.skip(i + 1);
    let extra = duration_ticks(d) - duration_ticks(old_d);
    crate::note_or_rest::lemma_duration_ticks_order(d, old_d);
    assert(notes.skip(i).drop_first() =~= rest);
    lemma_total_ticks_first(notes.skip(i));
    lemma_absorbed(rest, extra);
    let a = absorbed(rest, extra);
    lemma_covers_fewest_unique(rest, extra, a as int, c);
    assert(rest[c - 1] == notes[i + c]);
    assert(rest.skip(c) =~= notes.skip(i + 1 + c));
    let r = (total_ticks(rest.take(c)) - extra) as nat;
    let f = fill(notes[i + c].pitch, start, r);
    lemma_fill_is_greedy(notes[i + c].pitch, start, r);
    assert(with_base_duration(notes, i, d) == notes.take(i).push(changed) + f + notes.skip(i + 1 + c));
    assert(is_greedy_fill(f, notes[i + c].pitch, start, r));
    if r == 0 {
        assert(f =~= Seq::<NoteValue>::empty());
        assert(notes.take(i).push(changed) + f =~= notes.take(i).push(changed));
    }
}

/// `2^k` for the exponents of implemented note lengths.
fn ticks_of_exp(k: u32) -> (r: u32)
    requires
        k <= 7,
    ensures
        r as nat == two_pow(k as nat),
        is_note_length(r as nat),
{
    proof {
        lemma_small_powers();
    }
    match k {
        0 => 1,
        1 => 2,
        2 => 4,
        3 => 8,
        4 => 16,
        5 => 32,
        6 => 64,
        _ => 128,
    }
}

#[derive(Debug)]
pub struct Bar {
    // notes should be ordered by start
    notes: Vec<NoteOrRest>,
}

impl View for Bar {
    type V = Seq<NoteValue>;

    closed spec fn view(&self) -> Seq<NoteValue> {
        self.notes@.map_values(|n: NoteOrRest| n@)
    }
}

impl Bar {
    proof fn lemma_view(&self)
        ensures
            self@.len() == self.notes@.len(),
            forall|j: int| 0 <= j < self@.len() ==> #[trigger] self@[j] == self.notes@[j]@,
    {
    }

    pub fn new(notes: Vec<NoteOrRest>) -> (r: Self)
        ensures
            r@ == notes@.map_values(|n: NoteOrRest| n@),
    {
        Bar { notes }
    }

    /// The notes and rests of the bar, in the order they are played.
    pub fn get_notes(&self) -> (r: &Vec<NoteOrRest>)
        ensures
            r@.map_values(|n: NoteOrRest| n@) == self@,
    {
        &self.notes
    }

    /// Setting pitch to None changes the note to a rest
    pub fn set_note_pitch(&mut self, note_index: usize, pitch: Option<Pitch>)
        requires
            note_index < old(self)@.len(),
        ensures
            final(self)@ == old(self)@.update(
                note_index as int,
                NoteValue { pitch, base_duration: old(self)@[note_index as int].base_duration },
            ),
    {
        self.notes[note_index].set_pitch(pitch);
        proof {
            assert(self@ =~= old(self)@.update(
                note_index as int,
                NoteValue { pitch, base_duration: old(self)@[note_index as int].base_duration },
            ));
        }
    }

    /// Changes the base duration of the note at `note_index`, keeping the bar's
    /// total length: see `with_base_duration`.
    pub fn set_note_base_duration(&mut self, note_index: usize, base_duration: BaseDuration)
        requires
            note_index <= old(self)@.len(),
            note_index < old(self)@.len() ==> base_duration.0 <= 7,
            all_supported(old(self)@),
        ensures
            final(self)@ == with_base_duration(old(self)@, note_index as int, base_duration),
            all_supported(final(self)@),
            old(self)@.len() > 0 ==> final(self)@.len() > 0,
    {
        let ghost notes0 = self@;
        proof {
            self.lemma_view();
        }
        let i = note_index;
        let len = self.notes.len();
        if i == len {
            // No notes from here on, so nothing lasts as long as the new duration.
            return;
        }

        // If there aren't enough beats in the bar to change this note duration, then don't do
        // anything
        let mut beats_after: u128 = 0;
        let mut k: usize = i;
        while k < len
            invariant
                i <= k <= len,
                len == self@.len(),
                self@ == notes0,
                all_supported(notes0),
                beats_after == total_ticks(notes0.subrange(i as int, k as int)),
                beats_after <= 128 * (k - i),
            decreases len - k,
        {
            proof {
                self.lemma_view();
                assert(notes0.subrange(i as int, k + 1).drop_last() =~= notes0.subrange(
                    i as int,
                    k as int,
                ));
                assert(self.notes@[k as int]@ == notes0[k as int]);
                lemma_duration_ticks_bounds(notes0[k as int].base_duration);
            }
            let t = self.notes[k].get_base_duration().get_duration_ticks();
            beats_after = beats_after + t as u128;
            k = k + 1;
        }
        proof {
            assert(notes0.subrange(i as int, len as int) =~= notes0.skip(i as int));
        }
        let new_ticks = base_duration.get_duration_ticks();
        if beats_after < new_ticks as u128 {
            return;
        }
        // If we need to add back some notes/rests after removing too many beats
        // Then we will need to keep track of these

        let mut replenish_pitch: Option<Pitch> = None;
        let mut replenish: u128;

        let prev_base_duration = self.notes[i].get_base_duration();
        let prev_ticks = prev_base_duration.get_duration_ticks();
        self.notes[i].set_base_duration(base_duration);

        let ghost changed = NoteValue { pitch: notes0[i as int].pitch, base_duration };
        let ghost prefix = notes0.take(i as int).push(changed);
        let ghost mut tail = notes0.skip(i + 1);
        proof {
            assert(self@ =~= prefix + notes0.skip(i + 1));
            assert(notes0.skip(i as int).drop_first() =~= notes0.skip(i + 1));
            lemma_total_ticks_first(notes0.skip(i as int));
            lemma_duration_ticks_bounds(prev_base_duration);
            lemma_duration_ticks_bounds(base_duration);
            if base_duration.0 < prev_base_duration.0 {
                crate::note_or_rest::lemma_duration_ticks_order(base_duration, prev_base_duration);
            } else if prev_base_duration.0 < base_duration.0 {
                crate::note_or_rest::lemma_duration_ticks_order(prev_base_duration, base_duration);
            }
        }

        if base_duration <= prev_base_duration {
            // Shortening
            replenish = (prev_ticks - new_ticks) as u128;
        } else {
            // Lengthening
            // Keep removing notes until we have enough space
            let extra = (new_ticks - prev_ticks) as u128;
            let next = i + 1;
            let ghost rest = notes0.skip(i + 1);
            let ghost mut m: int = 0;
            let mut removed: u128 = 0;
            proof {
                assert(rest.take(0) =~= Seq::<NoteValue>::empty());
                assert(rest.skip(0) =~= rest);
                assert(total_ticks(Seq::<NoteValue>::empty()) == 0);
            }
            while removed < extra
                invariant
                    self@ == prefix + rest.skip(m),
                    prefix.len() == next,
                    next == i + 1,
                    rest == notes0.skip(i + 1),
                    all_supported(notes0),
                    i < notes0.len(),
                    0 <= m <= rest.len(),
                    removed == total_ticks(rest.take(m)),
                    absorbed(rest, extra as int) == m + absorbed(rest.skip(m), extra - removed),
                    total_ticks(rest) >= extra,
                    0 < extra <= 128,
                    m > 0 ==> replenish_pitch == rest[m - 1].pitch,
                    m > 0 ==> removed < extra + duration_ticks(rest[m - 1].base_duration),
                    m == 0 ==> removed == 0,
                decreases rest.len() - m,
            {
                proof {
                    self.lemma_view();
                    lemma_total_ticks_split(rest, m);
                    if rest.skip(m).len() == 0 {
                        assert(total_ticks(rest.skip(m)) == 0);
                    }
                    assert(self@[next as int] == rest[m]);
                    assert(self.notes@[next as int]@ == self@[next as int]);
                    lemma_duration_ticks_bounds(rest[m].base_duration);
                }
                replenish_pitch = self.notes[next].get_pitch();
                let t = self.notes[next].get_base_duration().get_duration_ticks();
                removed = removed + t as u128;
                let ghost before = self@;
                self.notes.remove(next);
                proof {
                    self.lemma_view();
                    assert(self@ =~= before.remove(next as int));
                    assert(rest.skip(m).drop_first() =~= rest.skip(m + 1));
                    assert(rest.take(m + 1).drop_last() =~= rest.take(m));
                    assert(rest.skip(m)[0] == rest[m]);
                    m = m + 1;
                    assert(self@ =~= prefix + rest.skip(m));
                }
            }
            // In case we remove too many beats
            replenish = removed - extra;
            proof {
                assert(m > 0);
                assert(absorbed(rest, extra as int) == m);
                tail = rest.skip(m);
                lemma_duration_ticks_bounds(rest[m - 1].base_duration);
            }
        }

        // Replenish the notes if we removed too many beats
        let mut replenish_i: usize = i + 1;
        let mut starting: u128 = 0;
        let mut j: usize = 0;
        proof {
            assert(prefix.take(0) =~= Seq::<NoteValue>::empty());
            assert(total_ticks(Seq::<NoteValue>::empty()) == 0);
            assert(all_supported(prefix));
        }
        while j < replenish_i
            invariant
                0 <= j <= replenish_i,
                replenish_i == prefix.len(),
                self@ == prefix + tail,
                all_supported(prefix),
                starting == total_ticks(prefix.take(j as int)),
                starting <= 128 * j,
            decreases replenish_i - j,
        {
            proof {
                self.lemma_view();
                assert(prefix.take(j + 1).drop_last() =~= prefix.take(j as int));
                assert(self@[j as int] == prefix[j as int]);
                assert(self.notes@[j as int]@ == self@[j as int]);
                lemma_duration_ticks_bounds(prefix[j as int].base_duration);
            }
            let t = self.notes[j].get_base_duration().get_duration_ticks();
            starting = starting + t as u128;
            j = j + 1;
        }
        proof {
            assert(prefix.take(prefix.len() as int) =~= prefix);
        }

        let ghost start0 = starting as nat;
        let ghost r0 = replenish as nat;
        let ghost p = replenish_pitch;
        let ghost mut done: Seq<NoteValue> = Seq::empty();
        proof {
            assert(done + fill(p, start0, r0) =~= fill(p, start0, r0));
        }
        while replenish > 0
            invariant
                self@ == prefix + done + tail,
                replenish_i == prefix.len() + done.len(),
                replenish_pitch == p,
                done + fill(p, starting as nat, replenish as nat) == fill(p, start0, r0),
                starting == start0 + total_ticks(done),
                replenish + total_ticks(done) == r0,
                r0 <= 128,
                start0 <= 128 * prefix.len(),
                prefix.len() <= self@.len(),
                all_supported(done),
            decreases replenish,
        {
            proof {
                self.lemma_view();
            }
            // Find the log of the largest beat that can fit
            let mut k: u32 = 7;
            while k > 0 && ticks_of_exp(k) as u128 > replenish
                invariant
                    k <= 7,
                    largest_exp_within(replenish as nat, 7) == largest_exp_within(
                        replenish as nat,
                        k as nat,
                    ),
                decreases k,
            {
                k = k - 1;
            }
            let ghost top = k as nat;
            // Keep decrementing k until the note fits nicely
            while k > 0 && starting % (ticks_of_exp(k) as u128) != 0
                invariant
                    k <= top <= 7,
                    top == largest_exp_within(replenish as nat, 7),
                    largest_exp_dividing(starting as nat, top) == largest_exp_dividing(
                        starting as nat,
                        k as nat,
                    ),
                decreases k,
            {
                k = k - 1;
            }
            let g = ticks_of_exp(k);
            let replenish_duration = BaseDuration::from_duration_ticks(g);
            proof {
                assert(k as nat == fill_exp(starting as nat, replenish as nat));
                lemma_fill_exp(starting as nat, replenish as nat);
                lemma_small_powers();
                crate::note_or_rest::lemma_duration_ticks_injective(
                    replenish_duration,
                    BaseDuration((7 - k) as u8),
                );
            }
            let ghost note = NoteValue { pitch: p, base_duration: replenish_duration };
            let ghost before = self@;
            self.notes.insert(replenish_i, NoteOrRest::new(replenish_pitch, replenish_duration));
            let bar_len = self.notes.len();
            proof {
                self.lemma_view();
                assert(self@ =~= before.insert(replenish_i as int, note));
                assert(replenish_i < bar_len);
                let rest_fill = fill(p, starting as nat + g as nat, (replenish - g) as nat);
                assert(fill(p, starting as nat, replenish as nat) == seq![note] + rest_fill);
                assert(done.push(note) + rest_fill =~= done + (seq![note] + rest_fill));
                lemma_total_ticks_concat(done, seq![note]);
                lemma_total_ticks_single(note);
                assert(done + seq![note] =~= done.push(note));
                assert(self@ =~= prefix + done.push(note) + tail);
                done = done.push(note);
            }
            replenish_i = replenish_i + 1;
            replenish = replenish - g as u128;
            starting = starting + g as u128;
        }
        proof {
            assert(fill(p, starting as nat, 0) =~= Seq::<NoteValue>::empty());
            assert(done + Seq::<NoteValue>::empty() =~= done);
            lemma_total_ticks_concat(notes0.take(i as int), seq![changed]);
            lemma_total_ticks_single(changed);
            assert(notes0.take(i as int) + seq![changed] =~= prefix);
            lemma_fill(p, start0, r0);
            assert forall|j: int| 0 <= j < self@.len() implies (#[trigger] self@[j]).base_duration.0
                <= 7 by {
                if j < prefix.len() {
                    assert(self@[j] == prefix[j]);
                } else if j < prefix.len() + done.len() {
                    assert(self@[j] == done[j - prefix.len()]);
                } else {
                    assert(self@[j] == tail[j - prefix.len() - done.len()]);
                }
            }
        }
    }
}

/// How the user is interacting with the notes of one bar.
pub enum BarInteraction {
    Idle,
    // Hovering a note at index `usize`
    Hovering(usize),
    // Selected a note at index and mouse is hovering pitch
    Selected(usize, Pitch),
}

impl BarInteraction {
    /// The interaction with the note at `note_index` of this bar.
    pub fn note_interaction(&self, note_index: usize) -> (r: NoteInteraction)
        ensures
            match *self {
                BarInteraction::Idle => r is Idle,
                BarInteraction::Hovering(h) => if h == note_index {
                    r is Hovering
                } else {
                    r is Idle
                },
                BarInteraction::Selected(s, _) => if s == note_index {
                    r is Selected
                } else {
                    r is Idle
                },
            },
    {
        match self {
            BarInteraction::Idle => NoteInteraction::Idle,
            BarInteraction::Hovering(hovering_idx) => {
                if *hovering_idx == note_index {
                    NoteInteraction::Hovering
                } else {
                    NoteInteraction::Idle
                }
            },
            BarInteraction::Selected(selected_idx, _pitch) => {
                if *selected_idx == note_index {
                    NoteInteraction::Selected
                } else {
                    NoteInteraction::Idle
                }
            },
        }
    }
}

} // verus!
