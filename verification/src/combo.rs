//! Combo scoring and the per-note hit state.
use vstd::prelude::*;

verus! {

/// The largest hit count whose combo can be computed in an `i32`.
pub const MAX_COMBO_HITS: i32 = 536870911;

/// The combo shown for `hits` hits: the hit count itself up to five, then
/// growing by two per hit up to eight, by three up to eleven, by four beyond.
pub open spec fn combo_value(hits: int) -> int {
    if hits == 0 {
        0
    } else if hits <= 5 {
        hits
    } else if hits <= 8 {
        2 * hits - 5
    } else if hits <= 11 {
        3 * hits - 13
    } else {
        4 * hits - 24
    }
}

/// Computes the combo for a number of hits.
pub fn calculate_combo(comb: i32) -> (c: i32)
    requires
        comb <= MAX_COMBO_HITS,
    ensures
        c == combo_value(comb as int),
{
    if comb == 0 {
        0
    } else if comb <= 5 {
        comb
    } else if comb <= 8 {
        2 * comb - 5
    } else if comb <= 11 {
        3 * comb - 13
    } else {
        4 * comb - 24
    }
}

/// The combo grows with every further hit: it is strictly increasing on the
/// counts that can occur.
pub proof fn lemma_combo_strictly_increasing(a: int, b: int)
    requires
        0 <= a < b,
    ensures
        combo_value(a) < combo_value(b),
{
}

/// No hits, no combo.
pub proof fn lemma_combo_zero()
    ensures
        combo_value(0) == 0,
{
}

/// What hit scoring reads of a note: its kind and whether it has been hit.
#[derive(Clone, Copy, Debug, PartialEq, Eq, Structural)]
pub struct NoteHit {
    pub note_type: i32,
    pub is_hited: bool,
}

/// The kind of a hold note; a hit hold counts twice.
pub const HOLD_NOTE: i32 = 2;

/// The kind of a drag note, which has its own hit sound.
pub const DRAG_NOTE: i32 = 1;

pub open spec fn note_weight(n: NoteHit) -> int {
    if n.is_hited {
        if n.note_type == HOLD_NOTE {
            2
        } else {
            1
        }
    } else {
        0
    }
}

/// The hits counted on one line.
pub open spec fn line_hits(notes: Seq<NoteHit>) -> int
    decreases notes.len(),
{
    if notes.len() == 0 {
        0
    } else {
        line_hits(notes.drop_last()) + note_weight(notes.last())
    }
}

/// The hits counted over all lines.
pub open spec fn chart_hits(lines: Seq<Vec<NoteHit>>) -> int
    decreases lines.len(),
{
    if lines.len() == 0 {
        0
    } else {
        chart_hits(lines.drop_last()) + line_hits(lines.last()@)
    }
}

proof fn lemma_line_hits_nonneg(notes: Seq<NoteHit>)
    ensures
        0 <= line_hits(notes) <= 2 * notes.len(),
    decreases notes.len(),
{
    if notes.len() > 0 {
        lemma_line_hits_nonneg(notes.drop_last());
    }
}

proof fn lemma_chart_hits_monotone(lines: Seq<Vec<NoteHit>>, i: int)
    requires
        0 <= i <= lines.len(),
    ensures
        chart_hits(lines.take(i)) <= chart_hits(lines),
    decreases lines.len(),
{
    if i < lines.len() {
        lemma_chart_hits_monotone(lines.drop_last(), i);
        assert(lines.drop_last().take(i) =~= lines.take(i));
        lemma_line_hits_nonneg(lines.last()@);
    } else {
        assert(lines.take(i) =~= lines);
    }
}

proof fn lemma_line_hits_prefix(notes: Seq<NoteHit>, i: int)
    requires
        0 <= i <= notes.len(),
    ensures
        line_hits(notes.take(i)) <= line_hits(notes),
    decreases notes.len(),
{
    if i < notes.len() {
        lemma_line_hits_prefix(notes.drop_last(), i);
        assert(notes.drop_last().take(i) =~= notes.take(i));
    } else {
        assert(notes.take(i) =~= notes);
    }
}

proof fn lemma_chart_hits_nonneg(lines: Seq<Vec<NoteHit>>)
    ensures
        0 <= chart_hits(lines),
    decreases lines.len(),
{
    if lines.len() > 0 {
        lemma_chart_hits_nonneg(lines.drop_last());
        lemma_line_hits_nonneg(lines.last()@);
    }
}

/// Counts the hits over all lines, one per hit note and two per hit hold;
/// `None` when the count does not fit in an `i32`.
pub fn checked_count_hits(lines: &Vec<Vec<NoteHit>>) -> (n: Option<i32>)
    ensures
        n == (if chart_hits(lines@) <= i32::MAX { Some(chart_hits(lines@) as i32) } else { None }),
{
    proof {
        lemma_chart_hits_nonneg(lines@);
    }
    let mut hit_count: i32 = 0;
    let mut i: usize = 0;
    while i < lines.len()
        invariant
            i <= lines.len(),
            hit_count == chart_hits(lines@.take(i as int)),
            0 <= chart_hits(lines@),
        decreases lines.len() - i,
    {
        let notes = &lines[i];
        proof {
            lemma_chart_hits_monotone(lines@, i + 1);
            assert(lines@.take(i + 1).drop_last() =~= lines@.take(i as int));
            assert(chart_hits(lines@.take(i + 1)) == hit_count + line_hits(notes@));
        }
        let ghost base = hit_count as int;
        let mut j: usize = 0;
        while j < notes.len()
            invariant
                j <= notes.len(),
                hit_count == base + line_hits(notes@.take(j as int)),
                base + line_hits(notes@) <= chart_hits(lines@),
                0 <= chart_hits(lines@),
            decreases notes.len() - j,
        {
            let note = notes[j];
            proof {
                lemma_line_hits_prefix(notes@, j + 1);
                assert(notes@.take(j + 1).drop_last() =~= notes@.take(j as int));
                lemma_line_hits_nonneg(notes@.take(j as int));
            }
            let weight: i32 = if note.is_hited {
                if note.note_type == HOLD_NOTE {
                    2
                } else {
                    1
                }
            } else {
                0
            };
            match hit_count.checked_add(weight) {
                Some(v) => {
                    hit_count = v;
                },
                None => {
                    return None;
                },
            }
            j += 1;
        }
        proof {
            assert(notes@.take(notes@.len() as int) =~= notes@);
        }
        i += 1;
    }
    proof {
        assert(lines@.take(lines@.len() as int) =~= lines@);
    }
    Some(hit_count)
}

/// Counts the hits over all lines: one per hit note, two per hit hold.
pub fn count_hits(lines: &Vec<Vec<NoteHit>>) -> (n: i32)
    requires
        chart_hits(lines@) <= i32::MAX,
    ensures
        n == chart_hits(lines@),
{
    proof {
        lemma_chart_hits_nonneg(lines@);
    }
    match checked_count_hits(lines) {
        Some(n) => n,
        None => {
            assert(false);
            0
        },
    }
}

/// A note after judging: it counts as hit exactly when its time has been reached.
pub open spec fn judged(note: NoteHit, reached: bool) -> NoteHit {
    NoteHit { note_type: note.note_type, is_hited: reached }
}

/// A note's hit sound is due when it has just become hit and sound is not muted.
pub open spec fn sound_due(note: NoteHit, reached: bool, mute: bool) -> bool {
    reached && !note.is_hited && !mute
}

/// Judges a note at the current playback time: the note counts as hit exactly
/// when its time has been reached. Returns whether its hit sound is due.
pub fn judge_note(note: &mut NoteHit, reached: bool, mute: bool) -> (play: bool)
    ensures
        *final(note) == judged(*old(note), reached),
        play == sound_due(*old(note), reached, mute),
{
    let play = reached && !note.is_hited && !mute;
    note.is_hited = reached;
    play
}

/// A note's hit sound plays once: judging it again while its time stays
/// reached plays nothing, muted or not.
pub proof fn lemma_sound_plays_once(note: NoteHit, mute: bool, mute_again: bool)
    ensures
        !sound_due(judged(note, true), true, mute_again),
        judged(judged(note, true), true) == judged(note, true),
{
}

/// The two hit sounds.
#[derive(Clone, Copy, Debug, PartialEq, Eq, Structural)]
pub enum HitSound {
    Tap,
    Drag,
}

/// The hit sound of a note kind: drags have their own, every other kind taps.
pub fn hit_sound_for(note_type: i32) -> (s: HitSound)
    ensures
        s == (if note_type == DRAG_NOTE { HitSound::Drag } else { HitSound::Tap }),
{
    if note_type == DRAG_NOTE {
        HitSound::Drag
    } else {
        HitSound::Tap
    }
}


/// The combo grows by one per hit up to five hits, by two per hit up to eight,
/// by three up to eleven and by four from then on, starting from none: each
/// further hit beyond eleven adds exactly four, so twelve hits show 24.
pub proof fn lemma_combo_steps(n: int)
    requires
        n >= 0,
    ensures
        combo_value(0) == 0,
        n < 5 ==> combo_value(n + 1) == combo_value(n) + 1,
        5 <= n < 8 ==> combo_value(n + 1) == combo_value(n) + 2,
        8 <= n < 11 ==> combo_value(n + 1) == combo_value(n) + 3,
        n >= 11 ==> combo_value(n + 1) == combo_value(n) + 4,
        combo_value(12) == 24,
        n >= 12 ==> combo_value(n) == 4 * n - 24,
{
}

/// Whether a note's sound is due does not depend on the note's kind: holds,
/// drags and taps are judged alike.
pub proof fn lemma_sound_ignores_kind(note: NoteHit, kind: i32, reached: bool, mute: bool)
    ensures
        sound_due(note, reached, mute) == sound_due(
            NoteHit { note_type: kind, is_hited: note.is_hited },
            reached,
            mute,
        ),
{
}

/// A note that is not yet hit sounds as soon as its time is reached, unless
/// sound is muted; a note already hit, a note not reached and a muted note
/// never sound.
pub proof fn lemma_sound_exactly_on_first_hit(note: NoteHit, reached: bool, mute: bool)
    ensures
        !note.is_hited ==> sound_due(note, true, false),
        note.is_hited ==> !sound_due(note, reached, mute),
        !sound_due(note, false, mute),
        !sound_due(note, reached, true),
        judged(note, reached).is_hited == reached,
        judged(note, reached).note_type == note.note_type,
{
}

/// Up to five hits the combo is the hit count itself.
pub proof fn lemma_combo_small(n: int)
    requires
        n <= 5,
    ensures
        combo_value(n) == n,
{
}

/// A hit hold counts twice, any other hit note once, a note not hit not at all.
pub proof fn lemma_note_weights(n: NoteHit)
    ensures
        !n.is_hited ==> note_weight(n) == 0,
        n.is_hited && n.note_type == 2 ==> note_weight(n) == 2,
        n.is_hited && n.note_type != 2 ==> note_weight(n) == 1,
        line_hits(seq![n]) == note_weight(n),
{
    reveal_with_fuel(line_hits, 2);
    assert(seq![n].drop_last() =~= Seq::<NoteHit>::empty());
    assert(seq![n].last() == n);
}

/// Counting hits is additive: the notes of two stretches count as the sum of each.
pub proof fn lemma_line_hits_append(a: Seq<NoteHit>, b: Seq<NoteHit>)
    ensures
        line_hits(a + b) == line_hits(a) + line_hits(b),
    decreases b.len(),
{
    if b.len() == 0 {
        assert(a + b =~= a);
    } else {
        lemma_line_hits_append(a, b.drop_last());
        assert((a + b).drop_last() =~= a + b.drop_last());
        assert((a + b).last() == b.last());
    }
}

} // verus!
