//! Searches over time-ordered chart data.
//!
//! The chart keeps line points, key points and speed events ordered by time.
//! The player looks them up by bisection, asking at each probe how the probed
//! item's time stands against the time looked for; the answer is computed by the
//! caller, so these searches only decide which item to probe next and what to
//! report.
use vstd::prelude::*;

verus! {

/// `boundary` splits the indices below `len` into those whose probe answers
/// `true` (below `boundary`) and those whose probe answers `false`: the
/// situation of a time-ordered sequence probed with "at or before the time".
pub open spec fn splits_at<F: Fn(usize) -> bool>(probe: F, len: usize, boundary: int) -> bool {
    &&& 0 <= boundary <= len
    &&& forall|i: usize, answer: bool|
        #![trigger call_ensures(probe, (i,), answer)]
        i < len && call_ensures(probe, (i,), answer) ==> answer == (i < boundary)
}

/// Every answer the probe gives for an index below `len` is `answers(index)`:
/// the probe is a function of the index.
pub open spec fn answered_by<F: Fn(usize) -> bool>(probe: F, len: usize, answers: spec_fn(usize) -> bool) -> bool {
    forall|i: usize, answer: bool|
        #![trigger call_ensures(probe, (i,), answer)]
        i < len && call_ensures(probe, (i,), answer) ==> answer == answers(i)
}

/// The probe the bisection makes next in `left..right_end`: the middle, rounding down.
pub open spec fn middle(left: int, right_end: int) -> int {
    left + (right_end - 1 - left) / 2
}

/// Where the bisection of `left..right_end` ends when the probe answers
/// `answers`: a `true` answer moves the range above the probe, a `false` one
/// below it, until the range is empty.
pub open spec fn bisect_end(answers: spec_fn(usize) -> bool, left: int, right_end: int) -> int
    decreases right_end - left,
{
    if left < right_end {
        let mid = middle(left, right_end);
        if answers(mid as usize) {
            bisect_end(answers, mid + 1, right_end)
        } else {
            bisect_end(answers, left, mid)
        }
    } else {
        left
    }
}

/// What the bisection of `0..len` reports for the answers: the last probe that
/// answered `true` is just below where it ends, the last that answered `false`
/// is where it ends, each where it exists.
pub open spec fn bisect_outcome(answers: spec_fn(usize) -> bool, len: usize) -> (Option<usize>, Option<usize>) {
    let end = bisect_end(answers, 0, len as int);
    (
        if end == 0 { None } else { Some((end - 1) as usize) },
        if end == len { None } else { Some(end as usize) },
    )
}

/// Bisects `0..len` as the player does: returns the last probed index that
/// answered `true` and the last probed index that answered `false`.
///
/// When the probe splits the indices at some boundary, these are the index just
/// below the boundary and the boundary itself, each where it exists.
pub fn bisect<F: Fn(usize) -> bool>(len: usize, probe: F) -> (r: (Option<usize>, Option<usize>))
    requires
        forall|i: usize| i < len ==> call_requires(probe, (i,)),
    ensures
        r.0 matches Some(k) ==> k < len && call_ensures(probe, (k,), true),
        r.1 matches Some(k) ==> k < len && call_ensures(probe, (k,), false),
        len == 0 ==> r.0 is None && r.1 is None,
        forall|answers: spec_fn(usize) -> bool|
            #![trigger answered_by(probe, len, answers)]
            answered_by(probe, len, answers) ==> r == bisect_outcome(answers, len),
        forall|b: int|
            #![trigger splits_at(probe, len, b)]
            splits_at(probe, len, b) ==> r.0 == (if b > 0 { Some((b - 1) as usize) } else { None })
                && r.1 == (if b < len { Some(b as usize) } else { None }),
{
    let mut left: usize = 0;
    let mut right_end: usize = len;
    let mut below: Option<usize> = None;
    let mut above: Option<usize> = None;
    while left < right_end
        invariant
            left <= right_end <= len,
            forall|i: usize| i < len ==> call_requires(probe, (i,)),
            below == (if left == 0 { None } else { Some((left - 1) as usize) }),
            above == (if right_end == len { None } else { Some(right_end) }),
            below matches Some(k) ==> call_ensures(probe, (k,), true),
            above matches Some(k) ==> call_ensures(probe, (k,), false),
            forall|b: int|
                #![trigger splits_at(probe, len, b)]
                splits_at(probe, len, b) ==> left <= b <= right_end,
            forall|answers: spec_fn(usize) -> bool|
                #![trigger answered_by(probe, len, answers)]
                answered_by(probe, len, answers) ==> bisect_end(answers, 0, len as int) == bisect_end(
                    answers,
                    left as int,
                    right_end as int,
                ),
        decreases right_end - left,
    {
        let mid = left + (right_end - 1 - left) / 2;
        assert(mid == middle(left as int, right_end as int));
        let answer = probe(mid);
        if answer {
            below = Some(mid);
            left = mid + 1;
        } else {
            above = Some(mid);
            right_end = mid;
        }
    }
    (below, above)
}

/// The last index whose probe answers `true`, or the last index when none does
/// (the player's lookup of the line point or speed event in force).
pub fn last_at_or_before<F: Fn(usize) -> bool>(len: usize, probe: F) -> (k: usize)
    requires
        len > 0,
        forall|i: usize| i < len ==> call_requires(probe, (i,)),
    ensures
        k < len,
        forall|answers: spec_fn(usize) -> bool|
            #![trigger answered_by(probe, len, answers)]
            answered_by(probe, len, answers) ==> k == match bisect_outcome(answers, len).0 {
                Some(j) => j,
                None => (len - 1) as usize,
            },
        forall|b: int|
            #![trigger splits_at(probe, len, b)]
            splits_at(probe, len, b) ==> k == (if b > 0 { b - 1 } else { len - 1 }),
{
    let (below, _above) = bisect(len, probe);
    match below {
        Some(k) => k,
        None => len - 1,
    }
}

/// The segment of points around a time: the last point at or before it and
/// the first point after it, falling back to the first point before all points
/// and to the last point after all points; `(0, 0)` when there are no points.
pub fn segment_around<F: Fn(usize) -> bool>(len: usize, probe: F) -> (r: (usize, usize))
    requires
        forall|i: usize| i < len ==> call_requires(probe, (i,)),
    ensures
        len == 0 ==> r == (0usize, 0usize),
        len > 0 ==> r.0 < len && r.1 < len,
        forall|answers: spec_fn(usize) -> bool|
            #![trigger answered_by(probe, len, answers)]
            len > 0 && answered_by(probe, len, answers) ==> r == (
                match bisect_outcome(answers, len).0 {
                    Some(j) => j,
                    None => 0usize,
                },
                match bisect_outcome(answers, len).1 {
                    Some(j) => j,
                    None => (len - 1) as usize,
                },
            ),
        forall|b: int|
            #![trigger splits_at(probe, len, b)]
            len > 0 && splits_at(probe, len, b) ==> r.0 == (if b > 0 { b - 1 } else { 0 })
                && r.1 == (if b < len { b } else { len - 1 }),
{
    if len == 0 {
        return (0, 0);
    }
    let (below, above) = bisect(len, probe);
    let first = match below {
        Some(k) => k,
        None => 0,
    };
    let second = match above {
        Some(k) => k,
        None => len - 1,
    };
    (first, second)
}

/// How a probed key point stands against the time looked for.
#[derive(Clone, Copy, Debug, PartialEq, Eq, Structural)]
pub enum Probe {
    Before,
    Exact,
    After,
}

/// The outcome of a key-point lookup.
#[derive(Clone, Copy, Debug, PartialEq, Eq, Structural)]
pub enum KeyHit {
    /// A key point stands exactly at the time.
    Exact(usize),
    /// The time lies between these two key points.
    Between(usize, usize),
    /// The time lies before the first or after the last probed key point.
    Outside,
}

/// The probe orders the indices as a time-ordered sequence does: those below
/// `lo` are before the time, those from `lo` to `hi` are exactly at it, those
/// from `hi` on are after it.
pub open spec fn orders_at<F: Fn(usize) -> Probe>(probe: F, len: usize, lo: int, hi: int) -> bool {
    &&& 0 <= lo <= hi <= len
    &&& forall|i: usize, answer: Probe|
        #![trigger call_ensures(probe, (i,), answer)]
        i < len && call_ensures(probe, (i,), answer) ==> answer == (if i < lo {
            Probe::Before
        } else if i < hi {
            Probe::Exact
        } else {
            Probe::After
        })
}

/// Every answer the probe gives for an index below `len` is `answers(index)`.
pub open spec fn probed_by<F: Fn(usize) -> Probe>(probe: F, len: usize, answers: spec_fn(usize) -> Probe) -> bool {
    forall|i: usize, answer: Probe|
        #![trigger call_ensures(probe, (i,), answer)]
        i < len && call_ensures(probe, (i,), answer) ==> answer == answers(i)
}

/// What the key-point bisection of `left..right_end` (within `0..len`) reports
/// when the probe answers `answers`: the first probe exactly at the time, or,
/// once the range is empty, the key points on either side of it where both exist.
pub open spec fn key_search(answers: spec_fn(usize) -> Probe, left: int, right_end: int, len: int) -> KeyHit
    decreases right_end - left,
{
    if left < right_end {
        let mid = middle(left, right_end);
        match answers(mid as usize) {
            Probe::Exact => KeyHit::Exact(mid as usize),
            Probe::Before => key_search(answers, mid + 1, right_end, len),
            Probe::After => key_search(answers, left, mid, len),
        }
    } else if left > 0 && right_end < len {
        KeyHit::Between((left - 1) as usize, right_end as usize)
    } else {
        KeyHit::Outside
    }
}

/// Bisects key points as the player does: stops at the first probe that is
/// exactly at the time, else reports the last probe before the time and the
/// last probe after it when both exist.
pub fn find_key_point<F: Fn(usize) -> Probe>(len: usize, probe: F) -> (r: KeyHit)
    requires
        forall|i: usize| i < len ==> call_requires(probe, (i,)),
    ensures
        r matches KeyHit::Exact(k) ==> k < len && call_ensures(probe, (k,), Probe::Exact),
        r matches KeyHit::Between(i, j) ==> i < len && j < len && call_ensures(
            probe,
            (i,),
            Probe::Before,
        ) && call_ensures(probe, (j,), Probe::After),
        forall|answers: spec_fn(usize) -> Probe|
            #![trigger probed_by(probe, len, answers)]
            probed_by(probe, len, answers) ==> r == key_search(answers, 0, len as int, len as int),
        forall|lo: int, hi: int|
            #![trigger orders_at(probe, len, lo, hi)]
            orders_at(probe, len, lo, hi) ==> if lo < hi {
                r matches KeyHit::Exact(k) && lo <= k < hi
            } else {
                r == (if 0 < lo < len {
                    KeyHit::Between((lo - 1) as usize, lo as usize)
                } else {
                    KeyHit::Outside
                })
            },
{
    let mut left: usize = 0;
    let mut right_end: usize = len;
    let mut before: Option<usize> = None;
    let mut after: Option<usize> = None;
    while left < right_end
        invariant
            left <= right_end <= len,
            forall|i: usize| i < len ==> call_requires(probe, (i,)),
            before == (if left == 0 { None } else { Some((left - 1) as usize) }),
            after == (if right_end == len { None } else { Some(right_end) }),
            before matches Some(k) ==> call_ensures(probe, (k,), Probe::Before),
            after matches Some(k) ==> call_ensures(probe, (k,), Probe::After),
            forall|lo: int, hi: int|
                #![trigger orders_at(probe, len, lo, hi)]
                orders_at(probe, len, lo, hi) ==> left <= lo && hi <= right_end,
            forall|answers: spec_fn(usize) -> Probe|
                #![trigger probed_by(probe, len, answers)]
                probed_by(probe, len, answers) ==> key_search(answers, 0, len as int, len as int)
                    == key_search(answers, left as int, right_end as int, len as int),
        decreases right_end - left,
    {
        let mid = left + (right_end - 1 - left) / 2;
        assert(mid == middle(left as int, right_end as int));
        let answer = probe(mid);
        match answer {
            Probe::Exact => {
                return KeyHit::Exact(mid);
            },
            Probe::Before => {
                before = Some(mid);
                left = mid + 1;
            },
            Probe::After => {
                after = Some(mid);
                right_end = mid;
            },
        }
    }
    match (before, after) {
        (Some(i), Some(j)) => KeyHit::Between(i, j),
        _ => KeyHit::Outside,
    }
}

} // verus!
