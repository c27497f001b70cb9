//! Which theme the challenge times put in force.
//!
//! Challenge `i` of a chart switches to theme `i + 1` while it is active and
//! has a theme of its own; a later challenge wins over an earlier one. Whether a
//! challenge is active, or in its opening or closing transition, depends on
//! the playback time and is worked out by the caller.
use vstd::prelude::*;

verus! {

/// The theme put in force by the flagged challenges: that of the last flagged
/// challenge that has a theme, if any.
pub open spec fn flagged_theme(flags: Seq<bool>, theme_count: int) -> Option<usize>
    decreases flags.len(),
{
    if flags.len() == 0 {
        None
    } else if flags.last() && flags.len() < theme_count {
        Some(flags.len() as usize)
    } else {
        flagged_theme(flags.drop_last(), theme_count)
    }
}

/// The theme of the active challenge: `active[i]` tells whether challenge `i`
/// is active; the last active challenge that has a theme wins.
pub fn active_challenge_theme(active: &Vec<bool>, theme_count: usize) -> (theme: Option<usize>)
    ensures
        theme == flagged_theme(active@, theme_count as int),
        theme matches Some(t) ==> 1 <= t < theme_count && active@[t - 1],
{
    let mut chosen: Option<usize> = None;
    let mut i: usize = 0;
    while i < active.len()
        invariant
            i <= active.len(),
            chosen == flagged_theme(active@.take(i as int), theme_count as int),
            chosen matches Some(t) ==> 1 <= t < theme_count && active@[t - 1],
        decreases active.len() - i,
    {
        proof {
            assert(active@.take(i + 1).drop_last() =~= active@.take(i as int));
        }
        if active[i] && i + 1 < theme_count {
            chosen = Some(i + 1);
        }
        i += 1;
    }
    assert(active@.take(active@.len() as int) =~= active@);
    chosen
}

/// Where a challenge stands in its transitions at the current time.
#[derive(Clone, Copy, Debug, PartialEq, Eq, Structural)]
pub enum TransitionPhase {
    /// Not transitioning (or the challenge has no transition time).
    Idle,
    /// Opening: its theme spreads from the bottom of the screen.
    Entering,
    /// Closing: its theme withdraws towards the top of the screen.
    Leaving,
}

/// The transition shown: that of the last transitioning challenge that has a
/// theme, with its theme and phase.
pub open spec fn shown_transition(phases: Seq<TransitionPhase>, theme_count: int) -> Option<(usize, TransitionPhase)>
    decreases phases.len(),
{
    if phases.len() == 0 {
        None
    } else if phases.last() != TransitionPhase::Idle && phases.len() < theme_count {
        Some((phases.len() as usize, phases.last()))
    } else {
        shown_transition(phases.drop_last(), theme_count)
    }
}

/// Picks the transition to draw: `phases[i]` is where challenge `i` stands.
pub fn transition_theme(phases: &Vec<TransitionPhase>, theme_count: usize) -> (shown: Option<(usize, TransitionPhase)>)
    ensures
        shown == shown_transition(phases@, theme_count as int),
        shown matches Some((t, p)) ==> 1 <= t < theme_count && p != TransitionPhase::Idle && p
            == phases@[t - 1],
{
    let mut chosen: Option<(usize, TransitionPhase)> = None;
    let mut i: usize = 0;
    while i < phases.len()
        invariant
            i <= phases.len(),
            chosen == shown_transition(phases@.take(i as int), theme_count as int),
            chosen matches Some((t, p)) ==> 1 <= t < theme_count && p != TransitionPhase::Idle && p
                == phases@[t - 1],
        decreases phases.len() - i,
    {
        proof {
            assert(phases@.take(i + 1).drop_last() =~= phases@.take(i as int));
        }
        let p = phases[i];
        if p != TransitionPhase::Idle && i + 1 < theme_count {
            chosen = Some((i + 1, p));
        }
        i += 1;
    }
    assert(phases@.take(phases@.len() as int) =~= phases@);
    chosen
}

/// The theme a transition into `theme_idx` starts from: the previous
/// challenge's theme when that challenge reaches into this transition (only
/// asked for from the second challenge on), else the chart's default theme,
/// given as `None`.
pub fn transition_base_theme(theme_idx: usize, previous_reaches: bool) -> (base: Option<usize>)
    ensures
        base == (if theme_idx > 1 && previous_reaches { Some((theme_idx - 1) as usize) } else { None }),
{
    if theme_idx > 1 && previous_reaches {
        Some(theme_idx - 1)
    } else {
        None
    }
}

} // verus!
