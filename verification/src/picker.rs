//! The document picker's state on iOS.
//!
//! The platform picker reports back through delegate callbacks; the player
//! polls this state from its frame loop until a file has been chosen.
use vstd::prelude::*;

verus! {

/// The picker state as seen in contracts.
pub struct PickerView {
    /// The path of a picked file not yet taken.
    pub picked: Option<Seq<char>>,
    /// Whether the picker is on screen.
    pub open: bool,
    /// Whether the last picker was cancelled.
    pub cancelled: bool,
}

/// The picker state.
pub struct PickerState {
    picked: Option<String>,
    open: bool,
    cancelled: bool,
}

impl View for PickerState {
    type V = PickerView;

    closed spec fn view(&self) -> PickerView {
        PickerView {
            picked: match self.picked {
                Some(p) => Some(p@),
                None => None,
            },
            open: self.open,
            cancelled: self.cancelled,
        }
    }
}

/// The state after a file is picked, with the path when the platform gives one.
pub open spec fn after_pick(s: PickerView, path: Option<Seq<char>>) -> PickerView {
    PickerView {
        picked: match path {
            Some(p) => Some(p),
            None => s.picked,
        },
        open: false,
        cancelled: s.cancelled,
    }
}

/// The state after the picker is cancelled.
pub open spec fn after_cancel(s: PickerView) -> PickerView {
    PickerView { picked: s.picked, open: false, cancelled: true }
}

/// The state after the path is taken.
pub open spec fn after_take(s: PickerView) -> PickerView {
    PickerView { picked: None, open: s.open, cancelled: s.cancelled }
}

impl PickerState {
    /// No picker shown, nothing picked.
    pub fn new() -> (p: Self)
        ensures
            p@ == (PickerView { picked: None, open: false, cancelled: false }),
    {
        PickerState { picked: None, open: false, cancelled: false }
    }
}

/// A new picker is being opened: the previous cancellation is forgotten.
pub fn begin_open(state: &mut PickerState)
    ensures
        final(state)@ == (PickerView { cancelled: false, ..old(state)@ }),
{
    state.cancelled = false;
}

/// The picker has been put on screen.
pub fn mark_presented(state: &mut PickerState)
    ensures
        final(state)@ == (PickerView { open: true, ..old(state)@ }),
{
    state.open = true;
}

/// The platform reports a pick; `path` is the path of the first chosen file,
/// when it has one. The picker is closed either way.
pub fn record_pick(state: &mut PickerState, path: Option<String>)
    ensures
        final(state)@ == after_pick(
            old(state)@,
            match path {
                Some(p) => Some(p@),
                None => None,
            },
        ),
{
    state.open = false;
    match path {
        Some(p) => {
            state.picked = Some(p);
        },
        None => {},
    }
}

/// The platform reports that the picker was cancelled.
pub fn record_cancel(state: &mut PickerState)
    ensures
        final(state)@ == after_cancel(old(state)@),
{
    state.open = false;
    state.cancelled = true;
}

/// Whether the picker is on screen.
pub fn is_open(state: &PickerState) -> (open: bool)
    ensures
        open == state@.open,
{
    state.open
}

/// Takes the picked path, if any, leaving none behind.
pub fn take_picked(state: &mut PickerState) -> (path: Option<String>)
    ensures
        path matches Some(p) ==> old(state)@.picked == Some(p@),
        path is None ==> old(state)@.picked is None,
        final(state)@ == after_take(old(state)@),
{
    state.picked.take()
}

/// What the frame loop does next while waiting for a file.
pub enum PickerPoll {
    /// A file was picked: its path.
    Picked(String),
    /// No picker is on screen: open one.
    Open,
    /// The picker is on screen: keep waiting.
    Wait,
}

/// One poll of the frame loop: a picked path is taken and returned; otherwise
/// a picker is asked for when none is on screen.
pub fn poll_picker(state: &mut PickerState) -> (next: PickerPoll)
    ensures
        next matches PickerPoll::Picked(p) ==> old(state)@.picked == Some(p@),
        next is Open <==> (old(state)@.picked is None && !old(state)@.open),
        next is Wait <==> (old(state)@.picked is None && old(state)@.open),
        final(state)@ == after_take(old(state)@),
{
    match take_picked(state) {
        Some(p) => PickerPoll::Picked(p),
        None => {
            if !is_open(state) {
                PickerPoll::Open
            } else {
                PickerPoll::Wait
            }
        },
    }
}

/// A picked path is handed out once and closes the picker; a cancel closes it
/// and keeps any earlier path.
pub proof fn lemma_pick_then_take(s: PickerView, path: Seq<char>)
    ensures
        after_pick(s, Some(path)).picked == Some(path),
        !after_pick(s, Some(path)).open,
        after_take(after_pick(s, Some(path))).picked is None,
        !after_cancel(s).open,
        after_cancel(s).picked == s.picked,
{
}

} // verus!
