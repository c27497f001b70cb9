//! What the web page hands the player: the chart bytes and the music-ready flag.
//!
//! The page calls in with a chart file and with the news that the music is
//! ready; the player's frame loop polls for both.
use vstd::prelude::*;

verus! {

/// The inbox as seen in contracts: the chart waiting to be taken, and whether
/// the music is ready.
pub struct InboxView {
    pub chart: Option<Seq<u8>>,
    pub music_ready: bool,
}

/// The state after the page supplies a chart: it replaces any chart still waiting.
pub open spec fn after_supply(s: InboxView, bytes: Seq<u8>) -> InboxView {
    InboxView { chart: Some(bytes), music_ready: s.music_ready }
}

/// The state after the page reports the music ready.
pub open spec fn after_music_ready(s: InboxView) -> InboxView {
    InboxView { chart: s.chart, music_ready: true }
}

/// The state after the player takes the chart: nothing is left waiting.
pub open spec fn after_take(s: InboxView) -> InboxView {
    InboxView { chart: None, music_ready: s.music_ready }
}

/// The web inbox.
pub struct WebInbox {
    chart_bytes: Option<Vec<u8>>,
    ready: bool,
}

impl View for WebInbox {
    type V = InboxView;

    closed spec fn view(&self) -> InboxView {
        InboxView {
            chart: match self.chart_bytes {
                Some(v) => Some(v@),
                None => None,
            },
            music_ready: self.ready,
        }
    }
}

impl WebInbox {
    /// An empty inbox: no chart, music not ready.
    pub fn new() -> (i: Self)
        ensures
            i@ == (InboxView { chart: None, music_ready: false }),
    {
        WebInbox { chart_bytes: None, ready: false }
    }
}

/// Stores a chart handed over by the page.
pub fn supply_chart(inbox: &mut WebInbox, bytes: Vec<u8>)
    ensures
        final(inbox)@ == after_supply(old(inbox)@, bytes@),
{
    inbox.chart_bytes = Some(bytes);
}

/// Records that the page has the music ready to play.
pub fn set_music_ready(inbox: &mut WebInbox)
    ensures
        final(inbox)@ == after_music_ready(old(inbox)@),
{
    inbox.ready = true;
}

/// Whether the music is ready.
pub fn music_ready(inbox: &WebInbox) -> (ready: bool)
    ensures
        ready == inbox@.music_ready,
{
    inbox.ready
}

/// Takes the chart waiting in the inbox, if any, leaving none behind.
pub fn take_chart(inbox: &mut WebInbox) -> (chart: Option<Vec<u8>>)
    ensures
        chart matches Some(v) ==> old(inbox)@.chart == Some(v@),
        chart is None ==> old(inbox)@.chart is None,
        final(inbox)@ == after_take(old(inbox)@),
{
    let chart = inbox.chart_bytes.take();
    chart
}

/// A chart supplied by the page is what the player takes next, and it is taken
/// once: a second take finds nothing. Neither touches the music flag.
pub proof fn lemma_take_returns_supplied(s: InboxView, bytes: Seq<u8>)
    ensures
        after_supply(s, bytes).chart == Some(bytes),
        after_take(after_supply(s, bytes)).chart is None,
        after_take(after_supply(s, bytes)).music_ready == s.music_ready,
{
}

/// Once the music is ready it stays ready, whatever happens to the chart.
pub proof fn lemma_music_ready_stays(s: InboxView, bytes: Seq<u8>)
    requires
        s.music_ready,
    ensures
        after_supply(s, bytes).music_ready,
        after_take(s).music_ready,
        after_music_ready(s).music_ready,
{
}

} // verus!
