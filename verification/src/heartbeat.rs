//! Watching over the rendering of a page, so that the reader is told when it is slow.
use vstd::prelude::*;
use vstd::string::StringExecFns;

use crate::renderer::RenderEvent;
use crate::text::push_decimal;

verus! {

/// After how many milliseconds rendering a page counts as slow.
pub const SLOW_RENDER_WARN_MS: u128 = 5_000;

/// What is known of the page being rendered. Times are milliseconds since the watch
/// began.
#[derive(Debug, Clone, Copy)]
pub struct RenderHeartbeat {
    pub started_ms: u64,
    pub page: usize,
    pub active: bool,
    pub warned: bool,
    pub stopped: bool,
}

impl RenderHeartbeat {
    /// How long the page has been rendering at the given time.
    pub open spec fn running(self, now_ms: u128) -> int {
        crate::geometry::larger(now_ms - self.started_ms, 0)
    }

    /// Whether the reader is to be told at the given time.
    pub open spec fn due(self, now_ms: u128) -> bool {
        self.active && !self.warned && self.running(now_ms) >= SLOW_RENDER_WARN_MS
    }

    /// What is watched once rendering a page began at the given time.
    pub open spec fn begun(self, page: usize, now_ms: u128) -> RenderHeartbeat {
        RenderHeartbeat {
            started_ms: (now_ms % 0x1_0000_0000_0000_0000) as u64,
            page,
            active: true,
            warned: false,
            stopped: self.stopped,
        }
    }

    /// What is watched after a look at the given time.
    pub open spec fn looked(self, now_ms: u128) -> RenderHeartbeat {
        RenderHeartbeat { warned: self.warned || self.due(now_ms), ..self }
    }

    /// Nothing is being rendered yet.
    pub fn start() -> (heartbeat: Self)
        ensures
            heartbeat == (RenderHeartbeat {
                started_ms: 0,
                page: 0,
                active: false,
                warned: false,
                stopped: false,
            }),
    {
        RenderHeartbeat { started_ms: 0, page: 0, active: false, warned: false, stopped: false }
    }

    /// Rendering a page begins. Of the time its low 64 bits are kept.
    pub fn begin(&mut self, page: usize, now_ms: u128)
        ensures
            *final(self) == old(self).begun(page, now_ms),
    {
        proof {
            assert(now_ms as u64 == now_ms % 0x1_0000_0000_0000_0000) by (bit_vector);
        }
        self.page = page;
        self.started_ms = #[verifier::truncate]
        (now_ms as u64);
        self.warned = false;
        self.active = true;
    }

    /// Rendering the page has ended.
    pub fn end(&mut self)
        ensures
            *final(self) == (RenderHeartbeat { active: false, ..*old(self) }),
    {
        self.active = false;
    }

    /// The watch is over.
    pub fn stop(&mut self)
        ensures
            *final(self) == (RenderHeartbeat { stopped: true, ..*old(self) }),
    {
        self.stopped = true;
    }

    /// Whether the watch goes on.
    pub fn goes_on(&self) -> (on: bool)
        ensures
            on == !self.stopped,
    {
        !self.stopped
    }

    /// Whether the reader is to be told at the given time.
    pub fn is_due(&self, now_ms: u128) -> (due: bool)
        ensures
            due == self.due(now_ms),
    {
        self.active && !self.warned && now_ms.saturating_sub(self.started_ms as u128)
            >= SLOW_RENDER_WARN_MS
    }

    /// Looks at the page being rendered: what to tell the reader, if anything.
    pub fn tick(&mut self, now_ms: u128) -> (notice: Option<RenderEvent>)
        requires
            old(self).due(now_ms) ==> old(self).page < usize::MAX,
        ensures
            *final(self) == old(self).looked(now_ms),
            old(self).due(now_ms) <==> notice is Some,
            notice matches Some(notice) ==> notice matches RenderEvent::Notice(text) && text@
                == "Rendering page "@ + crate::text::decimal((old(self).page + 1) as nat)
                + " is taking a while..."@,
    {
        if self.is_due(now_ms) {
            self.warned = true;
            let mut text = String::new();
            text.append("Rendering page ");
            push_decimal(&mut text, (self.page + 1) as u64);
            text.append(" is taking a while...");
            proof {
                assert(text@ =~= "Rendering page "@ + crate::text::decimal(
                    (old(self).page + 1) as nat,
                ) + " is taking a while..."@);
            }
            return Some(RenderEvent::Notice(text));
        }
        None
    }
}

/// The reader is told at most once about a page: after a look that was due no later one
/// is, until rendering another page begins.
pub proof fn told_once(heartbeat: RenderHeartbeat, now_ms: u128, later_ms: u128)
    requires
        heartbeat.due(now_ms),
    ensures
        !heartbeat.looked(now_ms).due(later_ms),
{
}

/// A watch that is over stays over, whatever page is rendered or looked at.
pub proof fn a_stopped_watch_stays_stopped(heartbeat: RenderHeartbeat, page: usize, now_ms: u128)
    requires
        heartbeat.stopped,
    ensures
        heartbeat.begun(page, now_ms).stopped,
        heartbeat.looked(now_ms).stopped,
{
}

/// The reader is told nothing of a page that is rendered within the time allowed.
pub proof fn quick_pages_go_unmentioned(
    heartbeat: RenderHeartbeat,
    page: usize,
    began_ms: u128,
    now_ms: u128,
)
    requires
        began_ms <= u64::MAX,
        began_ms <= now_ms < began_ms + SLOW_RENDER_WARN_MS,
    ensures
        !heartbeat.begun(page, began_ms).due(now_ms),
{
}

/// A page that renders for longer is mentioned at the first look after that time, if
/// none came before.
pub proof fn slow_pages_are_mentioned(
    heartbeat: RenderHeartbeat,
    page: usize,
    began_ms: u128,
    now_ms: u128,
)
    requires
        began_ms <= u64::MAX,
        now_ms >= began_ms + SLOW_RENDER_WARN_MS,
    ensures
        heartbeat.begun(page, began_ms).due(now_ms),
{
}

/// The reader is to be told exactly if a page is being rendered, nothing was told of it
/// yet, and five seconds have gone by since rendering began.
pub proof fn five_seconds_are_slow(heartbeat: RenderHeartbeat, now_ms: u128)
    ensures
        heartbeat.due(now_ms) <==> heartbeat.active && !heartbeat.warned && now_ms
            >= heartbeat.started_ms + 5_000,
{
}

/// When rendering a page begins, that page is watched from that time on, with nothing told
/// of it; a look changes nothing but that it was told of.
pub proof fn the_page_that_begins_is_watched(
    heartbeat: RenderHeartbeat,
    page: usize,
    now_ms: u128,
)
    requires
        now_ms <= u64::MAX,
    ensures
        ({
            let begun = heartbeat.begun(page, now_ms);
            &&& begun.page == page
            &&& begun.started_ms == now_ms
            &&& begun.active
            &&& !begun.warned
            &&& begun.stopped == heartbeat.stopped
        }),
        ({
            let looked = heartbeat.looked(now_ms);
            &&& looked.page == heartbeat.page
            &&& looked.started_ms == heartbeat.started_ms
            &&& looked.active == heartbeat.active
            &&& looked.stopped == heartbeat.stopped
            &&& looked.warned <==> heartbeat.warned || (heartbeat.active && now_ms
                >= heartbeat.started_ms + 5_000)
        }),
{
}

/// The time at which a page begins is kept up to whole spans of 2^64 milliseconds.
pub proof fn beginnings_are_kept_as_far_as_they_fit(
    heartbeat: RenderHeartbeat,
    page: usize,
    now_ms: u128,
)
    ensures
        (now_ms - heartbeat.begun(page, now_ms).started_ms) % 0x1_0000_0000_0000_0000 == 0,
        heartbeat.begun(page, now_ms).page == page,
        heartbeat.begun(page, now_ms).active,
        !heartbeat.begun(page, now_ms).warned,
{
}

} // verus!
