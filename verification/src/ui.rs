//! Frame pacing for the menu screens: at most one iteration every
//! sixteen milliseconds, and an idle wait unless a redraw is owed. The
//! host supplies the clock and does the sleeping and polling.

use vstd::prelude::*;

verus! {

/// Milliseconds between menu frames (about sixty per second).
pub const FRAME_MS: u64 = 16;

/// Mathematical counterpart of `EventLoop`.
pub ghost struct EventLoopV {
    pub ui_needs_update: bool,
    pub last_update: int,
}

/// Paces a menu's event loop. `last_update` is the host clock's reading,
/// in milliseconds, when the last iteration finished.
pub struct EventLoop {
    pub ui_needs_update: bool,
    pub last_update: u64,
}

impl View for EventLoop {
    type V = EventLoopV;

    open spec fn view(&self) -> EventLoopV {
        EventLoopV {
            ui_needs_update: self.ui_needs_update,
            last_update: self.last_update as int,
        }
    }
}

impl EventLoop {
    /// A fresh pacer: the first iteration draws, `now` is the clock's
    /// current reading.
    pub fn new(now: u64) -> (r: EventLoop)
        ensures
            r@ == (EventLoopV { ui_needs_update: true, last_update: now as int }),
    {
        EventLoop { ui_needs_update: true, last_update: now }
    }

    /// How long the host must still sleep before the next iteration.
    pub fn sleep_needed(&self, now: u64) -> (r: u64)
        ensures
            r as int == (if now as int >= self@.last_update + FRAME_MS {
                0int
            } else if now as int >= self@.last_update {
                self@.last_update + FRAME_MS - now as int
            } else {
                FRAME_MS as int
            }),
    {
        if now >= self.last_update {
            let elapsed = now - self.last_update;
            if elapsed >= FRAME_MS {
                0
            } else {
                FRAME_MS - elapsed
            }
        } else {
            FRAME_MS
        }
    }

    /// Whether the host should block for the next event: only when no
    /// events are pending and no redraw is owed.
    pub fn wait_for_event(&self, have_events: bool) -> (r: bool)
        ensures
            r == (!have_events && !self@.ui_needs_update),
    {
        !have_events && !self.ui_needs_update
    }

    /// Close one iteration: the redraw debt is paid and the clock
    /// reading is remembered.
    pub fn end_frame(&mut self, now: u64)
        ensures
            final(self)@ == (EventLoopV { ui_needs_update: false, last_update: now as int }),
    {
        self.ui_needs_update = false;
        self.last_update = now;
    }

    /// Ask for one more iteration even without events (some widget is
    /// still animating).
    pub fn needs_update(&mut self)
        ensures
            final(self)@ == (EventLoopV { ui_needs_update: true, ..old(self)@ }),
    {
        self.ui_needs_update = true;
    }
}

} // verus!
