//! The decisions of the desktop shell's event loop: the headless loop that stands
//! in for the windowing system, and the slot that holds the running event loop
//! while one is active.

use vstd::prelude::*;

verus! {

/// Another process or thread has kicked the event loop awake.
#[derive(Debug, Clone, Copy, PartialEq, Eq, Structural)]
pub struct WakerEvent;

/// Whether the headless loop must wait for a signal: not while the signalling
/// flag is already set, so that pending events are processed in time.
pub fn must_wait(flag_set: bool) -> (r: bool)
    ensures
        r == !flag_set,
{
    !flag_set
}

/// What the headless loop does after the application handled its events.
#[derive(Debug, Clone, Copy, PartialEq, Eq, Structural)]
pub enum HeadlessStep {
    /// The application is done: leave the loop.
    Exit,
    /// Clear the signalling flag, then sleep until woken or timed out.
    ClearFlagAndSleep,
    /// Keep the flag (an animation runs), so that the next round does not wait.
    KeepFlag,
}

/// The headless loop's decision after one round of event handling.
pub fn after_headless_events(finished: bool, animating: bool) -> (r: HeadlessStep)
    ensures
        finished ==> r == HeadlessStep::Exit,
        !finished && animating ==> r == HeadlessStep::KeepFlag,
        !finished && !animating ==> r == HeadlessStep::ClearFlagAndSleep,
{
    if finished {
        HeadlessStep::Exit
    } else if animating {
        HeadlessStep::KeepFlag
    } else {
        HeadlessStep::ClearFlagAndSleep
    }
}

/// The event loop that is running now, if any; at most one at a time.
pub struct CurrentEventLoop<L> {
    current: Option<L>,
}

impl<L> CurrentEventLoop<L> {
    pub closed spec fn view(&self) -> Option<L> {
        self.current
    }

    /// A slot that holds no event loop.
    pub fn new() -> (r: Self)
        ensures
            r@.is_none(),
    {
        CurrentEventLoop { current: None }
    }

    pub fn is_set(&self) -> (r: bool)
        ensures
            r == self@.is_some(),
    {
        self.current.is_some()
    }
}

/// Marks an event loop as the current one for as long as it lives.
pub struct EventLoopGuard;

impl EventLoopGuard {
    /// Makes `event_loop` the current event loop; none may be set already.
    pub fn new<L>(slot: &mut CurrentEventLoop<L>, event_loop: L) -> (r: Self)
        requires
            old(slot)@.is_none(),
        ensures
            final(slot)@ == Some(event_loop),
    {
        slot.current = Some(event_loop);
        EventLoopGuard
    }

    /// Ends the guard: no event loop is current any more.
    pub fn release<L>(self, slot: &mut CurrentEventLoop<L>)
        ensures
            final(slot)@.is_none(),
    {
        slot.current = None;
    }
}

/// Runs `f` on the current event loop, if one is set.
pub fn with_current_event_loop<L, R, F: FnOnce(&L) -> R>(slot: &CurrentEventLoop<L>, f: F) -> (r:
    Option<R>)
    requires
        forall|l: &L| f.requires((l,)),
    ensures
        slot@.is_none() ==> r.is_none(),
        slot@.is_some() ==> r.is_some() && f.ensures((&slot@.unwrap(),), r.unwrap()),
{
    match &slot.current {
        Some(l) => Some(f(l)),
        None => None,
    }
}

} // verus!
