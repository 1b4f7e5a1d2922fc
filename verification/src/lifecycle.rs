//! The life of one device session: what it holds in each phase, and what
//! the driver of the session has to do after each thing that happens to it.
//!
//! A session acquires three things in order: the handle of the physical
//! device, a synthetic device that mirrors its keys, and the exclusive grab.
//! Only with all three does it intercept. Whatever goes wrong on the way, or
//! later, ends the session and releases exactly what it holds.

use vstd::prelude::*;

verus! {

/// Where a session stands.
#[derive(Clone, Copy, Debug, PartialEq, Eq, Structural)]
pub enum Phase {
    /// Nothing is acquired yet.
    Closed,
    /// The physical device is open.
    Opened,
    /// The synthetic device exists as well.
    Mirrored,
    /// The grab is held as well; the poll loop runs.
    Intercepting,
    /// The session is over and holds nothing.
    Ended,
}

/// What happened to a session, as its driver reports it.
#[derive(Clone, Copy, Debug, PartialEq, Eq, Structural)]
pub enum DeviceEvent {
    /// The physical device was opened.
    Opened,
    /// The physical device could not be opened; its path may be gone.
    OpenFailed,
    /// The synthetic device was created with the keys of the physical one.
    SyntheticCreated,
    /// The keys could not be read or the synthetic device was not created.
    SyntheticFailed,
    /// The exclusive grab was obtained.
    Grabbed,
    /// The exclusive grab was denied.
    GrabDenied,
    /// A batch of events and the snapshot after it were read.
    Polled,
    /// A read failed for a passing reason.
    ReadInterrupted,
    /// Writing to the synthetic device failed.
    EmitFailed,
    /// The physical device vanished or failed for good.
    DeviceLost,
    /// The session was asked to stop.
    StopRequested,
}

/// What a session holds.
#[derive(Clone, Copy, Debug, PartialEq, Eq, Structural)]
pub struct Held {
    pub handle: bool,
    pub synthetic: bool,
    pub grab: bool,
}

/// What the driver of a session does next.
#[derive(Clone, Copy, Debug, PartialEq, Eq, Structural)]
pub enum Directive {
    /// Read the keys of the physical device and create the synthetic one.
    CreateSynthetic,
    /// Take the exclusive grab.
    Grab,
    /// Read the next batch of events.
    Poll,
    /// Release the listed resources and leave the loop.
    Release(Held),
    /// Nothing: the session is already over.
    Stay,
}

impl DeviceEvent {
    /// Events after which a session cannot go on.
    pub open spec fn is_fatal(self) -> bool {
        self is OpenFailed || self is SyntheticFailed || self is GrabDenied || self is DeviceLost
            || self is StopRequested
    }

    /// Failures that are logged and do not end an intercepting session.
    pub open spec fn is_recoverable(self) -> bool {
        self is ReadInterrupted || self is EmitFailed
    }
}

impl Phase {
    /// What a session holds in this phase.
    pub open spec fn held(self) -> Held {
        match self {
            Phase::Closed => Held { handle: false, synthetic: false, grab: false },
            Phase::Opened => Held { handle: true, synthetic: false, grab: false },
            Phase::Mirrored => Held { handle: true, synthetic: true, grab: false },
            Phase::Intercepting => Held { handle: true, synthetic: true, grab: true },
            Phase::Ended => Held { handle: false, synthetic: false, grab: false },
        }
    }

    /// The phase after `event`, and what the driver does next. An event
    /// that does not belong to the phase ends the session like a failure.
    pub open spec fn transition(self, event: DeviceEvent) -> (Phase, Directive) {
        match (self, event) {
            (Phase::Ended, _) => (Phase::Ended, Directive::Stay),
            (Phase::Closed, DeviceEvent::Opened) => (Phase::Opened, Directive::CreateSynthetic),
            (Phase::Opened, DeviceEvent::SyntheticCreated) => (Phase::Mirrored, Directive::Grab),
            (Phase::Mirrored, DeviceEvent::Grabbed) => (Phase::Intercepting, Directive::Poll),
            (Phase::Intercepting, DeviceEvent::Polled) => (Phase::Intercepting, Directive::Poll),
            (Phase::Intercepting, DeviceEvent::ReadInterrupted) => (
                Phase::Intercepting,
                Directive::Poll,
            ),
            (Phase::Intercepting, DeviceEvent::EmitFailed) => (
                Phase::Intercepting,
                Directive::Poll,
            ),
            (p, _) => (Phase::Ended, Directive::Release(p.held())),
        }
    }

    /// The phase reached from `self` after all of `events`, in order.
    pub open spec fn after(self, events: Seq<DeviceEvent>) -> Phase
        decreases events.len(),
    {
        if events.len() == 0 {
            self
        } else {
            self.after(events.drop_last()).transition(events.last()).0
        }
    }

    /// The phase of a session that has not started.
    pub fn start() -> (p: Phase)
        ensures
            p == Phase::Closed,
    {
        Phase::Closed
    }

    /// What the session holds in this phase.
    pub fn holdings(self) -> (h: Held)
        ensures
            h == self.held(),
    {
        match self {
            Phase::Closed | Phase::Ended => Held { handle: false, synthetic: false, grab: false },
            Phase::Opened => Held { handle: true, synthetic: false, grab: false },
            Phase::Mirrored => Held { handle: true, synthetic: true, grab: false },
            Phase::Intercepting => Held { handle: true, synthetic: true, grab: true },
        }
    }

    /// Takes `event` into account: the next phase and the next thing to do.
    pub fn on(self, event: DeviceEvent) -> (r: (Phase, Directive))
        ensures
            r == self.transition(event),
    {
        match self {
            Phase::Ended => (Phase::Ended, Directive::Stay),
            Phase::Closed => match event {
                DeviceEvent::Opened => (Phase::Opened, Directive::CreateSynthetic),
                _ => (Phase::Ended, Directive::Release(self.holdings())),
            },
            Phase::Opened => match event {
                DeviceEvent::SyntheticCreated => (Phase::Mirrored, Directive::Grab),
                _ => (Phase::Ended, Directive::Release(self.holdings())),
            },
            Phase::Mirrored => match event {
                DeviceEvent::Grabbed => (Phase::Intercepting, Directive::Poll),
                _ => (Phase::Ended, Directive::Release(self.holdings())),
            },
            Phase::Intercepting => match event {
                DeviceEvent::Polled | DeviceEvent::ReadInterrupted | DeviceEvent::EmitFailed => (
                    Phase::Intercepting,
                    Directive::Poll,
                ),
                _ => (Phase::Ended, Directive::Release(self.holdings())),
            },
        }
    }
}

/// A fatal event ends a session in any phase, and the release it orders
/// lists exactly what the session held at that moment.
pub proof fn fatal_event_releases_what_is_held(p: Phase, e: DeviceEvent)
    requires
        e.is_fatal(),
        p != Phase::Ended,
    ensures
        p.transition(e) == (Phase::Ended, Directive::Release(p.held())),
{
}

/// A failed read or a failed emission leaves an intercepting session
/// running, with everything still held.
pub proof fn recoverable_event_keeps_intercepting(e: DeviceEvent)
    requires
        e.is_recoverable(),
    ensures
        Phase::Intercepting.transition(e) == (Phase::Intercepting, Directive::Poll),
{
}

/// A session intercepts only with the handle, the synthetic device and the
/// grab all held, and the only way into interception is a granted grab on a
/// session that already holds the other two.
pub proof fn interception_holds_everything(p: Phase, e: DeviceEvent)
    requires
        p.transition(e).0 == Phase::Intercepting,
    ensures
        Phase::Intercepting.held() == (Held { handle: true, synthetic: true, grab: true }),
        p == Phase::Intercepting || (p == Phase::Mirrored && e == DeviceEvent::Grabbed),
{
}

/// Once over, a session stays over whatever is reported to it, and it
/// holds nothing.
pub proof fn ended_is_final(events: Seq<DeviceEvent>)
    ensures
        Phase::Ended.after(events) == Phase::Ended,
        Phase::Ended.held() == (Held { handle: false, synthetic: false, grab: false }),
    decreases events.len(),
{
    if events.len() > 0 {
        ended_is_final(events.drop_last());
    }
}

/// A session that has seen a fatal event is over, whatever came before and
/// after it.
pub proof fn over_after_fatal_event(
    p: Phase,
    before: Seq<DeviceEvent>,
    e: DeviceEvent,
    afterwards: Seq<DeviceEvent>,
)
    requires
        e.is_fatal(),
    ensures
        p.after(before.push(e) + afterwards) == Phase::Ended,
    decreases afterwards.len(),
{
    let all = before.push(e) + afterwards;
    if afterwards.len() == 0 {
        assert(all =~= before.push(e));
        assert(all.drop_last() =~= before);
    } else {
        assert(all.drop_last() =~= before.push(e) + afterwards.drop_last());
        over_after_fatal_event(p, before, e, afterwards.drop_last());
    }
}

} // verus!
