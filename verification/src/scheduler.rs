//! The poll scheduler's decisions: when a timer tick starts a round, and
//! what happens to ticks that arrive while a round is still in flight.
//!
//! The scheduler never waits and never polls. Its driver owns the timer and
//! the fan-out; it reports each tick and each finished round, and does what
//! the scheduler answers.

use vstd::prelude::*;

verus! {

/// Seconds between two timer ticks.
pub const POLL_INTERVAL_SECS: u64 = 1;

/// What the driver does on a timer tick.
#[derive(Clone, Copy, Debug, PartialEq, Eq, Structural)]
pub enum TickAction {
    /// Start a round now.
    Dispatch,
    /// A round is in flight; the tick is remembered and answered when that
    /// round finishes.
    Defer,
    /// Collection is idle; nothing is started.
    Rest,
}

/// What the driver does when the round in flight has finished.
#[derive(Clone, Copy, Debug, PartialEq, Eq, Structural)]
pub enum RoundAction {
    /// A tick arrived meanwhile: start the next round right away.
    DispatchNow,
    /// Wait for the next tick.
    Wait,
}

/// Mathematical model of a [`Scheduler`].
pub struct SchedulerModel {
    /// A round has been dispatched and has not finished.
    pub in_flight: bool,
    /// A tick arrived while that round was in flight.
    pub tick_pending: bool,
}

/// An event reported to the scheduler, with whether collection was armed at
/// that moment.
pub enum SchedulerEvent {
    Tick { armed: bool },
    RoundFinished { armed: bool },
}

impl SchedulerModel {
    /// A tick is only ever pending behind a round in flight.
    pub open spec fn wf(self) -> bool {
        self.tick_pending ==> self.in_flight
    }

    /// The scheduler at rest.
    pub open spec fn initial() -> Self {
        SchedulerModel { in_flight: false, tick_pending: false }
    }

    /// The answer to a tick.
    pub open spec fn tick_action(self, armed: bool) -> TickAction {
        if self.in_flight {
            TickAction::Defer
        } else if armed {
            TickAction::Dispatch
        } else {
            TickAction::Rest
        }
    }

    /// The scheduler after a tick.
    pub open spec fn after_tick(self, armed: bool) -> Self {
        if self.in_flight {
            SchedulerModel { tick_pending: true, ..self }
        } else if armed {
            SchedulerModel { in_flight: true, tick_pending: false }
        } else {
            self
        }
    }

    /// The answer to a finished round.
    pub open spec fn round_action(self, armed: bool) -> RoundAction {
        if self.in_flight && self.tick_pending && armed {
            RoundAction::DispatchNow
        } else {
            RoundAction::Wait
        }
    }

    /// The scheduler after a finished round.
    pub open spec fn after_round(self, armed: bool) -> Self {
        if self.in_flight && self.tick_pending && armed {
            SchedulerModel { in_flight: true, tick_pending: false }
        } else {
            SchedulerModel { in_flight: false, tick_pending: false }
        }
    }

    /// The scheduler after one event.
    pub open spec fn step(self, event: SchedulerEvent) -> Self {
        match event {
            SchedulerEvent::Tick { armed } => self.after_tick(armed),
            SchedulerEvent::RoundFinished { armed } => self.after_round(armed),
        }
    }

    /// Whether the answer to `event` starts a round.
    pub open spec fn dispatches(self, event: SchedulerEvent) -> bool {
        match event {
            SchedulerEvent::Tick { armed } => self.tick_action(armed) == TickAction::Dispatch,
            SchedulerEvent::RoundFinished { armed } => self.round_action(armed)
                == RoundAction::DispatchNow,
        }
    }

    /// Whether `event` reports the end of the round in flight.
    pub open spec fn finishes(self, event: SchedulerEvent) -> bool {
        event is RoundFinished && self.in_flight
    }

    /// The scheduler after a sequence of events.
    pub open spec fn run(self, events: Seq<SchedulerEvent>) -> Self
        decreases events.len(),
    {
        if events.len() == 0 {
            self
        } else {
            self.run(events.drop_last()).step(events.last())
        }
    }

    /// How many rounds the answers to a sequence of events started.
    pub open spec fn started(self, events: Seq<SchedulerEvent>) -> nat
        decreases events.len(),
    {
        if events.len() == 0 {
            0
        } else {
            let before = self.run(events.drop_last());
            self.started(events.drop_last()) + if before.dispatches(events.last()) {
                1nat
            } else {
                0nat
            }
        }
    }

    /// How many rounds in flight a sequence of events reported as finished.
    pub open spec fn finished(self, events: Seq<SchedulerEvent>) -> nat
        decreases events.len(),
    {
        if events.len() == 0 {
            0
        } else {
            let before = self.run(events.drop_last());
            self.finished(events.drop_last()) + if before.finishes(events.last()) {
                1nat
            } else {
                0nat
            }
        }
    }
}

/// The poll scheduler: single flight, with at most one remembered tick.
pub struct Scheduler {
    in_flight: bool,
    tick_pending: bool,
}

impl View for Scheduler {
    type V = SchedulerModel;

    closed spec fn view(&self) -> SchedulerModel {
        SchedulerModel { in_flight: self.in_flight, tick_pending: self.tick_pending }
    }
}

impl Scheduler {
    #[verifier::type_invariant]
    spec fn consistent(self) -> bool {
        self@.wf()
    }

    /// A scheduler at rest: no round in flight, no tick remembered.
    pub fn new() -> (scheduler: Self)
        ensures
            scheduler@ == SchedulerModel::initial(),
    {
        Scheduler { in_flight: false, tick_pending: false }
    }

    /// Whether a round has been dispatched and has not finished.
    pub fn in_flight(&self) -> (yes: bool)
        ensures
            yes == self@.in_flight,
            self@.wf(),
    {
        proof {
            use_type_invariant(self);
        }
        self.in_flight
    }

    /// Whether a tick is remembered behind the round in flight.
    pub fn tick_pending(&self) -> (yes: bool)
        ensures
            yes == self@.tick_pending,
    {
        self.tick_pending
    }

    /// Reports a timer tick. A round is started only if collection is armed
    /// and no round is in flight; a tick that finds a round in flight is
    /// remembered, so that the next round follows right after.
    pub fn on_tick(&mut self, armed: bool) -> (action: TickAction)
        ensures
            action == old(self)@.tick_action(armed),
            final(self)@ == old(self)@.after_tick(armed),
            final(self)@.wf(),
    {
        proof {
            use_type_invariant(&*self);
        }
        if self.in_flight {
            *self = Scheduler { in_flight: true, tick_pending: true };
            TickAction::Defer
        } else if armed {
            *self = Scheduler { in_flight: true, tick_pending: false };
            TickAction::Dispatch
        } else {
            TickAction::Rest
        }
    }

    /// Reports that the round in flight has finished. If a tick arrived
    /// meanwhile and collection is still armed, the next round starts right
    /// away; otherwise the scheduler rests until the next tick.
    pub fn on_round_finished(&mut self, armed: bool) -> (action: RoundAction)
        ensures
            action == old(self)@.round_action(armed),
            final(self)@ == old(self)@.after_round(armed),
            final(self)@.wf(),
    {
        if self.in_flight && self.tick_pending && armed {
            *self = Scheduler { in_flight: true, tick_pending: false };
            RoundAction::DispatchNow
        } else {
            *self = Scheduler { in_flight: false, tick_pending: false };
            RoundAction::Wait
        }
    }
}

/// Every step keeps the scheduler consistent.
pub proof fn lemma_step_keeps_wf(scheduler: SchedulerModel, event: SchedulerEvent)
    requires
        scheduler.wf(),
    ensures
        scheduler.step(event).wf(),
{
}

/// Single flight: whatever the events, the rounds started so far exceed the
/// rounds finished so far by one while a round is in flight and by nothing
/// otherwise. Two rounds are never in flight together.
pub proof fn lemma_single_flight(events: Seq<SchedulerEvent>)
    ensures
        SchedulerModel::initial().run(events).wf(),
        SchedulerModel::initial().started(events) == SchedulerModel::initial().finished(events)
            + if SchedulerModel::initial().run(events).in_flight {
            1nat
        } else {
            0nat
        },
    decreases events.len(),
{
    if events.len() > 0 {
        lemma_single_flight(events.drop_last());
    }
}

/// While collection is idle no round is started, whatever the scheduler's
/// state and whatever happens.
pub proof fn lemma_idle_never_dispatches(scheduler: SchedulerModel)
    ensures
        !scheduler.dispatches(SchedulerEvent::Tick { armed: false }),
        !scheduler.dispatches(SchedulerEvent::RoundFinished { armed: false }),
{
}

/// An idle scheduler starts nothing: a tick while collection is idle leaves
/// a resting scheduler at rest.
pub proof fn lemma_idle_tick_rests(scheduler: SchedulerModel)
    requires
        !scheduler.in_flight,
    ensures
        scheduler.tick_action(false) == TickAction::Rest,
        scheduler.after_tick(false) == scheduler,
{
}

/// A tick that arrives during a round is answered exactly once: the round's
/// end starts the next round if collection is armed, and the tick is then
/// forgotten.
pub proof fn lemma_deferred_tick_follows(scheduler: SchedulerModel)
    requires
        scheduler.in_flight,
    ensures
        scheduler.after_tick(true).round_action(true) == RoundAction::DispatchNow,
        scheduler.after_tick(true).after_round(true) == (SchedulerModel {
            in_flight: true,
            tick_pending: false,
        }),
        scheduler.after_tick(true).round_action(false) == RoundAction::Wait,
{
}

} // verus!
