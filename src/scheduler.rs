use vstd::prelude::*;

verus! {

/// What the request loop of one direction does next.
#[derive(Clone, Copy, Debug, PartialEq, Eq, Structural)]
pub enum SchedulerAction {
    /// No requests are configured in this direction: the loop ends.
    Exit,
    /// A slot was taken: open a stream and launch a request on it.
    Launch,
    /// Every slot is taken: wait until a request completes.
    Wait,
}

/// A slot event of the request loop.
#[derive(Clone, Copy, Debug, PartialEq, Eq, Structural)]
pub enum SlotEvent {
    /// The loop asks for a slot.
    Acquire,
    /// A launched request completed, with or without success.
    Release,
}

/// The concurrency budget of one direction.
pub struct Scheduler {
    concurrency: u64,
    in_flight: u64,
}

impl Scheduler {
    pub closed spec fn concurrency(&self) -> nat {
        self.concurrency as nat
    }

    pub closed spec fn in_flight(&self) -> nat {
        self.in_flight as nat
    }

    pub open spec fn wf(&self) -> bool {
        self.in_flight() <= self.concurrency()
    }

    /// The budget after `e`: an acquire takes a slot if one is free, a release
    /// gives one back if one is taken.
    pub closed spec fn step(self, e: SlotEvent) -> Scheduler {
        match e {
            SlotEvent::Acquire => if self.in_flight < self.concurrency {
                Scheduler { in_flight: (self.in_flight + 1) as u64, ..self }
            } else {
                self
            },
            SlotEvent::Release => if self.in_flight > 0 {
                Scheduler { in_flight: (self.in_flight - 1) as u64, ..self }
            } else {
                self
            },
        }
    }

    /// The budget after each of `events` in turn.
    pub open spec fn run(self, events: Seq<SlotEvent>) -> Scheduler
        decreases events.len(),
    {
        if events.len() == 0 {
            self
        } else {
            self.run(events.drop_last()).step(events.last())
        }
    }

    /// A budget of `concurrency` slots, none taken.
    pub fn new(concurrency: u64) -> (r: Scheduler)
        ensures
            r.wf(),
            r.concurrency() == concurrency,
            r.in_flight() == 0,
    {
        Scheduler { concurrency, in_flight: 0 }
    }

    pub fn concurrency_value(&self) -> (r: u64)
        ensures
            r == self.concurrency(),
    {
        self.concurrency
    }

    pub fn in_flight_count(&self) -> (r: u64)
        ensures
            r == self.in_flight(),
    {
        self.in_flight
    }

    /// Whether no requests are configured in this direction.
    pub fn is_idle(&self) -> (r: bool)
        ensures
            r <==> self.concurrency() == 0,
    {
        self.concurrency == 0
    }

    /// Takes a slot where one is free.
    pub fn try_acquire(&mut self) -> (r: bool)
        requires
            old(self).wf(),
        ensures
            final(self).wf(),
            *final(self) == old(self).step(SlotEvent::Acquire),
            r <==> old(self).in_flight() < old(self).concurrency(),
            final(self).concurrency() == old(self).concurrency(),
            final(self).in_flight() == if r { old(self).in_flight() + 1 } else { old(self).in_flight() },
    {
        if self.in_flight < self.concurrency {
            self.in_flight = self.in_flight + 1;
            true
        } else {
            false
        }
    }

    /// Gives back the slot of a completed request; `false` where none was taken.
    pub fn release(&mut self) -> (r: bool)
        requires
            old(self).wf(),
        ensures
            final(self).wf(),
            *final(self) == old(self).step(SlotEvent::Release),
            r <==> old(self).in_flight() > 0,
            final(self).concurrency() == old(self).concurrency(),
            final(self).in_flight() == if r { old(self).in_flight() - 1 } else { old(self).in_flight() as int },
    {
        if self.in_flight > 0 {
            self.in_flight = self.in_flight - 1;
            true
        } else {
            false
        }
    }

    /// The next step of the request loop: end it when idle, otherwise take a
    /// slot and launch, or wait for one.
    pub fn decide(&mut self) -> (r: SchedulerAction)
        requires
            old(self).wf(),
        ensures
            final(self).wf(),
            old(self).concurrency() == 0 ==> r == SchedulerAction::Exit && *final(self) == *old(self),
            old(self).concurrency() > 0 ==> *final(self) == old(self).step(SlotEvent::Acquire),
            final(self).concurrency() == old(self).concurrency(),
            final(self).in_flight() == if r == SchedulerAction::Launch {
                old(self).in_flight() + 1 as int
            } else {
                old(self).in_flight() as int
            },
            old(self).concurrency() > 0 && old(self).in_flight() < old(self).concurrency() ==> r
                == SchedulerAction::Launch,
            old(self).concurrency() > 0 && old(self).in_flight() == old(self).concurrency() ==> r
                == SchedulerAction::Wait,
    {
        if self.is_idle() {
            SchedulerAction::Exit
        } else if self.try_acquire() {
            SchedulerAction::Launch
        } else {
            SchedulerAction::Wait
        }
    }
}

/// Whatever slot events happen, in whatever order, the number of requests in
/// flight never exceeds the configured concurrency.
pub proof fn lemma_in_flight_bounded(s: Scheduler, events: Seq<SlotEvent>)
    requires
        s.wf(),
    ensures
        s.run(events).wf(),
        s.run(events).concurrency() == s.concurrency(),
        s.run(events).in_flight() <= s.concurrency(),
    decreases events.len(),
{
    if events.len() > 0 {
        lemma_in_flight_bounded(s, events.drop_last());
    }
}

} // verus!
