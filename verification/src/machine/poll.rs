//! The polling loop: a machine that answers requests but whose events will not
//! open.

use vstd::prelude::*;
use vstd::string::*;

use crate::machine::calls;
use crate::machine::life;
use crate::machine::life::CommandOutcome;
use crate::machine::life::PollExit;
use crate::machine::life::Problem;
use crate::time::Duration;

verus! {

/// What made the loop prepare a subscribe request.
#[derive(Debug, Clone, Copy, PartialEq, Eq, Structural)]
pub enum PrepareBy {
    /// A command changed the panes while an attempt was in flight.
    Command,
    /// A reconcile adopted a pane while an attempt was in flight.
    Adoption,
    /// The retry is due.
    Retry,
}

/// What the polling loop does next.
#[derive(Debug, Clone, Copy, PartialEq, Eq, Structural)]
pub enum Polling {
    /// Wait for a command, a poll tick, the retry if no attempt is in flight, or
    /// the attempt that is.
    Wait,
    /// Build a subscribe request from the panes as they are now. An attempt in
    /// flight is dropped.
    Prepare { by: PrepareBy },
    Reconcile,
    /// Ask for the pastor version again if it is time.
    RefreshVersion,
    ConfirmDone,
}

/// Why polling found the machine gone.
#[derive(Debug)]
pub enum PollLost {
    Command,
    Reconcile(String),
    Settle(String),
}

impl PollLost {
    /// What is shown of it.
    pub open spec fn text(self) -> Seq<char> {
        match self {
            PollLost::Command => "a request failed at the transport level while polling"@,
            PollLost::Reconcile(e) => "poll reconcile failed: "@ + e@,
            PollLost::Settle(e) => "settle check failed: "@ + e@,
        }
    }

    /// What is shown of it.
    pub fn message(&self) -> (r: String)
        ensures
            r@ == self.text(),
    {
        match self {
            PollLost::Command => "a request failed at the transport level while polling".to_owned(),
            PollLost::Reconcile(e) => {
                let mut s = "poll reconcile failed: ".to_owned();
                s.append(e.as_str());
                s
            },
            PollLost::Settle(e) => {
                let mut s = "settle check failed: ".to_owned();
                s.append(e.as_str());
                s
            },
        }
    }
}

/// How the loop ended.
#[derive(Debug)]
pub enum PollEnd {
    Subscribed,
    Lost(PollLost),
    Shutdown,
}

impl PollEnd {
    /// The end as the actor takes it.
    pub fn exit(&self) -> (r: PollExit)
        ensures
            match (*self, r) {
                (PollEnd::Subscribed, PollExit::Subscribed) => true,
                (PollEnd::Shutdown, PollExit::Shutdown) => true,
                (PollEnd::Lost(why), PollExit::Reconnect(reason)) => reason@ == why.text(),
                _ => false,
            },
    {
        match self {
            PollEnd::Subscribed => PollExit::Subscribed,
            PollEnd::Shutdown => PollExit::Shutdown,
            PollEnd::Lost(why) => PollExit::Reconnect(why.message()),
        }
    }
}

/// What came of what the loop did.
#[derive(Debug)]
pub enum PollEvent {
    Commanded(CommandOutcome),
    CommandsEnded,
    PollTick,
    RetryDue,
    /// The attempt in flight opened the events, or did not.
    Subscribed { opened: bool },
    /// The subscribe request is built and on its way, or could not be built.
    Prepared { built: bool },
    Reconciled { adopted: bool },
    Worked,
    Failed(Problem),
}

/// The polling loop. The delay before the next subscribe attempt is its own, and
/// does not leak into the actor's backoff.
#[derive(Debug, Clone, Copy, PartialEq, Eq, Structural)]
pub struct Poller {
    pub initial_backoff: Duration,
    pub max_backoff: Duration,
    pub retry_delay: Duration,
    /// A subscribe attempt is in flight.
    pub in_flight: bool,
    pub doing: Polling,
}

/// What comes next.
#[derive(Debug)]
pub enum PollNext {
    /// Go on. If `retry_in` is there, the retry comes after that long.
    Go { poller: Poller, retry_in: Option<Duration> },
    End(PollEnd),
}

impl Poller {
    /// The loop as it starts: the first retry comes after the first backoff.
    pub open spec fn fresh(initial: Duration, max: Duration) -> Poller {
        Poller {
            initial_backoff: initial,
            max_backoff: max,
            retry_delay: initial,
            in_flight: false,
            doing: Polling::Wait,
        }
    }

    /// The loop as it starts: the first retry comes after the first backoff.
    pub fn start(initial: Duration, max: Duration) -> (r: Poller)
        ensures
            r == Poller::fresh(initial, max),
    {
        Poller {
            initial_backoff: initial,
            max_backoff: max,
            retry_delay: initial,
            in_flight: false,
            doing: Polling::Wait,
        }
    }

    /// Whether the event is an answer to what the loop is doing.
    pub open spec fn awaits(self, ev: PollEvent) -> bool {
        match self.doing {
            Polling::Wait => ev is Commanded || ev is CommandsEnded || ev is PollTick || (
            ev is RetryDue && !self.in_flight) || (ev is Subscribed && self.in_flight),
            Polling::Prepare { .. } => ev is Prepared,
            Polling::Reconcile => ev is Reconciled || ev is Failed,
            Polling::RefreshVersion => ev is Worked,
            Polling::ConfirmDone => ev is Worked || ev is Failed,
        }
    }

    /// Going on with something.
    pub open spec fn go(self, doing: Polling) -> PollNext {
        PollNext::Go { poller: Poller { doing, ..self }, retry_in: None }
    }

    /// No attempt is in flight, and the next comes after twice the delay.
    pub open spec fn retry_later(self) -> PollNext {
        let retry_delay = life::doubled(self.retry_delay, self.max_backoff);
        PollNext::Go {
            poller: Poller { retry_delay, in_flight: false, doing: Polling::Wait, ..self },
            retry_in: Some(retry_delay),
        }
    }

    /// What follows an event.
    pub open spec fn after(self, ev: PollEvent) -> PollNext {
        match (self.doing, ev) {
            (Polling::Wait, PollEvent::CommandsEnded) => PollNext::End(PollEnd::Shutdown),
            (Polling::Wait, PollEvent::Commanded(CommandOutcome::Nothing)) => self.go(
                Polling::Wait,
            ),
            (Polling::Wait, PollEvent::Commanded(CommandOutcome::Resubscribe)) => self.go(
                if self.in_flight {
                    Polling::Prepare { by: PrepareBy::Command }
                } else {
                    Polling::Wait
                },
            ),
            (Polling::Wait, PollEvent::Commanded(CommandOutcome::Reconnect)) => PollNext::End(
                PollEnd::Lost(PollLost::Command),
            ),
            (Polling::Wait, PollEvent::PollTick) => self.go(Polling::Reconcile),
            (Polling::Wait, PollEvent::RetryDue) => self.go(
                Polling::Prepare { by: PrepareBy::Retry },
            ),
            (Polling::Wait, PollEvent::Subscribed { opened }) => if opened {
                PollNext::End(PollEnd::Subscribed)
            } else {
                self.retry_later()
            },
            (Polling::Prepare { by }, PollEvent::Prepared { built }) => match by {
                PrepareBy::Adoption => (Poller { in_flight: built, ..self }).go(
                    Polling::RefreshVersion,
                ),
                _ => if built {
                    (Poller { in_flight: true, ..self }).go(Polling::Wait)
                } else {
                    self.retry_later()
                },
            },
            (Polling::Reconcile, PollEvent::Reconciled { adopted }) => self.go(
                if adopted && self.in_flight {
                    Polling::Prepare { by: PrepareBy::Adoption }
                } else {
                    Polling::RefreshVersion
                },
            ),
            (Polling::Reconcile, PollEvent::Failed(p)) => if p.outage() {
                PollNext::End(PollEnd::Lost(PollLost::Reconcile(p.message)))
            } else {
                self.go(Polling::ConfirmDone)
            },
            (Polling::RefreshVersion, _) => self.go(Polling::ConfirmDone),
            (Polling::ConfirmDone, PollEvent::Failed(p)) => if p.outage() {
                PollNext::End(PollEnd::Lost(PollLost::Settle(p.message)))
            } else {
                self.go(Polling::Wait)
            },
            (Polling::ConfirmDone, _) => self.go(Polling::Wait),
            _ => arbitrary(),
        }
    }

    fn to(self, doing: Polling) -> (r: PollNext)
        ensures
            r == self.go(doing),
    {
        PollNext::Go { poller: Poller { doing, ..self }, retry_in: None }
    }

    fn to_retry_later(self) -> (r: PollNext)
        ensures
            r == self.retry_later(),
    {
        let retry_delay = self.retry_delay.doubled(self.max_backoff);
        PollNext::Go {
            poller: Poller { retry_delay, in_flight: false, doing: Polling::Wait, ..self },
            retry_in: Some(retry_delay),
        }
    }

    /// Take what came of what the loop did, and say what it does next. The
    /// subscribe attempt is never waited for alone: commands and poll ticks are
    /// served while it is in flight.
    pub fn step(self, ev: PollEvent) -> (r: PollNext)
        requires
            self.awaits(ev),
        ensures
            r == self.after(ev),
    {
        match self.doing {
            Polling::Wait => match ev {
                PollEvent::CommandsEnded => PollNext::End(PollEnd::Shutdown),
                PollEvent::Commanded(CommandOutcome::Nothing) => self.to(Polling::Wait),
                PollEvent::Commanded(CommandOutcome::Resubscribe) => self.to(
                    if self.in_flight {
                        Polling::Prepare { by: PrepareBy::Command }
                    } else {
                        Polling::Wait
                    },
                ),
                PollEvent::Commanded(CommandOutcome::Reconnect) => PollNext::End(
                    PollEnd::Lost(PollLost::Command),
                ),
                PollEvent::PollTick => self.to(Polling::Reconcile),
                PollEvent::RetryDue => self.to(Polling::Prepare { by: PrepareBy::Retry }),
                PollEvent::Subscribed { opened } => if opened {
                    PollNext::End(PollEnd::Subscribed)
                } else {
                    self.to_retry_later()
                },
                _ => vstd::pervasive::unreached(),
            },
            Polling::Prepare { by } => match ev {
                PollEvent::Prepared { built } => match by {
                    PrepareBy::Adoption => (Poller { in_flight: built, ..self }).to(
                        Polling::RefreshVersion,
                    ),
                    _ => if built {
                        (Poller { in_flight: true, ..self }).to(Polling::Wait)
                    } else {
                        self.to_retry_later()
                    },
                },
                _ => vstd::pervasive::unreached(),
            },
            Polling::Reconcile => match ev {
                PollEvent::Reconciled { adopted } => self.to(
                    if adopted && self.in_flight {
                        Polling::Prepare { by: PrepareBy::Adoption }
                    } else {
                        Polling::RefreshVersion
                    },
                ),
                PollEvent::Failed(p) => if calls::is_outage(&p.chain) {
                    PollNext::End(PollEnd::Lost(PollLost::Reconcile(p.message)))
                } else {
                    self.to(Polling::ConfirmDone)
                },
                _ => vstd::pervasive::unreached(),
            },
            Polling::RefreshVersion => self.to(Polling::ConfirmDone),
            Polling::ConfirmDone => match ev {
                PollEvent::Failed(p) => if calls::is_outage(&p.chain) {
                    PollNext::End(PollEnd::Lost(PollLost::Settle(p.message)))
                } else {
                    self.to(Polling::Wait)
                },
                _ => self.to(Polling::Wait),
            },
        }
    }
}

// ---------------------------------------------------------------------------
// What holds of every polling loop

/// The event says that the tracked panes changed.
pub open spec fn panes_changed(ev: PollEvent) -> bool {
    ||| ev matches PollEvent::Commanded(CommandOutcome::Resubscribe)
    ||| ev matches PollEvent::Reconciled { adopted: true }
}

/// The loop after a sequence of events, and whether the attempt in flight was
/// built before the panes last changed.
pub open spec fn polled(first: Poller, events: Seq<PollEvent>) -> (PollNext, bool)
    decreases events.len(),
{
    if events.len() == 0 {
        (PollNext::Go { poller: first, retry_in: None }, false)
    } else {
        match polled(first, events.drop_last()) {
            (PollNext::Go { poller, .. }, outdated) => (
                poller.after(events.last()),
                if events.last() is Prepared {
                    false
                } else {
                    outdated || (poller.in_flight && panes_changed(events.last()))
                },
            ),
            ended => ended,
        }
    }
}

/// Each event answers what the loop was doing.
pub open spec fn poll_answers(first: Poller, events: Seq<PollEvent>) -> bool
    decreases events.len(),
{
    events.len() == 0 || (poll_answers(first, events.drop_last()) && match polled(
        first,
        events.drop_last(),
    ).0 {
        PollNext::Go { poller, .. } => poller.awaits(events.last()),
        PollNext::End(_) => false,
    })
}

/// An outdated attempt is being rebuilt, and the delay stays within its bounds.
pub open spec fn poll_sound(p: Poller, outdated: bool) -> bool {
    &&& outdated ==> (p.doing matches Polling::Prepare { by } && !(by is Retry))
    &&& p.initial_backoff.nanos <= p.retry_delay.nanos <= p.max_backoff.nanos
}

/// A subscription that ends the polling was built after the panes last changed:
/// no pane dispatched or adopted meanwhile is missing from it. And the delay
/// before an attempt lies between the first backoff and the longest.
pub proof fn a_subscription_covers_every_pane(
    initial: Duration,
    max: Duration,
    events: Seq<PollEvent>,
)
    requires
        initial.nanos <= max.nanos,
        poll_answers(Poller::fresh(initial, max), events),
    ensures
        match polled(Poller::fresh(initial, max), events) {
            (PollNext::Go { poller, .. }, outdated) => poll_sound(poller, outdated)
                && poller.initial_backoff == initial && poller.max_backoff == max,
            (PollNext::End(PollEnd::Subscribed), outdated) => !outdated,
            _ => true,
        },
    decreases events.len(),
{
    if events.len() > 0 {
        a_subscription_covers_every_pane(initial, max, events.drop_last());
    }
}

/// A subscription that opens ends the polling; one that does not is tried again after
/// twice the delay, up to the longest. While one is on its way no other is tried, except
/// for panes that changed meanwhile.
pub proof fn a_subscription_is_tried_again_later(
    p: Poller,
    opened: PollNext,
    refused: PollNext,
    due: PollNext,
    built: PollNext,
    unbuilt: PollNext,
)
    requires
        p.retry_delay.nanos <= p.max_backoff.nanos,
        call_ensures(Poller::step, ((Poller { doing: Polling::Wait, in_flight: true, ..p }), PollEvent::Subscribed { opened: true }), opened),
        call_ensures(Poller::step, ((Poller { doing: Polling::Wait, in_flight: true, ..p }), PollEvent::Subscribed { opened: false }), refused),
        call_ensures(Poller::step, ((Poller { doing: Polling::Wait, in_flight: false, ..p }), PollEvent::RetryDue), due),
        call_ensures(Poller::step, ((Poller { doing: Polling::Prepare { by: PrepareBy::Retry }, ..p }), PollEvent::Prepared { built: true }), built),
        call_ensures(Poller::step, ((Poller { doing: Polling::Prepare { by: PrepareBy::Retry }, ..p }), PollEvent::Prepared { built: false }), unbuilt),
    ensures
        opened == PollNext::End(PollEnd::Subscribed),
        refused matches PollNext::Go { poller, retry_in: Some(d) } && !poller.in_flight
            && poller.doing is Wait && poller.retry_delay == d && d.nanos == (if 2
            * p.retry_delay.nanos <= p.max_backoff.nanos {
            2 * p.retry_delay.nanos
        } else {
            p.max_backoff.nanos as int
        }),
        due matches PollNext::Go { poller, .. } && poller.doing == (Polling::Prepare {
            by: PrepareBy::Retry,
        }),
        built matches PollNext::Go { poller, retry_in } && poller.in_flight && poller.doing is Wait
            && retry_in is None && poller.retry_delay == p.retry_delay,
        unbuilt matches PollNext::Go { poller, retry_in } && !poller.in_flight && poller.doing is Wait
            && retry_in is Some,
{
}

/// While polling each tick reconciles, asks for the version and confirms done tasks. A
/// command that finds the machine gone, or a reconcile or a settle check that fails below
/// herdr, ends it; any other failure does not.
pub proof fn polling_ends_only_on_an_outage(
    p: Poller,
    problem: Problem,
    tick: PollNext,
    reconciled: PollNext,
    failed: PollNext,
    asked: PollNext,
    confirmed: PollNext,
    unsettled: PollNext,
    gone: PollNext,
    ended: PollNext,
)
    requires
        call_ensures(Poller::step, ((Poller { doing: Polling::Wait, ..p }), PollEvent::PollTick), tick),
        call_ensures(Poller::step, ((Poller { doing: Polling::Reconcile, ..p }), PollEvent::Reconciled { adopted: false }), reconciled),
        call_ensures(Poller::step, ((Poller { doing: Polling::Reconcile, ..p }), PollEvent::Failed(problem)), failed),
        call_ensures(Poller::step, ((Poller { doing: Polling::RefreshVersion, ..p }), PollEvent::Worked), asked),
        call_ensures(Poller::step, ((Poller { doing: Polling::ConfirmDone, ..p }), PollEvent::Worked), confirmed),
        call_ensures(Poller::step, ((Poller { doing: Polling::ConfirmDone, ..p }), PollEvent::Failed(problem)), unsettled),
        call_ensures(Poller::step, ((Poller { doing: Polling::Wait, ..p }), PollEvent::Commanded(CommandOutcome::Reconnect)), gone),
        call_ensures(Poller::step, ((Poller { doing: Polling::Wait, ..p }), PollEvent::CommandsEnded), ended),
    ensures
        tick matches PollNext::Go { poller, .. } && poller.doing is Reconcile,
        reconciled matches PollNext::Go { poller, .. } && poller.doing is RefreshVersion,
        asked matches PollNext::Go { poller, .. } && poller.doing is ConfirmDone,
        confirmed matches PollNext::Go { poller, .. } && poller.doing is Wait,
        gone == PollNext::End(PollEnd::Lost(PollLost::Command)),
        ended == PollNext::End(PollEnd::Shutdown),
        problem.outage() ==> failed == PollNext::End(
            PollEnd::Lost(PollLost::Reconcile(problem.message)),
        ) && unsettled == PollNext::End(PollEnd::Lost(PollLost::Settle(problem.message))),
        !problem.outage() ==> (failed matches PollNext::Go { poller, .. } && poller.doing is ConfirmDone)
            && (unsettled matches PollNext::Go { poller, .. } && poller.doing is Wait),
{
}

/// Panes that change while a subscription is on its way have it built anew, whether a
/// command or a reconcile changed them.
pub proof fn changed_panes_are_subscribed_anew(p: Poller, commanded: PollNext, adopted: PollNext, quiet: PollNext)
    requires
        call_ensures(Poller::step, ((Poller { doing: Polling::Wait, in_flight: true, ..p }), PollEvent::Commanded(CommandOutcome::Resubscribe)), commanded),
        call_ensures(Poller::step, ((Poller { doing: Polling::Reconcile, in_flight: true, ..p }), PollEvent::Reconciled { adopted: true }), adopted),
        call_ensures(Poller::step, ((Poller { doing: Polling::Wait, in_flight: false, ..p }), PollEvent::Commanded(CommandOutcome::Resubscribe)), quiet),
    ensures
        commanded matches PollNext::Go { poller, .. } && poller.doing == (Polling::Prepare {
            by: PrepareBy::Command,
        }),
        adopted matches PollNext::Go { poller, .. } && poller.doing == (Polling::Prepare {
            by: PrepareBy::Adoption,
        }),
        quiet matches PollNext::Go { poller, .. } && poller.doing is Wait,
{
}

} // verus!
