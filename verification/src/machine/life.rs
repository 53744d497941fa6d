//! The life of a machine's actor: connecting, serving, polling, and waiting
//! while the machine is down.

use vstd::prelude::*;
use vstd::string::*;

use crate::digits;
use crate::machine::calls;
use crate::machine::calls::Cause;
use crate::machine::memory;
use crate::machine::status::ChannelState;
use crate::time::Duration;

verus! {

/// The oldest herdr protocol that pastor speaks.
pub const MIN_HERDR_PROTOCOL: u32 = 22;

/// An error, with the chain of its causes.
#[derive(Debug)]
pub struct Problem {
    pub chain: Vec<Cause>,
    pub message: String,
}

impl Problem {
    /// The error means that the machine is gone.
    pub open spec fn outage(self) -> bool {
        exists|i: int| 0 <= i < self.chain@.len() && (#[trigger] self.chain@[i]).outage()
    }
}

/// What an outage has been reported as.
#[derive(Debug, Clone, Copy, PartialEq, Eq, Structural)]
pub enum Announce {
    /// `machine.lost`
    Lost,
    /// `machine.connected`
    Connected,
}

/// What is known of connects and outages so far.
#[derive(Debug, Clone, Copy, PartialEq, Eq, Structural)]
pub struct Outage {
    /// Has the actor connected successfully at least once (ever)?
    pub was_connected: bool,
    /// Consecutive connect attempts that failed since the last success. Only
    /// decides the cold-start case.
    pub failures: u32,
    /// `machine.lost` has been emitted for the outage in progress.
    pub lost_announced: bool,
}

impl Outage {
    /// Nothing happened yet.
    pub open spec fn fresh() -> Outage {
        Outage { was_connected: false, failures: 0, lost_announced: false }
    }

    /// One more connect attempt failed.
    pub open spec fn failed(self) -> Outage {
        Outage {
            failures: if self.failures < u32::MAX {
                (self.failures + 1) as u32
            } else {
                self.failures
            },
            ..self
        }
    }

    /// The outage is worth a report: the machine was connected before, or two
    /// attempts failed from a cold start.
    pub open spec fn counts(self) -> bool {
        self.was_connected || self.failures >= 2
    }

    /// After the machine was found lost.
    pub open spec fn lost(self) -> (Outage, Option<Announce>) {
        if !self.lost_announced && self.counts() {
            (Outage { lost_announced: true, ..self }, Some(Announce::Lost))
        } else {
            (self, None)
        }
    }

    /// After the machine was found connected.
    pub open spec fn connected(self) -> (Outage, Option<Announce>) {
        (
            Outage { was_connected: true, failures: 0, lost_announced: false },
            if self.lost_announced {
                Some(Announce::Connected)
            } else {
                None
            },
        )
    }

    fn count_failure(&mut self)
        ensures
            *final(self) == old(self).failed(),
    {
        if self.failures < u32::MAX {
            self.failures = self.failures + 1;
        }
    }

    /// Emits `machine.lost` once per outage: immediately if the machine was
    /// connected before, otherwise only after two consecutive failures from a
    /// cold start. Stays quiet for the rest of the outage; `announce_connected`
    /// clears the flag on recovery.
    pub fn announce_lost(&mut self) -> (r: Option<Announce>)
        ensures
            (*final(self), r) == old(self).lost(),
    {
        if self.lost_announced {
            return None;
        }
        if self.was_connected || self.failures >= 2 {
            self.lost_announced = true;
            return Some(Announce::Lost);
        }
        None
    }

    /// Emits `machine.connected` only when recovering from an announced outage,
    /// never on the very first connect.
    pub fn announce_connected(&mut self) -> (r: Option<Announce>)
        ensures
            (*final(self), r) == old(self).connected(),
    {
        let r = if self.lost_announced {
            Some(Announce::Connected)
        } else {
            None
        };
        self.lost_announced = false;
        self.was_connected = true;
        self.failures = 0;
        r
    }
}

/// What is wrong with a machine that is not connected.
#[derive(Debug)]
pub enum Wrong {
    Ping(String),
    PingTimedOut,
    Protocol(u32),
    Reconcile(String),
    Events(String),
    /// A request failed while polling.
    Poll(String),
    ConnectionLost,
}

impl Wrong {
    /// What is shown of it. `limit` is the time a request may take.
    pub open spec fn text(self, limit: Seq<char>) -> Seq<char> {
        match self {
            Wrong::Ping(e) => e@,
            Wrong::PingTimedOut => "ping timed out after "@ + limit,
            Wrong::Protocol(p) => "herdr protocol "@ + digits::decimal(p as nat) + " is older than "@
                + digits::decimal(MIN_HERDR_PROTOCOL as nat) + "; update herdr on this machine"@,
            Wrong::Reconcile(e) => "reconcile: "@ + e@,
            Wrong::Events(e) => "events: "@ + e@,
            Wrong::Poll(e) => e@,
            Wrong::ConnectionLost => "connection lost"@,
        }
    }

    /// What is shown of it. `limit` is the time a request may take.
    pub fn message(&self, limit: &str) -> (r: String)
        ensures
            r@ == self.text(limit@),
    {
        match self {
            Wrong::Ping(e) => e.clone(),
            Wrong::PingTimedOut => {
                let mut s = "ping timed out after ".to_owned();
                s.append(limit);
                s
            },
            Wrong::Protocol(p) => {
                let mut s = "herdr protocol ".to_owned();
                s.append(digits::print_number(*p as u64).as_str());
                s.append(" is older than ");
                s.append(digits::print_number(MIN_HERDR_PROTOCOL as u64).as_str());
                s.append("; update herdr on this machine");
                s
            },
            Wrong::Reconcile(e) => {
                let mut s = "reconcile: ".to_owned();
                s.append(e.as_str());
                s
            },
            Wrong::Events(e) => {
                let mut s = "events: ".to_owned();
                s.append(e.as_str());
                s
            },
            Wrong::Poll(e) => e.clone(),
            Wrong::ConnectionLost => "connection lost".to_owned(),
        }
    }
}

/// What the connected loop should do after a command: nothing, reopen the event
/// subscription (the tracked pane set changed), or drop everything and reconnect
/// (a request failed below herdr's interface, so the machine looks lost).
#[derive(Debug, Clone, Copy, PartialEq, Eq, Structural)]
pub enum CommandOutcome {
    Nothing,
    Resubscribe,
    Reconnect,
}

/// How polling ended.
#[derive(Debug)]
pub enum PollExit {
    /// A fresh subscription.
    Subscribed,
    /// A request failed below herdr's interface, for this reason.
    Reconnect(String),
    /// The commands ended: nothing asks about this machine any more.
    Shutdown,
}

/// What made the connected loop open its events again.
#[derive(Debug, Clone, Copy, PartialEq, Eq, Structural)]
pub enum ReopenBy {
    /// A command that changed the panes.
    Command,
    /// A reconcile that adopted one.
    Reconcile,
}

/// What the actor does next.
#[derive(Debug, Clone, Copy, PartialEq, Eq, Structural)]
pub enum Doing {
    /// Ping the machine.
    Ping,
    /// Ask for its pastor version. `protocol` is what the ping told.
    AskVersion { protocol: u32 },
    /// Reconcile for the first time.
    FirstReconcile,
    /// Open the events for the first time.
    Open,
    /// Poll until the events open.
    Poll,
    /// Wait for a command, a herdr event or a tick.
    Serve,
    /// Open the events again.
    Reopen { by: ReopenBy },
    /// Poll until the events open again.
    PollAgain { by: ReopenBy },
    /// Deliver the prompts held after a trust answer.
    DeliverHeld,
    /// Confirm the tasks whose settle window has passed.
    ConfirmDone,
    Reconcile,
    /// Close the panes of tasks done long enough.
    AutoClose,
    /// Ask for the pastor version again if it is time.
    RefreshVersion,
    /// Answer commands with an error for so long.
    Drain { wait: Duration },
    Stop,
}

/// What came of what the actor did.
#[derive(Debug)]
pub enum LifeEvent {
    Ponged { protocol: u32 },
    PingFailed(String),
    PingTimedOut,
    VersionAsked,
    /// A reconcile worked, and adopted a pane or not.
    Reconciled { adopted: bool },
    /// What was being done failed.
    Failed(Problem),
    /// What was being done worked.
    Worked,
    PollEnded(PollExit),
    Commanded(CommandOutcome),
    CommandsEnded,
    /// The stream of herdr events ended.
    StreamEnded,
    SettleTick,
    ReconcileTick,
    Drained,
}

/// The actor: what it knows, how its machine is reached, and what it does next.
#[derive(Debug)]
pub struct Life {
    pub initial_backoff: Duration,
    pub max_backoff: Duration,
    /// How long the next outage waits before it tries again.
    pub backoff: Duration,
    pub outage: Outage,
    pub channel: ChannelState,
    pub wrong: Option<Wrong>,
    /// When the events last opened for a new connection.
    pub connected_at: Duration,
    pub doing: Doing,
}

/// What a step leads to besides the next thing to do.
#[derive(Debug, Clone, Copy, PartialEq, Eq, Structural)]
pub struct Told {
    /// The outage or recovery to report.
    pub announce: Option<Announce>,
    /// The count of live agents is to be taken again.
    pub refresh_live: bool,
}

/// Nothing to tell.
pub open spec fn quiet() -> Told {
    Told { announce: None, refresh_live: false }
}

/// Twice the span, but no more than the most.
pub open spec fn doubled(d: Duration, most: Duration) -> Duration {
    Duration {
        nanos: if 2 * d.nanos < most.nanos {
            (2 * d.nanos) as u128
        } else {
            most.nanos
        },
    }
}

impl Life {
    /// A new actor.
    pub open spec fn newborn(initial: Duration, max: Duration) -> Life {
        Life {
            initial_backoff: initial,
            max_backoff: max,
            backoff: initial,
            outage: Outage::fresh(),
            channel: ChannelState::Connecting,
            wrong: None,
            connected_at: Duration { nanos: 0 },
            doing: Doing::Ping,
        }
    }

    /// A new actor.
    pub fn start(initial: Duration, max: Duration) -> (r: Life)
        ensures
            r == Life::newborn(initial, max),
    {
        Life {
            initial_backoff: initial,
            max_backoff: max,
            backoff: initial,
            outage: Outage { was_connected: false, failures: 0, lost_announced: false },
            channel: ChannelState::Connecting,
            wrong: None,
            connected_at: Duration { nanos: 0 },
            doing: Doing::Ping,
        }
    }

    /// Whether the event is an answer to what the actor is doing.
    pub open spec fn awaits(self, ev: LifeEvent) -> bool {
        match self.doing {
            Doing::Ping => ev is Ponged || ev is PingFailed || ev is PingTimedOut,
            Doing::AskVersion { .. } => ev is VersionAsked,
            Doing::FirstReconcile | Doing::Reconcile => ev is Reconciled || ev is Failed,
            Doing::Open | Doing::Reopen { .. } => ev is Worked || ev is Failed,
            Doing::Poll | Doing::PollAgain { .. } => ev is PollEnded,
            Doing::Serve => ev is Commanded || ev is CommandsEnded || ev is Worked || ev is Failed
                || ev is StreamEnded || ev is SettleTick || ev is ReconcileTick,
            Doing::DeliverHeld | Doing::ConfirmDone | Doing::AutoClose => ev is Worked
                || ev is Failed,
            Doing::RefreshVersion => ev is Worked,
            Doing::Drain { .. } => ev is Drained,
            Doing::Stop => false,
        }
    }

    /// Doing something else, with nothing to tell.
    pub open spec fn now_doing(self, doing: Doing) -> (Life, Told) {
        (Life { doing, ..self }, quiet())
    }

    /// The machine is down: say so, and wait before trying again. The wait of
    /// the next outage is twice as long.
    pub open spec fn down(self, wrong: Wrong) -> (Life, Told) {
        let (outage, announce) = self.outage.lost();
        (
            Life {
                channel: ChannelState::Reconnecting,
                wrong: Some(wrong),
                outage,
                doing: Doing::Drain { wait: self.backoff },
                backoff: doubled(self.backoff, self.max_backoff),
                ..self
            },
            Told { announce, refresh_live: false },
        )
    }

    /// A connect attempt failed.
    pub open spec fn connect_failed(self, wrong: Wrong) -> (Life, Told) {
        (Life { outage: self.outage.failed(), ..self }).down(wrong)
    }

    /// The events are open. The backoff is left alone: a connection that breaks
    /// again at once must keep backing off.
    pub open spec fn connect(self, now: Duration) -> (Life, Told) {
        let (outage, announce) = self.outage.connected();
        (
            Life {
                channel: ChannelState::Connected,
                wrong: None,
                outage,
                connected_at: now,
                doing: Doing::Serve,
                ..self
            },
            Told { announce, refresh_live: true },
        )
    }

    /// The connection is lost. One that lived long enough to count as a real
    /// recovery, not a flap, starts the next outage's backoff from the floor.
    pub open spec fn lose(self, now: Duration) -> (Life, Told) {
        (Life {
            backoff: if memory::elapsed(self.connected_at, now) >= self.max_backoff.nanos {
                self.initial_backoff
            } else {
                self.backoff
            },
            ..self
        }).down(Wrong::ConnectionLost)
    }

    /// The connected loop goes on after a failure that is no outage.
    pub open spec fn carry_on(self, ev: LifeEvent, doing: Doing, now: Duration) -> (Life, Told) {
        match ev {
            LifeEvent::Failed(p) => if p.outage() {
                self.lose(now)
            } else {
                self.now_doing(doing)
            },
            _ => self.now_doing(doing),
        }
    }

    /// Where a reopened event stream leads.
    pub open spec fn reopened(self, by: ReopenBy) -> Doing {
        match by {
            ReopenBy::Command => Doing::Serve,
            ReopenBy::Reconcile => Doing::AutoClose,
        }
    }

    /// The actor after an event, and what there is to tell.
    pub open spec fn after(self, ev: LifeEvent, now: Duration) -> (Life, Told) {
        match (self.doing, ev) {
            (Doing::Ping, LifeEvent::Ponged { protocol }) => self.now_doing(
                Doing::AskVersion { protocol },
            ),
            (Doing::Ping, LifeEvent::PingFailed(e)) => self.connect_failed(Wrong::Ping(e)),
            (Doing::Ping, LifeEvent::PingTimedOut) => self.connect_failed(Wrong::PingTimedOut),
            (Doing::AskVersion { protocol }, _) => if protocol < MIN_HERDR_PROTOCOL {
                (
                    Life {
                        channel: ChannelState::Incompatible,
                        wrong: Some(Wrong::Protocol(protocol)),
                        doing: Doing::Drain { wait: self.max_backoff },
                        ..self
                    },
                    quiet(),
                )
            } else {
                self.now_doing(Doing::FirstReconcile)
            },
            (Doing::FirstReconcile, LifeEvent::Failed(p)) => if p.outage() {
                self.connect_failed(Wrong::Reconcile(p.message))
            } else {
                self.now_doing(Doing::Open)
            },
            (Doing::FirstReconcile, _) => self.now_doing(Doing::Open),
            (Doing::Open, LifeEvent::Failed(p)) => {
                let (outage, announce) = self.outage.connected();
                (
                    Life {
                        channel: ChannelState::Polling,
                        wrong: Some(Wrong::Events(p.message)),
                        outage,
                        doing: Doing::Poll,
                        ..self
                    },
                    Told { announce, refresh_live: true },
                )
            },
            (Doing::Open, _) => self.connect(now),
            (Doing::Poll, LifeEvent::PollEnded(PollExit::Subscribed)) => self.connect(now),
            (Doing::Poll, LifeEvent::PollEnded(PollExit::Reconnect(reason))) => self.down(
                Wrong::Poll(reason),
            ),
            (Doing::Poll, _) => self.now_doing(Doing::Stop),
            (Doing::Serve, LifeEvent::Commanded(CommandOutcome::Nothing)) => self.now_doing(
                Doing::Serve,
            ),
            (Doing::Serve, LifeEvent::Commanded(CommandOutcome::Resubscribe)) => self.now_doing(
                Doing::Reopen { by: ReopenBy::Command },
            ),
            (Doing::Serve, LifeEvent::Commanded(CommandOutcome::Reconnect)) => self.lose(now),
            (Doing::Serve, LifeEvent::CommandsEnded) => self.now_doing(Doing::Stop),
            (Doing::Serve, LifeEvent::StreamEnded) => self.lose(now),
            (Doing::Serve, LifeEvent::SettleTick) => self.now_doing(Doing::DeliverHeld),
            (Doing::Serve, LifeEvent::ReconcileTick) => self.now_doing(Doing::Reconcile),
            (Doing::Serve, _) => self.carry_on(ev, Doing::Serve, now),
            (Doing::Reopen { by }, LifeEvent::Failed(p)) => if p.outage() {
                self.lose(now)
            } else {
                (
                    Life {
                        channel: ChannelState::Polling,
                        wrong: Some(Wrong::Events(p.message)),
                        doing: Doing::PollAgain { by },
                        ..self
                    },
                    Told { announce: None, refresh_live: true },
                )
            },
            (Doing::Reopen { by }, _) => (
                Life {
                    // A fresh subscribe for a command just succeeded: proof of health.
                    backoff: match by {
                        ReopenBy::Command => self.initial_backoff,
                        ReopenBy::Reconcile => self.backoff,
                    },
                    doing: self.reopened(by),
                    ..self
                },
                quiet(),
            ),
            (Doing::PollAgain { by }, LifeEvent::PollEnded(PollExit::Subscribed)) => (
                Life {
                    channel: ChannelState::Connected,
                    wrong: None,
                    doing: self.reopened(by),
                    ..self
                },
                Told { announce: None, refresh_live: true },
            ),
            (Doing::PollAgain { .. }, LifeEvent::PollEnded(PollExit::Reconnect(_))) => self.lose(
                now,
            ),
            (Doing::PollAgain { .. }, _) => self.now_doing(Doing::Stop),
            (Doing::DeliverHeld, _) => self.carry_on(ev, Doing::ConfirmDone, now),
            (Doing::ConfirmDone, _) => self.carry_on(ev, Doing::Serve, now),
            (Doing::Reconcile, LifeEvent::Reconciled { adopted }) => self.now_doing(
                if adopted {
                    Doing::Reopen { by: ReopenBy::Reconcile }
                } else {
                    Doing::AutoClose
                },
            ),
            (Doing::Reconcile, _) => self.carry_on(ev, Doing::Serve, now),
            (Doing::AutoClose, _) => self.carry_on(ev, Doing::RefreshVersion, now),
            (Doing::RefreshVersion, _) => self.now_doing(Doing::Serve),
            (Doing::Drain { .. }, _) => (
                Life { channel: ChannelState::Connecting, wrong: None, doing: Doing::Ping, ..self },
                quiet(),
            ),
            _ => arbitrary(),
        }
    }

    fn to(self, doing: Doing) -> (r: (Life, Told))
        ensures
            r == self.now_doing(doing),
    {
        (Life { doing, ..self }, Told { announce: None, refresh_live: false })
    }

    fn to_down(self, wrong: Wrong) -> (r: (Life, Told))
        ensures
            r == self.down(wrong),
    {
        let mut outage = self.outage;
        let announce = outage.announce_lost();
        let wait = self.backoff;
        let next = wait.doubled(self.max_backoff);
        (
            Life {
                channel: ChannelState::Reconnecting,
                wrong: Some(wrong),
                outage,
                doing: Doing::Drain { wait },
                backoff: next,
                ..self
            },
            Told { announce, refresh_live: false },
        )
    }

    fn to_connect_failed(self, wrong: Wrong) -> (r: (Life, Told))
        ensures
            r == self.connect_failed(wrong),
    {
        let mut outage = self.outage;
        outage.count_failure();
        (Life { outage, ..self }).to_down(wrong)
    }

    fn to_connected(self, now: Duration) -> (r: (Life, Told))
        ensures
            r == self.connect(now),
    {
        let mut outage = self.outage;
        let announce = outage.announce_connected();
        (
            Life {
                channel: ChannelState::Connected,
                wrong: None,
                outage,
                connected_at: now,
                doing: Doing::Serve,
                ..self
            },
            Told { announce, refresh_live: true },
        )
    }

    fn to_lost(self, now: Duration) -> (r: (Life, Told))
        ensures
            r == self.lose(now),
    {
        let backoff = if memory::has_passed(self.connected_at, now, self.max_backoff) {
            self.initial_backoff
        } else {
            self.backoff
        };
        (Life { backoff, ..self }).to_down(Wrong::ConnectionLost)
    }

    fn to_carry_on(self, ev: LifeEvent, doing: Doing, now: Duration) -> (r: (Life, Told))
        ensures
            r == self.carry_on(ev, doing, now),
    {
        match ev {
            LifeEvent::Failed(p) => if calls::is_outage(&p.chain) {
                self.to_lost(now)
            } else {
                self.to(doing)
            },
            _ => self.to(doing),
        }
    }

    fn to_reopened(&self, by: ReopenBy) -> (r: Doing)
        ensures
            r == self.reopened(by),
    {
        match by {
            ReopenBy::Command => Doing::Serve,
            ReopenBy::Reconcile => Doing::AutoClose,
        }
    }

    /// Take what came of what the actor did, and say what it does next and what
    /// there is to tell. `now` is the time on a clock that only goes forward.
    pub fn step(self, ev: LifeEvent, now: Duration) -> (r: (Life, Told))
        requires
            self.awaits(ev),
        ensures
            r == self.after(ev, now),
    {
        match self.doing {
            Doing::Ping => match ev {
                LifeEvent::Ponged { protocol } => self.to(Doing::AskVersion { protocol }),
                LifeEvent::PingFailed(e) => self.to_connect_failed(Wrong::Ping(e)),
                LifeEvent::PingTimedOut => self.to_connect_failed(Wrong::PingTimedOut),
                _ => vstd::pervasive::unreached(),
            },
            Doing::AskVersion { protocol } => if protocol < MIN_HERDR_PROTOCOL {
                let wait = self.max_backoff;
                (
                    Life {
                        channel: ChannelState::Incompatible,
                        wrong: Some(Wrong::Protocol(protocol)),
                        doing: Doing::Drain { wait },
                        ..self
                    },
                    Told { announce: None, refresh_live: false },
                )
            } else {
                self.to(Doing::FirstReconcile)
            },
            Doing::FirstReconcile => match ev {
                LifeEvent::Failed(p) => if calls::is_outage(&p.chain) {
                    self.to_connect_failed(Wrong::Reconcile(p.message))
                } else {
                    self.to(Doing::Open)
                },
                _ => self.to(Doing::Open),
            },
            Doing::Open => match ev {
                LifeEvent::Failed(p) => {
                    let mut outage = self.outage;
                    let announce = outage.announce_connected();
                    (
                        Life {
                            channel: ChannelState::Polling,
                            wrong: Some(Wrong::Events(p.message)),
                            outage,
                            doing: Doing::Poll,
                            ..self
                        },
                        Told { announce, refresh_live: true },
                    )
                },
                _ => self.to_connected(now),
            },
            Doing::Poll => match ev {
                LifeEvent::PollEnded(PollExit::Subscribed) => self.to_connected(now),
                LifeEvent::PollEnded(PollExit::Reconnect(reason)) => self.to_down(
                    Wrong::Poll(reason),
                ),
                _ => self.to(Doing::Stop),
            },
            Doing::Serve => match ev {
                LifeEvent::Commanded(CommandOutcome::Nothing) => self.to(Doing::Serve),
                LifeEvent::Commanded(CommandOutcome::Resubscribe) => self.to(
                    Doing::Reopen { by: ReopenBy::Command },
                ),
                LifeEvent::Commanded(CommandOutcome::Reconnect) => self.to_lost(now),
                LifeEvent::CommandsEnded => self.to(Doing::Stop),
                LifeEvent::StreamEnded => self.to_lost(now),
                LifeEvent::SettleTick => self.to(Doing::DeliverHeld),
                LifeEvent::ReconcileTick => self.to(Doing::Reconcile),
                _ => self.to_carry_on(ev, Doing::Serve, now),
            },
            Doing::Reopen { by } => match ev {
                LifeEvent::Failed(p) => if calls::is_outage(&p.chain) {
                    self.to_lost(now)
                } else {
                    (
                        Life {
                            channel: ChannelState::Polling,
                            wrong: Some(Wrong::Events(p.message)),
                            doing: Doing::PollAgain { by },
                            ..self
                        },
                        Told { announce: None, refresh_live: true },
                    )
                },
                _ => {
                    let backoff = match by {
                        ReopenBy::Command => self.initial_backoff,
                        ReopenBy::Reconcile => self.backoff,
                    };
                    let doing = self.to_reopened(by);
                    (
                        Life { backoff, doing, ..self },
                        Told { announce: None, refresh_live: false },
                    )
                },
            },
            Doing::PollAgain { by } => match ev {
                LifeEvent::PollEnded(PollExit::Subscribed) => {
                    let doing = self.to_reopened(by);
                    (
                        Life { channel: ChannelState::Connected, wrong: None, doing, ..self },
                        Told { announce: None, refresh_live: true },
                    )
                },
                LifeEvent::PollEnded(PollExit::Reconnect(_)) => self.to_lost(now),
                _ => self.to(Doing::Stop),
            },
            Doing::DeliverHeld => self.to_carry_on(ev, Doing::ConfirmDone, now),
            Doing::ConfirmDone => self.to_carry_on(ev, Doing::Serve, now),
            Doing::Reconcile => match ev {
                LifeEvent::Reconciled { adopted } => self.to(
                    if adopted {
                        Doing::Reopen { by: ReopenBy::Reconcile }
                    } else {
                        Doing::AutoClose
                    },
                ),
                _ => self.to_carry_on(ev, Doing::Serve, now),
            },
            Doing::AutoClose => self.to_carry_on(ev, Doing::RefreshVersion, now),
            Doing::RefreshVersion => self.to(Doing::Serve),
            Doing::Drain { .. } => (
                Life { channel: ChannelState::Connecting, wrong: None, doing: Doing::Ping, ..self },
                Told { announce: None, refresh_live: false },
            ),
            Doing::Stop => vstd::pervasive::unreached(),
        }
    }
}

// ---------------------------------------------------------------------------
// What holds of every life

/// The actor after a sequence of events, and all it announced on the way.
pub open spec fn lived(first: Life, events: Seq<(LifeEvent, Duration)>) -> (Life, Seq<Announce>)
    decreases events.len(),
{
    if events.len() == 0 {
        (first, seq![])
    } else {
        let (life, said) = lived(first, events.drop_last());
        let (next, told) = life.after(events.last().0, events.last().1);
        (
            next,
            match told.announce {
                Some(a) => said.push(a),
                None => said,
            },
        )
    }
}

/// Each event answers what the actor was doing.
pub open spec fn answers(first: Life, events: Seq<(LifeEvent, Duration)>) -> bool
    decreases events.len(),
{
    events.len() == 0 || (answers(first, events.drop_last()) && lived(
        first,
        events.drop_last(),
    ).0.awaits(events.last().0))
}

/// What is shown of the machine fits what the actor does, its waits stay within
/// their bounds, and what it has announced ends as its record says.
pub open spec fn sound(life: Life, said: Seq<Announce>) -> bool {
    &&& match life.doing {
        Doing::Ping | Doing::AskVersion { .. } | Doing::FirstReconcile | Doing::Open =>
            life.channel is Connecting,
        Doing::Poll | Doing::PollAgain { .. } => life.channel is Polling,
        Doing::Drain { .. } => life.channel is Reconnecting || life.channel is Incompatible,
        Doing::Stop => true,
        _ => life.channel is Connected,
    }
    &&& life.initial_backoff.nanos <= life.backoff.nanos <= life.max_backoff.nanos
    &&& (life.doing matches Doing::Drain { wait } ==> life.initial_backoff.nanos <= wait.nanos
        <= life.max_backoff.nanos)
    &&& forall|i: int|
        0 <= i < said.len() ==> (#[trigger] said[i] == if i % 2 == 0 {
            Announce::Lost
        } else {
            Announce::Connected
        })
    &&& life.outage.lost_announced == (said.len() % 2 == 1)
    &&& said.len() > 0 ==> life.outage.counts() || life.outage.was_connected
}

proof fn lemma_life_stays_sound(life: Life, said: Seq<Announce>, ev: LifeEvent, now: Duration)
    requires
        sound(life, said),
        life.awaits(ev),
        life.initial_backoff.nanos <= life.max_backoff.nanos,
    ensures
        ({
            let (next, told) = life.after(ev, now);
            &&& sound(
                next,
                match told.announce {
                    Some(a) => said.push(a),
                    None => said,
                },
            )
            &&& next.initial_backoff == life.initial_backoff
            &&& next.max_backoff == life.max_backoff
        }),
{
}

/// In every life of an actor: what it shows of its machine fits what it does,
/// and each wait lies between the first backoff and the longest.
pub proof fn every_life_is_sound(
    initial: Duration,
    max: Duration,
    events: Seq<(LifeEvent, Duration)>,
)
    requires
        initial.nanos <= max.nanos,
        answers(Life::newborn(initial, max), events),
    ensures
        sound(
            lived(Life::newborn(initial, max), events).0,
            lived(Life::newborn(initial, max), events).1,
        ),
        lived(Life::newborn(initial, max), events).0.initial_backoff == initial,
        lived(Life::newborn(initial, max), events).0.max_backoff == max,
    decreases events.len(),
{
    if events.len() > 0 {
        every_life_is_sound(initial, max, events.drop_last());
        let (life, said) = lived(Life::newborn(initial, max), events.drop_last());
        lemma_life_stays_sound(life, said, events.last().0, events.last().1);
    }
}

/// `machine.lost` and `machine.connected` come in turn, the loss first: one loss
/// per outage, and a recovery only after a loss that was announced.
pub proof fn losses_and_recoveries_alternate(
    initial: Duration,
    max: Duration,
    events: Seq<(LifeEvent, Duration)>,
    i: int,
)
    requires
        initial.nanos <= max.nanos,
        answers(Life::newborn(initial, max), events),
        0 <= i < lived(Life::newborn(initial, max), events).1.len(),
    ensures
        lived(Life::newborn(initial, max), events).1[i] == if i % 2 == 0 {
            Announce::Lost
        } else {
            Announce::Connected
        },
{
    every_life_is_sound(initial, max, events);
}

/// Panes are auto-closed only over an open event stream: a machine whose events
/// will not open is not one to start closing panes on.
pub proof fn auto_close_needs_open_events(
    initial: Duration,
    max: Duration,
    events: Seq<(LifeEvent, Duration)>,
)
    requires
        initial.nanos <= max.nanos,
        answers(Life::newborn(initial, max), events),
        lived(Life::newborn(initial, max), events).0.doing is AutoClose,
    ensures
        lived(Life::newborn(initial, max), events).0.channel is Connected,
{
    every_life_is_sound(initial, max, events);
}

/// Commands are served exactly while the machine is shown as one that takes
/// dispatches, and refused while it is down.
pub proof fn a_machine_that_waits_takes_no_dispatch(
    initial: Duration,
    max: Duration,
    events: Seq<(LifeEvent, Duration)>,
)
    requires
        initial.nanos <= max.nanos,
        answers(Life::newborn(initial, max), events),
    ensures
        ({
            let life = lived(Life::newborn(initial, max), events).0;
            &&& life.doing is Drain ==> !life.channel.dispatchable()
            &&& life.doing is Serve || life.doing is Poll || life.doing is PollAgain
                ==> life.channel.dispatchable()
        }),
{
    every_life_is_sound(initial, max, events);
}

/// A cold start that fails once says nothing: the first connect attempt that
/// fails announces no loss.
pub proof fn one_cold_failure_is_silent(initial: Duration, max: Duration, ev: LifeEvent, now: Duration)
    requires
        Life::newborn(initial, max).awaits(ev),
    ensures
        Life::newborn(initial, max).after(ev, now).1.announce is None,
{
}

/// The first wait of an outage is the first backoff; each next wait is twice the last, up
/// to the longest. A connect that fails, and nothing else, counts as a failure.
pub proof fn each_outage_waits_twice_as_long(life: Life, e: String, now: Duration, r: (Life, Told))
    requires
        life.doing is Ping,
        life.backoff.nanos <= life.max_backoff.nanos,
        life.outage.failures < u32::MAX,
        call_ensures(Life::step, (life, LifeEvent::PingFailed(e), now), r),
    ensures
        r.0.doing == (Doing::Drain { wait: life.backoff }),
        2 * life.backoff.nanos <= life.max_backoff.nanos ==> r.0.backoff.nanos == 2
            * life.backoff.nanos,
        2 * life.backoff.nanos > life.max_backoff.nanos ==> r.0.backoff == life.max_backoff,
        r.0.channel is Reconnecting,
        r.0.wrong == Some(Wrong::Ping(e)),
        r.0.outage.failures == life.outage.failures + 1,
        r.0.outage.was_connected == life.outage.was_connected,
{
}

/// A loss is announced once for each outage: at once if the machine was connected before,
/// and after the second failure if it never was.
pub proof fn a_loss_is_announced_once(life: Life, e: String, now: Duration, r: (Life, Told))
    requires
        life.doing is Ping,
        life.outage.failures < u32::MAX,
        call_ensures(Life::step, (life, LifeEvent::PingFailed(e), now), r),
    ensures
        life.outage.lost_announced ==> r.1.announce is None && r.0.outage.lost_announced,
        !life.outage.lost_announced && (life.outage.was_connected || life.outage.failures >= 1)
            ==> r.1.announce == Some(Announce::Lost) && r.0.outage.lost_announced,
        !life.outage.lost_announced && !life.outage.was_connected && life.outage.failures == 0
            ==> r.1.announce is None && !r.0.outage.lost_announced,
{
}

/// A connect goes from the ping over the version and the first reconcile to open events.
/// A herdr too old for this waits for the longest backoff and announces nothing; events
/// that do not open are polled for, on a machine that is connected all the same.
pub proof fn a_connect_goes_step_by_step(
    life: Life,
    protocol: u32,
    p: Problem,
    now: Duration,
    ponged: (Life, Told),
    asked: (Life, Told),
    reconciled: (Life, Told),
    opened: (Life, Told),
    closed: (Life, Told),
)
    requires
        call_ensures(
            Life::step,
            ((Life { doing: Doing::Ping, ..life }), LifeEvent::Ponged { protocol }, now),
            ponged,
        ),
        call_ensures(
            Life::step,
            ((Life { doing: Doing::AskVersion { protocol }, ..life }), LifeEvent::VersionAsked, now),
            asked,
        ),
        call_ensures(
            Life::step,
            (
                (Life { doing: Doing::FirstReconcile, ..life }),
                LifeEvent::Reconciled { adopted: false },
                now,
            ),
            reconciled,
        ),
        call_ensures(
            Life::step,
            ((Life { doing: Doing::Open, ..life }), LifeEvent::Worked, now),
            opened,
        ),
        call_ensures(
            Life::step,
            ((Life { doing: Doing::Open, ..life }), LifeEvent::Failed(p), now),
            closed,
        ),
    ensures
        ponged.0.doing == (Doing::AskVersion { protocol }),
        protocol >= 22 ==> asked.0.doing is FirstReconcile && asked.0.channel == life.channel,
        protocol < 22 ==> asked.0.doing == (Doing::Drain { wait: life.max_backoff })
            && asked.0.channel is Incompatible && asked.0.wrong == Some(Wrong::Protocol(protocol))
            && asked.1.announce is None && asked.0.backoff == life.backoff,
        reconciled.0.doing is Open,
        opened.0.doing is Serve && opened.0.channel is Connected && opened.0.wrong is None,
        closed.0.doing is Poll && closed.0.channel is Polling && closed.0.wrong == Some(
            Wrong::Events(p.message),
        ),
        opened.0.outage.was_connected && opened.0.outage.failures == 0
            && !opened.0.outage.lost_announced,
        closed.0.outage == opened.0.outage,
        opened.1.announce == (if life.outage.lost_announced {
            Some(Announce::Connected)
        } else {
            None
        }),
        opened.1.refresh_live && closed.1.refresh_live && closed.1.announce == opened.1.announce,
        opened.0.connected_at == now && opened.0.backoff == life.backoff,
{
}

/// A connection is lost when its stream ends, when a command finds the machine gone, or
/// when what is done fails below herdr; any other failure lets it go on. One that lived
/// for the longest backoff starts the next outage from the first.
pub proof fn only_an_outage_loses_the_connection(
    life: Life,
    p: Problem,
    now: Duration,
    failed: (Life, Told),
    ended: (Life, Told),
)
    requires
        life.doing is Serve,
        call_ensures(Life::step, (life, LifeEvent::Failed(p), now), failed),
        call_ensures(Life::step, (life, LifeEvent::StreamEnded, now), ended),
    ensures
        (exists|i: int|
            0 <= i < p.chain@.len() && (#[trigger] p.chain@[i] is TimedOut || p.chain@[i] == (
            Cause::Call { transport: true }))) ==> failed == ended,
        (forall|i: int|
            0 <= i < p.chain@.len() ==> (#[trigger] p.chain@[i]) is Other || p.chain@[i] == (
            Cause::Call { transport: false })) ==> failed.0 == life && failed.1.announce is None,
        ended.0.channel is Reconnecting && ended.0.wrong == Some(Wrong::ConnectionLost),
        now.nanos - life.connected_at.nanos >= life.max_backoff.nanos ==> ended.0.doing == (
        Doing::Drain { wait: life.initial_backoff }),
        life.max_backoff.nanos > 0 && now.nanos - life.connected_at.nanos < life.max_backoff.nanos
            ==> ended.0.doing == (Doing::Drain { wait: life.backoff }),
        !life.outage.lost_announced && life.outage.was_connected ==> ended.1.announce == Some(
            Announce::Lost,
        ),
{
    if exists|i: int|
        0 <= i < p.chain@.len() && (#[trigger] p.chain@[i] is TimedOut || p.chain@[i] == (
        Cause::Call { transport: true })) {
        let i = choose|i: int|
            0 <= i < p.chain@.len() && (#[trigger] p.chain@[i] is TimedOut || p.chain@[i] == (
            Cause::Call { transport: true }));
        assert(p.chain@[i].outage());
        assert(p.outage());
    } else if forall|i: int|
        0 <= i < p.chain@.len() ==> (#[trigger] p.chain@[i]) is Other || p.chain@[i] == (
        Cause::Call { transport: false }) {
        assert(!p.outage());
    }
}

/// What a connected machine does on each tick and command, and in what order: the settle
/// tick delivers held prompts and then confirms done tasks; the reconcile tick reconciles,
/// opens the events again if it adopted a pane, closes done tasks and asks for the
/// version; a dispatch opens the events again; and the end of the commands stops it.
pub proof fn a_connected_machine_does_its_rounds(
    life: Life,
    adopted: bool,
    now: Duration,
    settle: (Life, Told),
    confirm: (Life, Told),
    settled: (Life, Told),
    tick: (Life, Told),
    reconciled: (Life, Told),
    reopened: (Life, Told),
    closed: (Life, Told),
    asked: (Life, Told),
    dispatched: (Life, Told),
    served: (Life, Told),
    ended: (Life, Told),
    drained: (Life, Told),
    wait: Duration,
)
    requires
        call_ensures(Life::step, ((Life { doing: Doing::Serve, ..life }), LifeEvent::SettleTick, now), settle),
        call_ensures(Life::step, ((Life { doing: Doing::DeliverHeld, ..life }), LifeEvent::Worked, now), confirm),
        call_ensures(Life::step, ((Life { doing: Doing::ConfirmDone, ..life }), LifeEvent::Worked, now), settled),
        call_ensures(Life::step, ((Life { doing: Doing::Serve, ..life }), LifeEvent::ReconcileTick, now), tick),
        call_ensures(Life::step, ((Life { doing: Doing::Reconcile, ..life }), LifeEvent::Reconciled { adopted }, now), reconciled),
        call_ensures(Life::step, ((Life { doing: Doing::Reopen { by: ReopenBy::Reconcile }, ..life }), LifeEvent::Worked, now), reopened),
        call_ensures(Life::step, ((Life { doing: Doing::AutoClose, ..life }), LifeEvent::Worked, now), closed),
        call_ensures(Life::step, ((Life { doing: Doing::RefreshVersion, ..life }), LifeEvent::Worked, now), asked),
        call_ensures(Life::step, ((Life { doing: Doing::Serve, ..life }), LifeEvent::Commanded(CommandOutcome::Resubscribe), now), dispatched),
        call_ensures(Life::step, ((Life { doing: Doing::Reopen { by: ReopenBy::Command }, ..life }), LifeEvent::Worked, now), served),
        call_ensures(Life::step, ((Life { doing: Doing::Serve, ..life }), LifeEvent::CommandsEnded, now), ended),
        call_ensures(Life::step, ((Life { doing: Doing::Drain { wait }, ..life }), LifeEvent::Drained, now), drained),
    ensures
        settle.0.doing is DeliverHeld && confirm.0.doing is ConfirmDone && settled.0.doing is Serve,
        tick.0.doing is Reconcile,
        adopted ==> reconciled.0.doing == (Doing::Reopen { by: ReopenBy::Reconcile }),
        !adopted ==> reconciled.0.doing is AutoClose,
        reopened.0.doing is AutoClose && reopened.0.backoff == life.backoff,
        closed.0.doing is RefreshVersion && asked.0.doing is Serve,
        dispatched.0.doing == (Doing::Reopen { by: ReopenBy::Command }),
        served.0.doing is Serve && served.0.backoff == life.initial_backoff,
        ended.0.doing is Stop,
        drained.0.doing is Ping && drained.0.channel is Connecting && drained.0.wrong is None,
        drained.0.backoff == life.backoff && drained.0.outage == life.outage,
{
}

} // verus!
