//! Subscription bookkeeping of the update loop: descriptors compared by
//! value, and a deterministic periodic timer driven by an external clock.

use vstd::prelude::*;

verus! {

/// A descriptor of a long-lived message source: nothing, or a tick every
/// `interval` milliseconds of the driving clock.
#[derive(Clone, Copy, PartialEq, Eq, Structural, Debug)]
pub enum Subscription {
    Idle,
    Every(u64),
}

/// A running periodic source: when it next fires, and its period.
#[derive(Clone, Copy, PartialEq, Eq, Structural, Debug)]
pub struct Timer {
    pub next: u64,
    pub interval: u64,
}

pub open spec fn sat_add64(a: u64, b: u64) -> u64 {
    if a + b > u64::MAX {
        u64::MAX
    } else {
        (a + b) as u64
    }
}

pub fn add_sat64(a: u64, b: u64) -> (r: u64)
    ensures
        r == sat_add64(a, b),
{
    if a <= u64::MAX - b {
        a + b
    } else {
        u64::MAX
    }
}

/// The runtime's record of the one active subscription.
pub struct Runtime {
    pub current: Subscription,
    pub timer: Option<Timer>,
}

/// Replacing the subscription: an unchanged descriptor leaves the running
/// source untouched; a changed one cancels it and starts the new one now.
pub open spec fn reconcile_spec(s: Runtime, new: Subscription, now: u64) -> Runtime {
    if new == s.current {
        s
    } else {
        Runtime {
            current: new,
            timer: match new {
                Subscription::Idle => None,
                Subscription::Every(i) => Some(Timer { next: sat_add64(now, i), interval: i }),
            },
        }
    }
}

/// Advancing the timer against the clock: it fires when due, rescheduling one
/// period later.
pub open spec fn poll_spec(s: Runtime, now: u64) -> (Runtime, bool) {
    match s.timer {
        Some(t) => {
            if now >= t.next {
                (
                    Runtime {
                        current: s.current,
                        timer: Some(Timer { next: sat_add64(t.next, t.interval), interval: t.interval }),
                    },
                    true,
                )
            } else {
                (s, false)
            }
        },
        None => (s, false),
    }
}

impl Runtime {
    pub fn new() -> (r: Self)
        ensures
            r.current == Subscription::Idle,
            r.timer is None,
    {
        Runtime { current: Subscription::Idle, timer: None }
    }

    /// Compares the descriptor the view now asks for against the running one,
    /// by value, and restarts the source only on a change.
    pub fn reconcile(&mut self, new: Subscription, now: u64)
        ensures
            *final(self) == reconcile_spec(*old(self), new, now),
    {
        if new == self.current {
            return ;
        }
        self.current = new;
        self.timer = match new {
            Subscription::Idle => None,
            Subscription::Every(i) => Some(Timer { next: add_sat64(now, i), interval: i }),
        };
    }

    /// Asks the active source whether it fires at `now`.
    pub fn poll(&mut self, now: u64) -> (fired: bool)
        ensures
            (*final(self), fired) == poll_spec(*old(self), now),
    {
        match self.timer {
            Some(t) => {
                if now >= t.next {
                    self.timer = Some(Timer { next: add_sat64(t.next, t.interval), interval: t.interval });
                    true
                } else {
                    false
                }
            },
            None => false,
        }
    }
}

/// Replacing an active subscription with an equal descriptor changes nothing:
/// the running timer keeps its schedule, so no tick is lost or doubled at the
/// swap.
pub proof fn lemma_reconcile_same(s: Runtime, new: Subscription, now: u64)
    requires
        new == s.current,
    ensures
        reconcile_spec(s, new, now) == s,
{
}

/// What an application offers the update loop: its state mutates only inside
/// `update`, and the wanted subscription is recomputed from the state.
pub trait Application: Sized {
    type Message;

    /// The state after one message.
    spec fn updated(self, message: Self::Message) -> Self;

    /// The subscription descriptor the state asks for.
    spec fn subscription_spec(&self) -> Subscription;

    fn update(&mut self, message: Self::Message)
        ensures
            *final(self) == old(self).updated(message),
    ;

    fn subscription(&self) -> (s: Subscription)
        ensures
            s == self.subscription_spec(),
    ;
}

/// One turn of the update loop: the message mutates the state, then the
/// descriptor the new state asks for is reconciled against the running one.
pub fn step<A: Application>(app: &mut A, runtime: &mut Runtime, message: A::Message, now: u64) -> (d:
    Subscription)
    ensures
        *final(app) == old(app).updated(message),
        d == final(app).subscription_spec(),
        *final(runtime) == reconcile_spec(*old(runtime), d, now),
{
    app.update(message);
    let d = app.subscription();
    runtime.reconcile(d, now);
    d
}

/// A minimal application of the update loop: a stopwatch that counts ticks
/// while it runs, and asks for a periodic subscription exactly while it runs.
pub struct Stopwatch {
    pub running: bool,
    pub ticks: u64,
}

#[derive(Clone, Copy, PartialEq, Eq, Structural, Debug)]
pub enum StopwatchMessage {
    Toggle,
    Tick,
}

impl Application for Stopwatch {
    type Message = StopwatchMessage;

    open spec fn updated(self, message: StopwatchMessage) -> Self {
        match message {
            StopwatchMessage::Toggle => Stopwatch { running: !self.running, ..self },
            StopwatchMessage::Tick => Stopwatch { ticks: sat_add64(self.ticks, 1), ..self },
        }
    }

    open spec fn subscription_spec(&self) -> Subscription {
        if self.running {
            Subscription::Every(1000)
        } else {
            Subscription::Idle
        }
    }

    fn update(&mut self, message: StopwatchMessage) {
        match message {
            StopwatchMessage::Toggle => {
                self.running = !self.running;
            },
            StopwatchMessage::Tick => {
                self.ticks = add_sat64(self.ticks, 1);
            },
        }
    }

    fn subscription(&self) -> (s: Subscription) {
        if self.running {
            Subscription::Every(1000)
        } else {
            Subscription::Idle
        }
    }
}

} // verus!
