use vstd::prelude::*;

use crate::backoff::lcg_next;
use crate::notifier::{wait_begin, wait_draws, wait_next, ParkResult, WaitAction, WaitEvent, WaitPhase};

verus! {

/// Where the signaller stands in `signal`.
#[derive(PartialEq, Eq, Structural, Clone, Copy, Debug)]
pub enum SignalPc {
    /// `signal` has not been called.
    Idle,
    /// `triggered` is stored; `spinning` is still to be read.
    Stored,
    /// `signal` has returned.
    Done,
}

/// Who moves next in an interleaving of one waiter, one signaller and the
/// kernel.
#[derive(PartialEq, Eq, Structural, Clone, Copy, Debug)]
pub enum Actor {
    /// The waiter performs one atomic access of its pending action.
    Waiter,
    /// The signaller performs its next atomic access.
    Signaller,
    /// The kernel returns a sleeping waiter without a wake.
    Spurious,
}

/// One notifier between two resets, under sequentially consistent
/// interleaving: the two shared words, the waiter's phase and pending
/// action, and the signaller's progress.
#[derive(PartialEq, Eq, Structural, Clone, Copy, Debug)]
pub struct NotifierSystem {
    pub triggered: bool,
    pub spinning: bool,
    pub phase: WaitPhase,
    pub action: WaitAction,
    /// The first store of a two-access action (`Commit`, `Resume`) is done.
    pub half: bool,
    /// The waiter sleeps in the kernel.
    pub asleep: bool,
    pub signal: SignalPc,
    pub draw: u64,
}

/// The state right after `reset`, with the waiter about to enter `wait`.
pub open spec fn reset_state(seed: u64) -> NotifierSystem {
    NotifierSystem {
        triggered: false,
        spinning: true,
        phase: wait_begin().0,
        action: wait_begin().1,
        half: false,
        asleep: false,
        signal: SignalPc::Idle,
        draw: seed,
    }
}

/// The waiter takes its decision on event `e`.
pub open spec fn decide(s: NotifierSystem, e: WaitEvent) -> NotifierSystem {
    NotifierSystem {
        phase: wait_next(s.phase, e, s.draw).0,
        action: wait_next(s.phase, e, s.draw).1,
        draw: if wait_draws(s.phase, e) {
            lcg_next(s.draw)
        } else {
            s.draw
        },
        ..s
    }
}

/// One atomic step of the waiter.
pub open spec fn waiter_step(s: NotifierSystem) -> NotifierSystem {
    if s.asleep {
        s
    } else {
        match s.action {
            WaitAction::Check | WaitAction::Backoff { .. } => decide(
                s,
                WaitEvent::Observed { triggered: s.triggered },
            ),
            WaitAction::Commit => if !s.half {
                NotifierSystem { spinning: false, half: true, ..s }
            } else {
                decide(NotifierSystem { half: false, ..s }, WaitEvent::Observed { triggered: s.triggered })
            },
            WaitAction::Resume => if !s.half {
                NotifierSystem { spinning: true, half: true, ..s }
            } else {
                decide(NotifierSystem { half: false, ..s }, WaitEvent::Observed { triggered: s.triggered })
            },
            WaitAction::Park => if s.triggered {
                decide(s, WaitEvent::ParkReturned { result: ParkResult::WouldBlock })
            } else {
                NotifierSystem { asleep: true, ..s }
            },
            WaitAction::Finish => s,
        }
    }
}

/// One atomic step of the signaller; the kernel wake reaches the waiter
/// only if it sleeps.
pub open spec fn signaller_step(s: NotifierSystem) -> NotifierSystem {
    match s.signal {
        SignalPc::Idle => NotifierSystem { triggered: true, signal: SignalPc::Stored, ..s },
        SignalPc::Stored => if !s.spinning && s.asleep {
            decide(
                NotifierSystem { asleep: false, signal: SignalPc::Done, ..s },
                WaitEvent::ParkReturned { result: ParkResult::Woken },
            )
        } else {
            NotifierSystem { signal: SignalPc::Done, ..s }
        },
        SignalPc::Done => s,
    }
}

/// A kernel return without a wake.
pub open spec fn spurious_step(s: NotifierSystem) -> NotifierSystem {
    if s.asleep {
        decide(
            NotifierSystem { asleep: false, ..s },
            WaitEvent::ParkReturned { result: ParkResult::Interrupted },
        )
    } else {
        s
    }
}

pub open spec fn advance(s: NotifierSystem, who: Actor) -> NotifierSystem {
    match who {
        Actor::Waiter => waiter_step(s),
        Actor::Signaller => signaller_step(s),
        Actor::Spurious => spurious_step(s),
    }
}

impl NotifierSystem {
    /// What holds in every reachable state.
    pub open spec fn inv(&self) -> bool {
        &&& self.triggered == (self.signal != SignalPc::Idle)
        &&& (self.phase == WaitPhase::Done) == (self.action == WaitAction::Finish)
        &&& self.phase == WaitPhase::Done ==> self.triggered
        &&& self.half ==> (self.action == WaitAction::Commit || self.action == WaitAction::Resume)
        &&& self.phase is Spinning ==> (self.action is Check || self.action is Backoff
            || self.action is Resume)
        &&& self.phase == WaitPhase::Committed ==> self.action == WaitAction::Commit && (self.half
            ==> !self.spinning)
        &&& self.phase == WaitPhase::Parked ==> self.action == WaitAction::Park && !self.spinning
        &&& self.asleep ==> self.phase == WaitPhase::Parked && self.signal != SignalPc::Done
    }
}

/// A freshly reset notifier satisfies the invariant.
pub proof fn lemma_reset_inv(seed: u64)
    ensures
        reset_state(seed).inv(),
{
}

/// Every step, by any actor, keeps the invariant.
pub proof fn lemma_step_inv(s: NotifierSystem, who: Actor)
    requires
        s.inv(),
    ensures
        advance(s, who).inv(),
{
}

/// No spurious return: whenever `wait` has returned, `signal` has been
/// called since the last reset.
pub proof fn lemma_wait_returns_only_after_signal(s: NotifierSystem)
    requires
        s.inv(),
        s.phase == WaitPhase::Done,
    ensures
        s.signal != SignalPc::Idle,
{
}

/// No lost wake-up: a waiter sleeps in the kernel only while `signal` has
/// not returned, and the signaller's next step from there wakes it.
pub proof fn lemma_no_lost_wakeup(s: NotifierSystem)
    requires
        s.inv(),
        s.asleep,
    ensures
        s.signal != SignalPc::Done,
        s.signal == SignalPc::Stored ==> advance(s, Actor::Signaller).phase == WaitPhase::Done
            && !advance(s, Actor::Signaller).asleep,
{
}

/// A signal that lands before the waiter parks keeps it out of the kernel:
/// from then on no step brings the waiter to the park phase.
pub proof fn lemma_signalled_waiter_never_parks(s: NotifierSystem, who: Actor)
    requires
        s.inv(),
        s.triggered,
        s.phase != WaitPhase::Parked,
    ensures
        advance(s, who).triggered,
        advance(s, who).phase != WaitPhase::Parked,
        !advance(s, who).asleep,
{
}

/// `wait` on an already signalled notifier returns at its first load, without
/// a kernel sleep.
pub proof fn lemma_signal_before_wait(seed: u64)
    ensures
        wait_next(wait_begin().0, WaitEvent::Observed { triggered: true }, seed) == (
        WaitPhase::Done,
        WaitAction::Finish,
        ),
{
}

} // verus!
