use vstd::arithmetic::power2::pow2;
use vstd::prelude::*;

use crate::backoff::{backoff_limit, lcg_next, thread_num_between};

verus! {

/// Backoff rounds in the spin phase before the waiter commits to parking.
pub const LOOPS: usize = 20;

/// Largest exponent of a spin phase round: a round pauses fewer than
/// `2^MAX_EXP` times.
pub const MAX_EXP: usize = 8;

/// Every `YIELD_INTERVAL`-th round also yields to the OS scheduler.
pub const YIELD_INTERVAL: usize = 8;

/// How a kernel compare-and-sleep on the `triggered` word came back.
#[derive(PartialEq, Eq, Structural, Clone, Copy, Debug)]
pub enum ParkResult {
    /// A wake was delivered.
    Woken,
    /// The word no longer held the expected value: a signal came first.
    WouldBlock,
    /// Any other return, taken as a spurious wake.
    Interrupted,
}

/// Where a waiter stands in `wait`.
#[derive(PartialEq, Eq, Structural, Clone, Copy, Debug)]
pub enum WaitPhase {
    /// In the spin phase, with `round` backoff rounds done.
    Spinning { round: usize },
    /// Left the spin phase; `spinning` is being cleared and `triggered` read.
    Committed,
    /// Asked the kernel to sleep on `triggered`.
    Parked,
    /// `wait` has returned.
    Done,
}

/// What the waiter learned from the last action it performed.
#[derive(PartialEq, Eq, Structural, Clone, Copy, Debug)]
pub enum WaitEvent {
    /// A load of `triggered` found it signalled (`true`) or not.
    Observed { triggered: bool },
    /// The kernel sleep returned.
    ParkReturned { result: ParkResult },
}

/// The next thing the waiter does to shared memory.
#[derive(PartialEq, Eq, Structural, Clone, Copy, Debug)]
pub enum WaitAction {
    /// Load `triggered`.
    Check,
    /// Yield to the scheduler if `yield_first`, pause `pauses` times, then
    /// load `triggered`.
    Backoff { yield_first: bool, pauses: usize },
    /// Store `spinning = NOT_SPINNING` (release), then load `triggered`
    /// (acquire).
    Commit,
    /// Sleep in the kernel on `triggered`, expecting `NOT_TRIGGERED`.
    Park,
    /// Store `spinning = SPINNING` (release), then load `triggered`.
    Resume,
    /// Issue an acquire fence and return.
    Finish,
}

/// Which events a phase can be answered with.
pub open spec fn wait_event_fits(p: WaitPhase, e: WaitEvent) -> bool {
    match p {
        WaitPhase::Spinning { .. } | WaitPhase::Committed => e is Observed,
        WaitPhase::Parked => e is ParkReturned,
        WaitPhase::Done => false,
    }
}

/// Exponent of the backoff range of spin round `round`: it grows from 1 up
/// to `MAX_EXP`.
pub open spec fn spin_exp(round: usize) -> usize {
    if round + 1 < MAX_EXP {
        (round + 1) as usize
    } else {
        MAX_EXP
    }
}

/// The pause count of spin round `round` when the generator stands at
/// `draw`: a number in `[1, 2^spin_exp(round))`.
pub open spec fn spin_pauses(round: usize, draw: u64) -> usize {
    (1 + draw as int % (pow2(spin_exp(round) as nat) - 1)) as usize
}

/// Whether the step of `p` on `e` draws from the generator.
pub open spec fn wait_draws(p: WaitPhase, e: WaitEvent) -> bool {
    match (p, e) {
        (WaitPhase::Spinning { round }, WaitEvent::Observed { triggered }) => !triggered && round
            < LOOPS,
        _ => false,
    }
}

/// The waiter's decision: from phase `p`, having learned `e`, with the
/// generator at `draw`, the next phase and the action to perform.
pub open spec fn wait_next(p: WaitPhase, e: WaitEvent, draw: u64) -> (WaitPhase, WaitAction) {
    match (p, e) {
        (WaitPhase::Spinning { round }, WaitEvent::Observed { triggered }) => {
            if triggered {
                (WaitPhase::Done, WaitAction::Finish)
            } else if round >= LOOPS {
                (WaitPhase::Committed, WaitAction::Commit)
            } else {
                (
                    WaitPhase::Spinning { round: (round + 1) as usize },
                    WaitAction::Backoff {
                        yield_first: round % YIELD_INTERVAL == YIELD_INTERVAL - 1,
                        pauses: spin_pauses(round, draw),
                    },
                )
            }
        },
        (WaitPhase::Committed, WaitEvent::Observed { triggered }) => {
            if triggered {
                (WaitPhase::Done, WaitAction::Finish)
            } else {
                (WaitPhase::Parked, WaitAction::Park)
            }
        },
        (WaitPhase::Parked, WaitEvent::ParkReturned { result }) => {
            if result == ParkResult::Interrupted {
                (WaitPhase::Spinning { round: 0 }, WaitAction::Resume)
            } else {
                (WaitPhase::Done, WaitAction::Finish)
            }
        },
        _ => (p, WaitAction::Finish),
    }
}

/// Where `wait` starts: in the spin phase, with a load of `triggered`.
pub open spec fn wait_begin() -> (WaitPhase, WaitAction) {
    (WaitPhase::Spinning { round: 0 }, WaitAction::Check)
}

/// The first phase and action of `wait`.
pub fn wait_start() -> (r: (WaitPhase, WaitAction))
    ensures
        r == wait_begin(),
{
    (WaitPhase::Spinning { round: 0 }, WaitAction::Check)
}

/// One decision of `wait`. The generator `state` advances exactly when a
/// backoff round is drawn.
pub fn wait_step(p: WaitPhase, e: WaitEvent, state: &mut u64) -> (r: (WaitPhase, WaitAction))
    requires
        wait_event_fits(p, e),
    ensures
        r == wait_next(p, e, *old(state)),
        *final(state) == if wait_draws(p, e) {
            lcg_next(*old(state))
        } else {
            *old(state)
        },
{
    match (p, e) {
        (WaitPhase::Spinning { round }, WaitEvent::Observed { triggered }) => {
            if triggered {
                (WaitPhase::Done, WaitAction::Finish)
            } else if round >= LOOPS {
                (WaitPhase::Committed, WaitAction::Commit)
            } else {
                let exp: usize = if round + 1 < MAX_EXP {
                    round + 1
                } else {
                    MAX_EXP
                };
                let limit = backoff_limit(exp);
                proof {
                    vstd::arithmetic::power2::lemma_pow2_strictly_increases(0, exp as nat);
                    vstd::arithmetic::power2::lemma2_to64();
                }
                let pauses = thread_num_between(state, 1, limit);
                (
                    WaitPhase::Spinning { round: round + 1 },
                    WaitAction::Backoff {
                        yield_first: round % YIELD_INTERVAL == YIELD_INTERVAL - 1,
                        pauses,
                    },
                )
            }
        },
        (WaitPhase::Committed, WaitEvent::Observed { triggered }) => {
            if triggered {
                (WaitPhase::Done, WaitAction::Finish)
            } else {
                (WaitPhase::Parked, WaitAction::Park)
            }
        },
        (WaitPhase::Parked, WaitEvent::ParkReturned { result }) => {
            match result {
                ParkResult::Interrupted => (WaitPhase::Spinning { round: 0 }, WaitAction::Resume),
                _ => (WaitPhase::Done, WaitAction::Finish),
            }
        },
        _ => (p, WaitAction::Finish),
    }
}

/// Reads the return of the kernel sleep: `ret` is the call's return value
/// and `errno` the error number it left, `would_block` the platform's
/// "would block" error number.
pub fn park_result(ret: i64, errno: i32, would_block: i32) -> (r: ParkResult)
    ensures
        r == ParkResult::Woken <==> ret == 0,
        r == ParkResult::WouldBlock <==> ret != 0 && errno == would_block,
        r == ParkResult::Interrupted <==> ret != 0 && errno != would_block,
{
    if ret == 0 {
        ParkResult::Woken
    } else if errno == would_block {
        ParkResult::WouldBlock
    } else {
        ParkResult::Interrupted
    }
}

/// The signaller's decision after it has stored `triggered`: a kernel wake
/// is owed exactly when the waiter has left the spin phase.
pub fn signal_needs_wake(waiter_spinning: bool) -> (r: bool)
    ensures
        r == !waiter_spinning,
{
    !waiter_spinning
}

} // verus!
