use vstd::arithmetic::power2::pow2;
use vstd::prelude::*;

use crate::backoff::backoff_limit;

verus! {

/// Pauses between reads of `next` before a releasing holder starts to yield.
pub const RELEASE_PAUSES: usize = 5;

/// Largest exponent of the claim spin: its rounds pause `2^0 .. 2^MAX_EXP`
/// times.
pub const MAX_EXP: usize = 10;

/// Claim attempts, beyond the spin rounds, that also yield to the scheduler.
pub const HEAD_SPINS: usize = 30;

/// The last attempt to claim a free lock before the acquirer enqueues.
pub const LAST_ATTEMPT: usize = MAX_EXP + 2 + HEAD_SPINS;

/// Where an acquirer stands.
#[derive(PartialEq, Eq, Structural, Clone, Copy, Debug)]
pub enum AcquirePhase {
    /// Attempt `attempt` has read `tail`: 0 is the fast path, then the spin
    /// rounds, then the yielding rounds.
    Probing { attempt: usize },
    /// Attempt `attempt` found `tail` null and tries to install the node.
    Claiming { attempt: usize },
    /// The node is being swapped into `tail`.
    Enqueuing,
    /// Linked behind a predecessor, waiting on the node's notifier.
    Waiting,
    /// The lock is held.
    Held,
}

/// The outcome of the acquirer's last action.
#[derive(PartialEq, Eq, Structural, Clone, Copy, Debug)]
pub enum AcquireEvent {
    /// A read of `tail` found it null (`empty`) or not.
    TailSeen { empty: bool },
    /// The compare-exchange of `tail` from null to the node succeeded or not.
    Claimed { ok: bool },
    /// The swap of `tail` returned null (`prev_empty`) or a predecessor.
    Swapped { prev_empty: bool },
    /// The node's notifier was signalled.
    Woken,
}

/// The acquirer's next action on shared memory.
#[derive(PartialEq, Eq, Structural, Clone, Copy, Debug)]
pub enum AcquireAction {
    /// Pause `pauses` times, yield if `yield_now`, then read `tail` (relaxed).
    Probe { pauses: usize, yield_now: bool },
    /// Reset the node, then compare-exchange `tail` from null to the node
    /// (release on success; it may fail spuriously).
    Claim,
    /// Reset the node, then swap it into `tail` (acquire and release).
    Enqueue,
    /// Store the node into the predecessor's `next` (release), then wait on
    /// the node's notifier.
    LinkAndWait,
    /// Issue an acquire fence if `fence`, and hand out the guard.
    Enter { fence: bool },
}

pub open spec fn acquire_event_fits(p: AcquirePhase, e: AcquireEvent) -> bool {
    match p {
        AcquirePhase::Probing { attempt } => e is TailSeen && attempt <= LAST_ATTEMPT,
        AcquirePhase::Claiming { attempt } => e is Claimed && attempt <= LAST_ATTEMPT,
        AcquirePhase::Enqueuing => e is Swapped,
        AcquirePhase::Waiting => e is Woken,
        AcquirePhase::Held => false,
    }
}

/// The probe of attempt `a`: none before the fast path, `2^(a-1)` pauses in
/// the spin rounds, one pause and a yield in the yielding rounds.
pub open spec fn probe_for(a: usize) -> AcquireAction {
    if a == 0 {
        AcquireAction::Probe { pauses: 0, yield_now: false }
    } else if a <= MAX_EXP + 1 {
        AcquireAction::Probe { pauses: pow2((a - 1) as nat) as usize, yield_now: false }
    } else {
        AcquireAction::Probe { pauses: 1, yield_now: true }
    }
}

/// After attempt `a` failed to claim: the next attempt, or the enqueue once
/// the attempts are spent.
pub open spec fn after_miss(a: usize) -> (AcquirePhase, AcquireAction) {
    if a < LAST_ATTEMPT {
        (AcquirePhase::Probing { attempt: (a + 1) as usize }, probe_for((a + 1) as usize))
    } else {
        (AcquirePhase::Enqueuing, AcquireAction::Enqueue)
    }
}

/// The acquirer's decision on event `e` in phase `p`.
pub open spec fn acquire_next(p: AcquirePhase, e: AcquireEvent) -> (AcquirePhase, AcquireAction) {
    match (p, e) {
        (AcquirePhase::Probing { attempt }, AcquireEvent::TailSeen { empty }) => if empty {
            (AcquirePhase::Claiming { attempt }, AcquireAction::Claim)
        } else {
            after_miss(attempt)
        },
        (AcquirePhase::Claiming { attempt }, AcquireEvent::Claimed { ok }) => if ok {
            (AcquirePhase::Held, AcquireAction::Enter { fence: true })
        } else {
            after_miss(attempt)
        },
        (AcquirePhase::Enqueuing, AcquireEvent::Swapped { prev_empty }) => if prev_empty {
            (AcquirePhase::Held, AcquireAction::Enter { fence: false })
        } else {
            (AcquirePhase::Waiting, AcquireAction::LinkAndWait)
        },
        (AcquirePhase::Waiting, AcquireEvent::Woken) => (
            AcquirePhase::Held,
            AcquireAction::Enter { fence: false },
        ),
        _ => (p, AcquireAction::Enter { fence: false }),
    }
}

pub open spec fn acquire_begin() -> (AcquirePhase, AcquireAction) {
    (AcquirePhase::Probing { attempt: 0 }, probe_for(0))
}

/// The first phase and action of an acquire: the fast-path read of `tail`.
pub fn acquire_start() -> (r: (AcquirePhase, AcquireAction))
    ensures
        r == acquire_begin(),
{
    (AcquirePhase::Probing { attempt: 0 }, AcquireAction::Probe { pauses: 0, yield_now: false })
}

fn probe(a: usize) -> (r: AcquireAction)
    requires
        a <= LAST_ATTEMPT,
    ensures
        r == probe_for(a),
{
    if a == 0 {
        AcquireAction::Probe { pauses: 0, yield_now: false }
    } else if a <= MAX_EXP + 1 {
        let pauses = backoff_limit(a - 1);
        AcquireAction::Probe { pauses, yield_now: false }
    } else {
        AcquireAction::Probe { pauses: 1, yield_now: true }
    }
}

fn miss(a: usize) -> (r: (AcquirePhase, AcquireAction))
    requires
        a <= LAST_ATTEMPT,
    ensures
        r == after_miss(a),
{
    if a < LAST_ATTEMPT {
        (AcquirePhase::Probing { attempt: a + 1 }, probe(a + 1))
    } else {
        (AcquirePhase::Enqueuing, AcquireAction::Enqueue)
    }
}

/// One decision of an acquire.
pub fn acquire_step(p: AcquirePhase, e: AcquireEvent) -> (r: (AcquirePhase, AcquireAction))
    requires
        acquire_event_fits(p, e),
    ensures
        r == acquire_next(p, e),
{
    match (p, e) {
        (AcquirePhase::Probing { attempt }, AcquireEvent::TailSeen { empty }) => if empty {
            (AcquirePhase::Claiming { attempt }, AcquireAction::Claim)
        } else {
            miss(attempt)
        },
        (AcquirePhase::Claiming { attempt }, AcquireEvent::Claimed { ok }) => if ok {
            (AcquirePhase::Held, AcquireAction::Enter { fence: true })
        } else {
            miss(attempt)
        },
        (AcquirePhase::Enqueuing, AcquireEvent::Swapped { prev_empty }) => if prev_empty {
            (AcquirePhase::Held, AcquireAction::Enter { fence: false })
        } else {
            (AcquirePhase::Waiting, AcquireAction::LinkAndWait)
        },
        (AcquirePhase::Waiting, AcquireEvent::Woken) => (
            AcquirePhase::Held,
            AcquireAction::Enter { fence: false },
        ),
        _ => (p, AcquireAction::Enter { fence: false }),
    }
}

/// Where a releasing holder stands.
#[derive(PartialEq, Eq, Structural, Clone, Copy, Debug)]
pub enum ReleasePhase {
    /// Reading `tail` to see whether the holder is alone.
    Checking,
    /// Compare-exchanging `tail` from the node back to null.
    Detaching,
    /// Waiting for the successor's link; `left` pauses remain before yields.
    AwaitingLink { left: usize },
    /// The lock is passed on or free.
    Released,
}

/// The outcome of the releaser's last action.
#[derive(PartialEq, Eq, Structural, Clone, Copy, Debug)]
pub enum ReleaseEvent {
    /// A read of `tail` found the holder's own node (`is_self`) or not.
    TailSeen { is_self: bool },
    /// The compare-exchange of `tail` back to null succeeded or not.
    Detached { ok: bool },
    /// A read of the node's `next` found a successor (`linked`) or null.
    NextSeen { linked: bool },
}

/// The releaser's next action.
#[derive(PartialEq, Eq, Structural, Clone, Copy, Debug)]
pub enum ReleaseAction {
    /// Read `tail` (relaxed).
    ReadTail,
    /// Compare-exchange `tail` from the node to null (release on success).
    Detach,
    /// Pause if `pause`, yield if `yield_now`, then read `next` (relaxed).
    ReadNext { pause: bool, yield_now: bool },
    /// Issue an acquire fence and signal the successor's notifier.
    SignalNext,
    /// Return: the lock is free.
    Return,
}

pub open spec fn release_event_fits(p: ReleasePhase, e: ReleaseEvent) -> bool {
    match p {
        ReleasePhase::Checking => e is TailSeen,
        ReleasePhase::Detaching => e is Detached,
        ReleasePhase::AwaitingLink { .. } => e is NextSeen,
        ReleasePhase::Released => false,
    }
}

/// The releaser's decision on event `e` in phase `p`.
pub open spec fn release_next(p: ReleasePhase, e: ReleaseEvent) -> (ReleasePhase, ReleaseAction) {
    match (p, e) {
        (ReleasePhase::Checking, ReleaseEvent::TailSeen { is_self }) => if is_self {
            (ReleasePhase::Detaching, ReleaseAction::Detach)
        } else {
            (
                ReleasePhase::AwaitingLink { left: RELEASE_PAUSES },
                ReleaseAction::ReadNext { pause: false, yield_now: false },
            )
        },
        (ReleasePhase::Detaching, ReleaseEvent::Detached { ok }) => if ok {
            (ReleasePhase::Released, ReleaseAction::Return)
        } else {
            (
                ReleasePhase::AwaitingLink { left: RELEASE_PAUSES },
                ReleaseAction::ReadNext { pause: false, yield_now: false },
            )
        },
        (ReleasePhase::AwaitingLink { left }, ReleaseEvent::NextSeen { linked }) => if linked {
            (ReleasePhase::Released, ReleaseAction::SignalNext)
        } else if left > 0 {
            (
                ReleasePhase::AwaitingLink { left: (left - 1) as usize },
                ReleaseAction::ReadNext { pause: true, yield_now: false },
            )
        } else {
            (ReleasePhase::AwaitingLink { left: 0 }, ReleaseAction::ReadNext { pause: true, yield_now: true })
        },
        _ => (p, ReleaseAction::Return),
    }
}

pub open spec fn release_begin() -> (ReleasePhase, ReleaseAction) {
    (ReleasePhase::Checking, ReleaseAction::ReadTail)
}

/// The first phase and action of a release: read `tail`.
pub fn release_start() -> (r: (ReleasePhase, ReleaseAction))
    ensures
        r == release_begin(),
{
    (ReleasePhase::Checking, ReleaseAction::ReadTail)
}

/// One decision of a release.
pub fn release_step(p: ReleasePhase, e: ReleaseEvent) -> (r: (ReleasePhase, ReleaseAction))
    requires
        release_event_fits(p, e),
    ensures
        r == release_next(p, e),
{
    match (p, e) {
        (ReleasePhase::Checking, ReleaseEvent::TailSeen { is_self }) => if is_self {
            (ReleasePhase::Detaching, ReleaseAction::Detach)
        } else {
            (
                ReleasePhase::AwaitingLink { left: RELEASE_PAUSES },
                ReleaseAction::ReadNext { pause: false, yield_now: false },
            )
        },
        (ReleasePhase::Detaching, ReleaseEvent::Detached { ok }) => if ok {
            (ReleasePhase::Released, ReleaseAction::Return)
        } else {
            (
                ReleasePhase::AwaitingLink { left: RELEASE_PAUSES },
                ReleaseAction::ReadNext { pause: false, yield_now: false },
            )
        },
        (ReleasePhase::AwaitingLink { left }, ReleaseEvent::NextSeen { linked }) => if linked {
            (ReleasePhase::Released, ReleaseAction::SignalNext)
        } else if left > 0 {
            (
                ReleasePhase::AwaitingLink { left: left - 1 },
                ReleaseAction::ReadNext { pause: true, yield_now: false },
            )
        } else {
            (ReleasePhase::AwaitingLink { left: 0 }, ReleaseAction::ReadNext { pause: true, yield_now: true })
        },
        _ => (p, ReleaseAction::Return),
    }
}

/// An uncontended acquire and release make no kernel call: a free `tail`
/// and a successful claim enter at once, and a holder that is still the
/// tail and detaches returns without signalling anyone.
pub proof fn lemma_uncontended_no_kernel_call()
    ensures
        acquire_next(acquire_begin().0, AcquireEvent::TailSeen { empty: true }) == (
        AcquirePhase::Claiming { attempt: 0 },
        AcquireAction::Claim,
        ),
        acquire_next(AcquirePhase::Claiming { attempt: 0 }, AcquireEvent::Claimed { ok: true }) == (
        AcquirePhase::Held,
        AcquireAction::Enter { fence: true },
        ),
        release_next(release_begin().0, ReleaseEvent::TailSeen { is_self: true }) == (
        ReleasePhase::Detaching,
        ReleaseAction::Detach,
        ),
        release_next(ReleasePhase::Detaching, ReleaseEvent::Detached { ok: true }) == (
        ReleasePhase::Released,
        ReleaseAction::Return,
        ),
{
}

} // verus!
