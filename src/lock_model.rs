use vstd::prelude::*;

use crate::lock::{
    acquire_begin, acquire_next, release_begin, release_next, AcquireAction, AcquireEvent,
    AcquirePhase, ReleaseAction, ReleaseEvent, ReleasePhase,
};

verus! {

/// Where a thread stands with respect to the lock. Thread `t` always
/// acquires with node `t`.
pub enum ThreadPc {
    Idle,
    /// In `acquire`: the driver's phase and pending action, the predecessor
    /// that the tail swap returned, and whether the link to it is stored.
    Acquiring { phase: AcquirePhase, action: AcquireAction, prev: nat, linked: bool },
    /// In the critical section.
    Critical,
    /// In the guard's release.
    Releasing { phase: ReleasePhase, action: ReleaseAction },
}

/// One queue lock shared by `pcs.len()` threads under sequentially
/// consistent interleaving. `queue` is ghost bookkeeping: the nodes that
/// have entered `tail` and not yet left the lock, in the order in which
/// they entered.
pub struct LockSystem {
    pub tail: Option<nat>,
    pub next: Seq<Option<nat>>,
    pub triggered: Seq<bool>,
    pub pcs: Seq<ThreadPc>,
    pub queue: Seq<nat>,
}

/// A lock that nobody holds or waits for, shared by `n` idle threads.
pub open spec fn initial(n: nat) -> LockSystem {
    LockSystem {
        tail: None,
        next: Seq::new(n, |i: int| None),
        triggered: Seq::new(n, |i: int| false),
        pcs: Seq::new(n, |i: int| ThreadPc::Idle),
        queue: Seq::empty(),
    }
}

/// Thread `t` performs one atomic access.
pub open spec fn advance(s: LockSystem, t: nat) -> LockSystem {
    if t >= s.pcs.len() {
        s
    } else {
        match s.pcs[t as int] {
            ThreadPc::Idle => LockSystem {
                pcs: s.pcs.update(
                    t as int,
                    ThreadPc::Acquiring {
                        phase: acquire_begin().0,
                        action: acquire_begin().1,
                        prev: 0,
                        linked: false,
                    },
                ),
                ..s
            },
            ThreadPc::Acquiring { phase, action, prev, linked } => acquire_access(
                s,
                t,
                phase,
                action,
                prev,
                linked,
            ),
            ThreadPc::Critical => LockSystem {
                pcs: s.pcs.update(
                    t as int,
                    ThreadPc::Releasing { phase: release_begin().0, action: release_begin().1 },
                ),
                ..s
            },
            ThreadPc::Releasing { phase, action } => release_access(s, t, phase, action),
        }
    }
}

pub open spec fn acquiring(d: (AcquirePhase, AcquireAction), prev: nat, linked: bool) -> ThreadPc {
    ThreadPc::Acquiring { phase: d.0, action: d.1, prev, linked }
}

pub open spec fn acquire_access(
    s: LockSystem,
    t: nat,
    phase: AcquirePhase,
    action: AcquireAction,
    prev: nat,
    linked: bool,
) -> LockSystem {
    match action {
        AcquireAction::Probe { .. } => LockSystem {
            pcs: s.pcs.update(
                t as int,
                acquiring(acquire_next(phase, AcquireEvent::TailSeen { empty: s.tail is None }), prev, false),
            ),
            ..s
        },
        AcquireAction::Claim => {
            let ok = s.tail is None;
            LockSystem {
                tail: if ok {
                    Some(t)
                } else {
                    s.tail
                },
                next: s.next.update(t as int, None),
                triggered: s.triggered.update(t as int, false),
                pcs: s.pcs.update(
                    t as int,
                    acquiring(acquire_next(phase, AcquireEvent::Claimed { ok }), prev, false),
                ),
                queue: if ok {
                    s.queue.push(t)
                } else {
                    s.queue
                },
            }
        },
        AcquireAction::Enqueue => {
            let p = if s.tail is Some {
                s.tail->0
            } else {
                0
            };
            LockSystem {
                tail: Some(t),
                next: s.next.update(t as int, None),
                triggered: s.triggered.update(t as int, false),
                pcs: s.pcs.update(
                    t as int,
                    acquiring(
                        acquire_next(phase, AcquireEvent::Swapped { prev_empty: s.tail is None }),
                        p,
                        false,
                    ),
                ),
                queue: s.queue.push(t),
            }
        },
        AcquireAction::LinkAndWait => if !linked {
            LockSystem {
                next: s.next.update(prev as int, Some(t)),
                pcs: s.pcs.update(t as int, ThreadPc::Acquiring { phase, action, prev, linked: true }),
                ..s
            }
        } else if s.triggered[t as int] {
            LockSystem {
                pcs: s.pcs.update(t as int, acquiring(acquire_next(phase, AcquireEvent::Woken), prev, true)),
                ..s
            }
        } else {
            s
        },
        AcquireAction::Enter { .. } => LockSystem {
            pcs: s.pcs.update(t as int, ThreadPc::Critical),
            ..s
        },
    }
}

pub open spec fn releasing(d: (ReleasePhase, ReleaseAction)) -> ThreadPc {
    ThreadPc::Releasing { phase: d.0, action: d.1 }
}

pub open spec fn release_access(
    s: LockSystem,
    t: nat,
    phase: ReleasePhase,
    action: ReleaseAction,
) -> LockSystem {
    match action {
        ReleaseAction::ReadTail => LockSystem {
            pcs: s.pcs.update(
                t as int,
                releasing(release_next(phase, ReleaseEvent::TailSeen { is_self: s.tail == Some(t) })),
            ),
            ..s
        },
        ReleaseAction::Detach => {
            let ok = s.tail == Some(t);
            LockSystem {
                tail: if ok {
                    None
                } else {
                    s.tail
                },
                pcs: s.pcs.update(t as int, releasing(release_next(phase, ReleaseEvent::Detached { ok }))),
                queue: if ok {
                    s.queue.drop_first()
                } else {
                    s.queue
                },
                ..s
            }
        },
        ReleaseAction::ReadNext { .. } => LockSystem {
            pcs: s.pcs.update(
                t as int,
                releasing(release_next(phase, ReleaseEvent::NextSeen { linked: s.next[t as int] is Some })),
            ),
            ..s
        },
        ReleaseAction::SignalNext => {
            let succ = if s.next[t as int] is Some {
                s.next[t as int]->0
            } else {
                t
            };
            LockSystem {
                triggered: s.triggered.update(succ as int, true),
                pcs: s.pcs.update(t as int, ThreadPc::Idle),
                queue: s.queue.drop_first(),
                ..s
            }
        },
        ReleaseAction::Return => LockSystem { pcs: s.pcs.update(t as int, ThreadPc::Idle), ..s },
    }
}

/// The acquire driver's phase matches its pending action.
pub open spec fn acquire_coherent(phase: AcquirePhase, action: AcquireAction) -> bool {
    match action {
        AcquireAction::Probe { .. } => phase is Probing,
        AcquireAction::Claim => phase is Claiming,
        AcquireAction::Enqueue => phase == AcquirePhase::Enqueuing,
        AcquireAction::LinkAndWait => phase == AcquirePhase::Waiting,
        AcquireAction::Enter { .. } => phase == AcquirePhase::Held,
    }
}

/// The release driver's phase matches its pending action.
pub open spec fn release_coherent(phase: ReleasePhase, action: ReleaseAction) -> bool {
    match action {
        ReleaseAction::ReadTail => phase == ReleasePhase::Checking,
        ReleaseAction::Detach => phase == ReleasePhase::Detaching,
        ReleaseAction::ReadNext { .. } => phase is AwaitingLink,
        ReleaseAction::SignalNext | ReleaseAction::Return => phase == ReleasePhase::Released,
    }
}

pub open spec fn coherent(pc: ThreadPc) -> bool {
    match pc {
        ThreadPc::Acquiring { phase, action, .. } => acquire_coherent(phase, action),
        ThreadPc::Releasing { phase, action } => release_coherent(phase, action),
        _ => true,
    }
}

/// A thread whose node is not in the queue.
pub open spec fn outside(pc: ThreadPc) -> bool {
    match pc {
        ThreadPc::Idle => true,
        ThreadPc::Acquiring { action, .. } => action is Probe || action is Claim || action is Enqueue,
        ThreadPc::Releasing { action, .. } => action is Return,
        ThreadPc::Critical => false,
    }
}

/// An acquirer that has enqueued behind a predecessor.
pub open spec fn waits_for_link(pc: ThreadPc) -> bool {
    match pc {
        ThreadPc::Acquiring { action, .. } => action is LinkAndWait,
        _ => false,
    }
}

/// The thread at the front of the queue.
pub open spec fn at_front(s: LockSystem, t: nat) -> bool {
    match s.pcs[t as int] {
        ThreadPc::Acquiring { action, linked, .. } => action is Enter || (action is LinkAndWait
            && linked && s.triggered[t as int]),
        ThreadPc::Critical => true,
        ThreadPc::Releasing { action, .. } => action is ReadTail || action is Detach || ((
        action is ReadNext || action is SignalNext) && s.queue.len() >= 2 && (action is SignalNext
            ==> s.next[t as int] is Some)),
        ThreadPc::Idle => false,
    }
}

/// The thread at position `i > 0` of the queue waits behind `queue[i - 1]`.
pub open spec fn behind(s: LockSystem, i: int) -> bool {
    let t = s.queue[i];
    let p = s.queue[i - 1];
    match s.pcs[t as int] {
        ThreadPc::Acquiring { phase, action, prev, linked } => {
            &&& action is LinkAndWait
            &&& prev == p
            &&& !s.triggered[t as int]
            &&& s.next[p as int] == if linked {
                Some(t)
            } else {
                None
            }
        },
        _ => false,
    }
}

impl LockSystem {
    pub open spec fn n(&self) -> nat {
        self.pcs.len()
    }

    pub open spec fn inv(&self) -> bool {
        &&& self.next.len() == self.n()
        &&& self.triggered.len() == self.n()
        &&& forall|i: int| 0 <= i < self.queue.len() ==> self.queue[i] < self.n()
        &&& forall|i: int, j: int|
            0 <= i < self.queue.len() && 0 <= j < self.queue.len() && i != j ==> self.queue[i]
                != self.queue[j]
        &&& self.tail == if self.queue.len() == 0 {
            None
        } else {
            Some(self.queue.last())
        }
        &&& self.queue.len() > 0 ==> self.next[self.queue.last() as int] is None
        &&& forall|t: nat| t < self.n() ==> coherent(#[trigger] self.pcs[t as int])
        &&& forall|t: nat| t < self.n() && !self.queue.contains(t) ==> outside(self.pcs[t as int])
        &&& self.queue.len() > 0 ==> at_front(*self, self.queue[0])
        &&& forall|i: int| 0 < i < self.queue.len() ==> behind(*self, i)
    }
}

/// A fresh lock satisfies the invariant.
pub proof fn lemma_initial_inv(n: nat)
    ensures
        initial(n).inv(),
{
    let s = initial(n);
    assert forall|t: nat| t < s.n() && !s.queue.contains(t) implies outside(s.pcs[t as int]) by {}
}

/// Every access by any thread keeps the invariant.
pub proof fn lemma_step_inv(s: LockSystem, t: nat)
    requires
        s.inv(),
    ensures
        advance(s, t).inv(),
{
    if t < s.n() {
        match s.pcs[t as int] {
            ThreadPc::Idle => lemma_idle_step(s, t),
            ThreadPc::Acquiring { phase, action, prev, linked } => {
                lemma_acquire_step(s, t, phase, action, prev, linked)
            },
            ThreadPc::Critical => lemma_critical_step(s, t),
            ThreadPc::Releasing { phase, action } => lemma_release_step(s, t, phase, action),
        }
    }
}

/// Mutual exclusion: in every reachable state at most one thread is in the
/// critical section, and it is the one at the front of the queue.
pub proof fn lemma_mutual_exclusion(s: LockSystem, t1: nat, t2: nat)
    requires
        s.inv(),
        t1 < s.n(),
        t2 < s.n(),
        s.pcs[t1 as int] is Critical,
        s.pcs[t2 as int] is Critical,
    ensures
        t1 == t2,
        s.queue[0] == t1,
{
    lemma_queued_front(s, t1);
    lemma_queued_front(s, t2);
}

/// The queue changes only at its ends: a thread joins at the back when its
/// claim or tail swap succeeds, and only the front leaves.
pub proof fn lemma_queue_order_kept(s: LockSystem, t: nat)
    requires
        s.inv(),
    ensures
        advance(s, t).queue == s.queue || advance(s, t).queue == s.queue.push(t) || (s.queue.len()
            > 0 && s.queue[0] == t && advance(s, t).queue == s.queue.drop_first()),
{
    if t < s.n() {
        match s.pcs[t as int] {
            ThreadPc::Releasing { phase, action } => {
                if action is Detach || action is SignalNext {
                    assert(coherent(s.pcs[t as int]));
                    lemma_queued_front(s, t);
                }
            },
            _ => {},
        }
    }
}

/// First come, first served: a thread queued behind another cannot be in,
/// or about to enter, the critical section; a thread enters only from the
/// front of the queue. Together with `lemma_queue_order_kept`, threads
/// enter in the order in which their tail swaps took effect.
pub proof fn lemma_fifo(s: LockSystem, t: nat, i: int)
    requires
        s.inv(),
        t < s.n(),
        0 < i < s.queue.len(),
    ensures
        !(s.pcs[s.queue[i] as int] is Critical),
        !(advance(s, t).pcs[s.queue[i] as int] is Critical),
{
    assert(behind(s, i));
    let u = s.queue[i];
    if t != u {
    } else {
        assert(!s.triggered[u as int]);
    }
}

/// Queue order is kept: if `queue[i]` is ahead of `queue[j]`, then after any
/// step either the front left and both moved up by one, or both stand where
/// they stood.
pub proof fn lemma_ahead_stays_ahead(s: LockSystem, t: nat, i: int, j: int)
    requires
        s.inv(),
        0 <= i < j < s.queue.len(),
    ensures
        advance(s, t).queue == s.queue.drop_first() ==> advance(s, t).queue[j - 1] == s.queue[j] && (
        i > 0 ==> advance(s, t).queue[i - 1] == s.queue[i]),
        advance(s, t).queue != s.queue.drop_first() ==> advance(s, t).queue[j] == s.queue[j]
            && advance(s, t).queue[i] == s.queue[i],
{
    lemma_queue_order_kept(s, t);
}

/// No deadlock: while anyone is queued, the front thread or the one right
/// behind it can make a step that changes the state.
pub proof fn lemma_queue_can_move(s: LockSystem)
    requires
        s.inv(),
        s.queue.len() > 0,
    ensures
        advance(s, s.queue[0]) != s || (s.queue.len() >= 2 && advance(s, s.queue[1]) != s),
{
    let t = s.queue[0];
    assert(at_front(s, t));
    assert(coherent(s.pcs[t as int]));
    match s.pcs[t as int] {
        ThreadPc::Releasing { phase, action } => {
            if action is ReadNext {
                assert(behind(s, 1));
                let u = s.queue[1];
                match s.pcs[u as int] {
                    ThreadPc::Acquiring { phase: up, action: ua, prev, linked } => {
                        if !linked {
                            assert(advance(s, u).next[t as int] != s.next[t as int]);
                        } else {
                            assert(advance(s, t).pcs[t as int] != s.pcs[t as int]);
                        }
                    },
                    _ => {},
                }
            } else {
                assert(advance(s, t).pcs[t as int] != s.pcs[t as int]);
            }
        },
        _ => {
            assert(advance(s, t).pcs[t as int] != s.pcs[t as int]);
        },
    }
}

/// A thread whose node is outside the queue is at no position of it.
proof fn lemma_outside_not_queued(s: LockSystem, t: nat)
    requires
        s.inv(),
        t < s.n(),
        outside(s.pcs[t as int]),
    ensures
        !s.queue.contains(t),
        forall|i: int| 0 <= i < s.queue.len() ==> s.queue[i] != t,
{
    assert forall|i: int| 0 <= i < s.queue.len() implies s.queue[i] != t by {
        if s.queue[i] == t {
            if i > 0 {
                assert(behind(s, i));
            } else {
                assert(at_front(s, s.queue[0]));
            }
        }
    }
}

/// A queued thread that does not wait behind another is at the front.
proof fn lemma_queued_front(s: LockSystem, t: nat)
    requires
        s.inv(),
        t < s.n(),
        !outside(s.pcs[t as int]),
        !waits_for_link(s.pcs[t as int]),
    ensures
        s.queue.len() > 0,
        s.queue[0] == t,
{
    assert(s.queue.contains(t));
    let i = choose|i: int| 0 <= i < s.queue.len() && s.queue[i] == t;
    if i > 0 {
        assert(behind(s, i));
    }
}

/// Changing only the state of thread `t`, which is outside the queue and
/// stays outside, keeps the invariant.
proof fn lemma_outside_update(s: LockSystem, t: nat, pc: ThreadPc)
    requires
        s.inv(),
        t < s.n(),
        outside(s.pcs[t as int]),
        outside(pc),
        coherent(pc),
    ensures
        (LockSystem { pcs: s.pcs.update(t as int, pc), ..s }).inv(),
{
    lemma_outside_not_queued(s, t);
    let s2 = LockSystem { pcs: s.pcs.update(t as int, pc), ..s };
    assert forall|u: nat| u < s2.n() implies coherent(#[trigger] s2.pcs[u as int]) by {
        if u != t {
            assert(coherent(s.pcs[u as int]));
        }
    }
    if s.queue.len() > 0 {
        assert(at_front(s2, s2.queue[0]) == at_front(s, s.queue[0]));
    }
    assert forall|i: int| 0 < i < s2.queue.len() implies behind(s2, i) by {
        assert(behind(s, i));
    }
}

proof fn lemma_idle_step(s: LockSystem, t: nat)
    requires
        s.inv(),
        t < s.n(),
        s.pcs[t as int] is Idle,
    ensures
        advance(s, t).inv(),
{
    lemma_outside_update(
        s,
        t,
        ThreadPc::Acquiring {
            phase: acquire_begin().0,
            action: acquire_begin().1,
            prev: 0,
            linked: false,
        },
    );
}

proof fn lemma_critical_step(s: LockSystem, t: nat)
    requires
        s.inv(),
        t < s.n(),
        s.pcs[t as int] is Critical,
    ensures
        advance(s, t).inv(),
{
    lemma_queued_front(s, t);
    let s2 = advance(s, t);
    assert forall|u: nat| u < s2.n() implies coherent(#[trigger] s2.pcs[u as int]) by {
        if u != t {
            assert(coherent(s.pcs[u as int]));
        }
    }
    assert forall|u: nat| u < s2.n() && !s2.queue.contains(u) implies outside(s2.pcs[u as int]) by {
        if u == t {
            assert(s.queue[0] == t);
        }
    }
    assert forall|i: int| 0 < i < s2.queue.len() implies behind(s2, i) by {
        assert(behind(s, i));
    }
}

proof fn lemma_acquire_step(
    s: LockSystem,
    t: nat,
    phase: AcquirePhase,
    action: AcquireAction,
    prev: nat,
    linked: bool,
)
    requires
        s.inv(),
        t < s.n(),
        s.pcs[t as int] == (ThreadPc::Acquiring { phase, action, prev, linked }),
    ensures
        advance(s, t).inv(),
{
    assert(coherent(s.pcs[t as int]));
    let s2 = advance(s, t);
    match action {
        AcquireAction::Probe { .. } => {
            let d = acquire_next(phase, AcquireEvent::TailSeen { empty: s.tail is None });
            lemma_outside_update(s, t, acquiring(d, prev, false));
        },
        AcquireAction::Claim => {
            lemma_outside_not_queued(s, t);
            let ok = s.tail is None;
            assert forall|u: nat| u < s2.n() implies coherent(#[trigger] s2.pcs[u as int]) by {
                if u != t {
                    assert(coherent(s.pcs[u as int]));
                }
            }
            if ok {
                assert(s2.queue =~= seq![t]);
                assert forall|u: nat| u < s2.n() && !s2.queue.contains(u) implies outside(
                    s2.pcs[u as int],
                ) by {
                    if u != t {
                        assert(!s.queue.contains(u));
                    } else {
                        assert(s2.queue[0] == t);
                    }
                }
            } else {
                assert forall|u: nat| u < s2.n() && !s2.queue.contains(u) implies outside(
                    s2.pcs[u as int],
                ) by {}
                if s.queue.len() > 0 {
                    assert(at_front(s2, s2.queue[0]) == at_front(s, s.queue[0]));
                }
                assert forall|i: int| 0 < i < s2.queue.len() implies behind(s2, i) by {
                    assert(behind(s, i));
                }
            }
        },
        AcquireAction::Enqueue => {
            lemma_outside_not_queued(s, t);
            let q = s.queue;
            let q2 = s2.queue;
            assert(q2 == q.push(t));
            assert forall|u: nat| u < s2.n() implies coherent(#[trigger] s2.pcs[u as int]) by {
                if u != t {
                    assert(coherent(s.pcs[u as int]));
                }
            }
            assert forall|i: int, j: int|
                0 <= i < q2.len() && 0 <= j < q2.len() && i != j implies q2[i] != q2[j] by {}
            assert forall|u: nat| u < s2.n() && !s2.queue.contains(u) implies outside(
                s2.pcs[u as int],
            ) by {
                if u != t {
                    if s.queue.contains(u) {
                        let k = choose|k: int| 0 <= k < q.len() && q[k] == u;
                        assert(q2[k] == u);
                    }
                } else {
                    assert(q2[q.len() as int] == t);
                }
            }
            if q.len() > 0 {
                assert(at_front(s2, q2[0]) == at_front(s, q[0]) || q.len() >= 2);
                assert(at_front(s2, q2[0]));
            }
            assert forall|i: int| 0 < i < q2.len() implies behind(s2, i) by {
                if i < q.len() {
                    assert(behind(s, i));
                }
            }
        },
        AcquireAction::LinkAndWait => {
            if !linked {
                assert(s.queue.contains(t));
                let i = choose|i: int| 0 <= i < s.queue.len() && s.queue[i] == t;
                if i == 0 {
                    assert(at_front(s, s.queue[0]));
                }
                assert(behind(s, i));
                let q = s.queue;
                assert forall|u: nat| u < s2.n() implies coherent(#[trigger] s2.pcs[u as int]) by {
                    if u != t {
                        assert(coherent(s.pcs[u as int]));
                    }
                }
                assert forall|u: nat| u < s2.n() && !s2.queue.contains(u) implies outside(
                    s2.pcs[u as int],
                ) by {}
                assert(at_front(s2, q[0]));
                assert forall|j: int| 0 < j < q.len() implies behind(s2, j) by {
                    assert(behind(s, j));
                    if j != i {
                        assert(q[j - 1] != q[i - 1]);
                    }
                }
            } else if s.triggered[t as int] {
                assert(s.queue.contains(t));
                let i = choose|i: int| 0 <= i < s.queue.len() && s.queue[i] == t;
                if i > 0 {
                    assert(behind(s, i));
                }
                assert forall|u: nat| u < s2.n() implies coherent(#[trigger] s2.pcs[u as int]) by {
                    if u != t {
                        assert(coherent(s.pcs[u as int]));
                    }
                }
                assert forall|u: nat| u < s2.n() && !s2.queue.contains(u) implies outside(
                    s2.pcs[u as int],
                ) by {}
                assert forall|j: int| 0 < j < s2.queue.len() implies behind(s2, j) by {
                    assert(behind(s, j));
                }
            }
        },
        AcquireAction::Enter { .. } => {
            lemma_queued_front(s, t);
            assert forall|u: nat| u < s2.n() implies coherent(#[trigger] s2.pcs[u as int]) by {
                if u != t {
                    assert(coherent(s.pcs[u as int]));
                }
            }
            assert forall|u: nat| u < s2.n() && !s2.queue.contains(u) implies outside(
                s2.pcs[u as int],
            ) by {
                if u == t {
                    assert(s.queue[0] == t);
                }
            }
            assert forall|j: int| 0 < j < s2.queue.len() implies behind(s2, j) by {
                assert(behind(s, j));
            }
        },
    }
}

proof fn lemma_release_step(s: LockSystem, t: nat, phase: ReleasePhase, action: ReleaseAction)
    requires
        s.inv(),
        t < s.n(),
        s.pcs[t as int] == (ThreadPc::Releasing { phase, action }),
    ensures
        advance(s, t).inv(),
{
    assert(coherent(s.pcs[t as int]));
    let s2 = advance(s, t);
    let q = s.queue;
    if action is Return {
        lemma_outside_update(s, t, ThreadPc::Idle);
        return;
    }
    lemma_queued_front(s, t);
    assert(at_front(s, t));
    assert forall|u: nat| u < s2.n() implies coherent(#[trigger] s2.pcs[u as int]) by {
        if u != t {
            assert(coherent(s.pcs[u as int]));
        }
    }
    match action {
        ReleaseAction::ReadTail => {
            assert forall|u: nat| u < s2.n() && !s2.queue.contains(u) implies outside(
                s2.pcs[u as int],
            ) by {
                if u == t {
                    assert(q[0] == t);
                }
            }
            if s.tail != Some(t) {
                assert(q.len() >= 2);
            }
            assert forall|j: int| 0 < j < s2.queue.len() implies behind(s2, j) by {
                assert(behind(s, j));
            }
        },
        ReleaseAction::Detach => {
            if s.tail == Some(t) {
                assert(q.len() == 1);
                assert(s2.queue.len() == 0);
                assert forall|u: nat| u < s2.n() && !s2.queue.contains(u) implies outside(
                    s2.pcs[u as int],
                ) by {
                    if u != t {
                        assert(!q.contains(u));
                    }
                }
            } else {
                assert(q.len() >= 2);
                assert forall|u: nat| u < s2.n() && !s2.queue.contains(u) implies outside(
                    s2.pcs[u as int],
                ) by {
                    if u == t {
                        assert(q[0] == t);
                    }
                }
                assert forall|j: int| 0 < j < s2.queue.len() implies behind(s2, j) by {
                    assert(behind(s, j));
                }
            }
        },
        ReleaseAction::ReadNext { .. } => {
            assert forall|u: nat| u < s2.n() && !s2.queue.contains(u) implies outside(
                s2.pcs[u as int],
            ) by {
                if u == t {
                    assert(q[0] == t);
                }
            }
            assert forall|j: int| 0 < j < s2.queue.len() implies behind(s2, j) by {
                assert(behind(s, j));
            }
        },
        ReleaseAction::SignalNext => {
            assert(behind(s, 1));
            let succ = q[1];
            assert(s.next[t as int] == Some(succ));
            let q2 = s2.queue;
            assert(q2 == q.drop_first());
            assert forall|i: int, j: int|
                0 <= i < q2.len() && 0 <= j < q2.len() && i != j implies q2[i] != q2[j] by {
                assert(q2[i] == q[i + 1]);
                assert(q2[j] == q[j + 1]);
            }
            assert forall|u: nat| u < s2.n() && !s2.queue.contains(u) implies outside(
                s2.pcs[u as int],
            ) by {
                if u != t && q.contains(u) {
                    let k = choose|k: int| 0 <= k < q.len() && q[k] == u;
                    assert(k != 0);
                    assert(q2[k - 1] == u);
                }
            }
            assert(at_front(s2, q2[0]));
            assert forall|j: int| 0 < j < q2.len() implies behind(s2, j) by {
                assert(behind(s, j + 1));
                assert(q[j + 1] != q[1]);
                assert(q[j + 1] != q[0]);
            }
        },
        _ => {},
    }
}

} // verus!