use qlock::notifier::{
    park_result, signal_needs_wake, wait_start, wait_step, ParkResult, WaitAction, WaitEvent,
    WaitPhase, LOOPS,
};

fn observed(t: bool) -> WaitEvent {
    WaitEvent::Observed { triggered: t }
}

#[test]
fn signal_before_wait_returns_without_park() {
    let mut rng: u64 = 99;
    let (p, a) = wait_start();
    assert_eq!(a, WaitAction::Check);
    let (p, a) = wait_step(p, observed(true), &mut rng);
    assert_eq!(p, WaitPhase::Done);
    assert_eq!(a, WaitAction::Finish);
    assert_eq!(rng, 99);
}

#[test]
fn spin_phase_then_commit_then_park() {
    let mut rng: u64 = 7;
    let (mut p, _) = wait_start();
    let mut yields = 0;
    for round in 0..LOOPS {
        let (np, a) = wait_step(p, observed(false), &mut rng);
        match a {
            WaitAction::Backoff { yield_first, pauses } => {
                let exp = if round + 1 < 8 { round + 1 } else { 8 };
                assert!(pauses >= 1 && pauses < (1 << exp));
                assert_eq!(yield_first, round % 8 == 7);
                if yield_first {
                    yields += 1;
                }
            }
            other => panic!("unexpected action {:?}", other),
        }
        assert_eq!(np, WaitPhase::Spinning { round: round + 1 });
        p = np;
    }
    assert_eq!(yields, 2);
    let (p, a) = wait_step(p, observed(false), &mut rng);
    assert_eq!((p, a), (WaitPhase::Committed, WaitAction::Commit));
    let (p, a) = wait_step(p, observed(false), &mut rng);
    assert_eq!((p, a), (WaitPhase::Parked, WaitAction::Park));
    let (p2, a2) = wait_step(p, WaitEvent::ParkReturned { result: ParkResult::Woken }, &mut rng);
    assert_eq!((p2, a2), (WaitPhase::Done, WaitAction::Finish));
    let (p3, a3) =
        wait_step(p, WaitEvent::ParkReturned { result: ParkResult::WouldBlock }, &mut rng);
    assert_eq!((p3, a3), (WaitPhase::Done, WaitAction::Finish));
}

#[test]
fn spurious_park_return_resumes_spinning() {
    let mut rng: u64 = 1;
    let (p, a) = wait_step(
        WaitPhase::Parked,
        WaitEvent::ParkReturned { result: ParkResult::Interrupted },
        &mut rng,
    );
    assert_eq!((p, a), (WaitPhase::Spinning { round: 0 }, WaitAction::Resume));
    let (p, a) = wait_step(p, observed(true), &mut rng);
    assert_eq!((p, a), (WaitPhase::Done, WaitAction::Finish));
}

#[test]
fn late_signal_seen_on_commit_recheck() {
    let mut rng: u64 = 5;
    let (p, a) = wait_step(WaitPhase::Committed, observed(true), &mut rng);
    assert_eq!((p, a), (WaitPhase::Done, WaitAction::Finish));
}

#[test]
fn first_backoff_draws_exact_pause_count() {
    let mut rng: u64 = 12345;
    let (_, a) = wait_step(WaitPhase::Spinning { round: 0 }, observed(false), &mut rng);
    assert_eq!(a, WaitAction::Backoff { yield_first: false, pauses: 1 });
    assert_eq!(rng, 2021368500568277588);
    let (_, a) = wait_step(WaitPhase::Spinning { round: 2 }, observed(false), &mut rng);
    assert_eq!(a, WaitAction::Backoff { yield_first: false, pauses: 1 + 2021368500568277588 % 7 });
}

#[test]
fn park_result_classifies_returns() {
    assert_eq!(park_result(0, 0, 11), ParkResult::Woken);
    assert_eq!(park_result(-1, 11, 11), ParkResult::WouldBlock);
    assert_eq!(park_result(-1, 4, 11), ParkResult::Interrupted);
}

#[test]
fn wake_only_when_waiter_left_spin() {
    assert!(!signal_needs_wake(true));
    assert!(signal_needs_wake(false));
}

/// One waiter, one signaller and a kernel sleep queue, interleaved by a
/// pseudo-random schedule. The signaller starts after `delay` scheduler
/// ticks. Returns whether the waiter ever slept in the kernel.
fn simulate_notifier(seed: u64, delay: usize) -> bool {
    let mut triggered = false;
    let mut spinning = true;
    let mut rng: u64 = seed;
    let mut sched: u64 = seed ^ 0x5555;
    let (mut phase, mut action) = wait_start();
    let mut half = false;
    let mut asleep = false;
    let mut slept = false;
    let mut signal_pc = 0;
    let mut ticks = 0;
    while phase != WaitPhase::Done || signal_pc < 2 {
        ticks += 1;
        assert!(ticks < 1_000_000, "no progress");
        let pick = qlock::backoff::thread_num(&mut sched, 2);
        if pick == 0 && phase != WaitPhase::Done && !asleep {
            let event = match action {
                WaitAction::Check | WaitAction::Backoff { .. } => Some(observed(triggered)),
                WaitAction::Commit | WaitAction::Resume => {
                    if !half {
                        spinning = action == WaitAction::Resume;
                        half = true;
                        None
                    } else {
                        half = false;
                        Some(observed(triggered))
                    }
                }
                WaitAction::Park => {
                    if triggered {
                        Some(WaitEvent::ParkReturned { result: ParkResult::WouldBlock })
                    } else {
                        asleep = true;
                        slept = true;
                        None
                    }
                }
                WaitAction::Finish => None,
            };
            if let Some(e) = event {
                let (p, a) = wait_step(phase, e, &mut rng);
                phase = p;
                action = a;
                if phase == WaitPhase::Done {
                    assert!(signal_pc >= 1, "returned before any signal");
                }
            }
        } else if pick == 1 && ticks > delay {
            if signal_pc == 0 {
                triggered = true;
                signal_pc = 1;
            } else if signal_pc == 1 {
                if signal_needs_wake(spinning) && asleep {
                    asleep = false;
                    let (p, a) = wait_step(
                        phase,
                        WaitEvent::ParkReturned { result: ParkResult::Woken },
                        &mut rng,
                    );
                    phase = p;
                    action = a;
                }
                signal_pc = 2;
            }
        }
        if signal_pc == 2 {
            assert!(!asleep, "wake-up lost");
        }
    }
    slept
}

#[test]
fn signal_after_waiter_parks_wakes_it() {
    assert!(simulate_notifier(3, 100_000));
}

#[test]
fn signal_inside_spin_window_needs_no_park() {
    for seed in 0..200u64 {
        assert!(!simulate_notifier(seed, 0));
    }
}

#[test]
fn random_interleavings_lose_no_wakeup() {
    for seed in 0..500u64 {
        simulate_notifier(seed, (seed as usize) % 60);
    }
}
