use qlock::backoff::{backoff_limit, seed, thread_num, thread_num_between, LCG_ADD};
use qlock::cacheline::CacheLineAligned;

#[test]
fn thread_num_returns_state_mod_max_and_steps() {
    let mut state: u64 = 12345;
    assert_eq!(thread_num(&mut state, 7), 4);
    assert_eq!(state, 2021368500568277588);
    assert_eq!(thread_num(&mut state, 1000), 588);
    assert_eq!(state, 4895494634720187923);
}

#[test]
fn thread_num_from_zero_state() {
    let mut state: u64 = 0;
    assert_eq!(thread_num(&mut state, 10), 0);
    assert_eq!(state, LCG_ADD);
    assert_eq!(thread_num(&mut state, 10), 7);
    assert_eq!(state, 1876011003808476466);
}

#[test]
fn thread_num_max_one_is_zero() {
    let mut state: u64 = u64::MAX;
    assert_eq!(thread_num(&mut state, 1), 0);
}

#[test]
fn thread_num_between_stays_in_range() {
    let mut state: u64 = 12345;
    assert_eq!(thread_num_between(&mut state, 1, 8), 1 + 12345 % 7);
    let mut s = seed();
    for _ in 0..1000 {
        let r = thread_num_between(&mut s, 1, 256);
        assert!(r >= 1 && r < 256);
    }
}

#[test]
fn backoff_limit_is_power_of_two() {
    assert_eq!(backoff_limit(0), 1);
    assert_eq!(backoff_limit(1), 2);
    assert_eq!(backoff_limit(10), 1024);
    assert_eq!(backoff_limit(16), 65536);
}

#[test]
fn cache_line_aligned_holds_value() {
    let mut c = CacheLineAligned::new(41u32);
    assert_eq!(*c.get(), 41);
    *c.get_mut() += 1;
    assert_eq!(*c.get(), 42);
    assert_eq!(c.into_inner(), 42);
}
