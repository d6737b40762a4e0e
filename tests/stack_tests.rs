use qlock::stack::{from_u64, pop_word, push_word, retry_backoff, to_u64, Aba, AtomicAba};
use std::collections::HashMap;
use std::sync::atomic::Ordering;

#[test]
fn pack_exact_word() {
    assert_eq!(to_u64(0x1000_0080, 5), 0x1000_0080_0005);
    assert_eq!(from_u64(0x1000_0080_0005), (0x1000_0080, 5));
}

#[test]
fn pack_round_trip_masks_tag() {
    let addr: u64 = 0x7fff_ffff_ff80;
    let w = to_u64(addr, u32::MAX);
    assert_eq!(from_u64(w), (addr, 0x7f_ffff));
    let a = Aba::new(addr, 77);
    assert_eq!(a.ptr(), addr);
    assert_eq!(a.tag(), 77);
}

#[test]
fn bumped_tag_gives_new_word() {
    let a = Aba::new(0x4000, 3);
    let b = push_word(Aba::new(0x8000, 2), 0x4000);
    assert_eq!(b.ptr(), 0x4000);
    assert_eq!(b.tag(), 3);
    assert!(a == b);
    let c = push_word(a, 0x4000);
    assert!(c != a);
    assert_eq!(c.tag(), 4);
}

#[test]
fn pop_of_empty_is_none() {
    let empty: u64 = 0x80;
    assert_eq!(pop_word(Aba::new(empty, 9), 0, empty), None);
    let top = Aba::new(0x100, 9);
    assert_eq!(pop_word(top, 0x180, empty), Some(Aba::new(0x180, 10)));
}

#[test]
fn retry_backoff_doubles_then_caps() {
    assert_eq!(retry_backoff(0), (1, 1));
    assert_eq!(retry_backoff(3), (4, 8));
    assert_eq!(retry_backoff(6), (7, 64));
    assert_eq!(retry_backoff(7), (7, 64));
    assert_eq!(retry_backoff(100), (100, 64));
}

/// A single-threaded pool over the tagged head word: nodes are addresses,
/// links live in a map.
fn push(head: &AtomicAba, links: &mut HashMap<u64, u64>, node: u64) {
    loop {
        let h = head.load(Ordering::Relaxed);
        links.insert(node, h.ptr());
        let new = push_word(h, node);
        if head.compare_exchange_weak(h, new, Ordering::Release, Ordering::Relaxed).is_ok() {
            return;
        }
    }
}

fn pop(head: &AtomicAba, links: &HashMap<u64, u64>, empty: u64) -> u64 {
    loop {
        let h = head.load(Ordering::Relaxed);
        let next = if h.ptr() == empty { 0 } else { links[&h.ptr()] };
        match pop_word(h, next, empty) {
            None => return empty,
            Some(new) => {
                if head.compare_exchange_weak(h, new, Ordering::Release, Ordering::Relaxed).is_ok() {
                    return h.ptr();
                }
            }
        }
    }
}

#[test]
fn pool_push_pop_in_lifo_order_with_tags() {
    let empty: u64 = 0x80;
    let (a, b, c) = (0x1000u64, 0x2000u64, 0x3000u64);
    let head = AtomicAba::new(empty);
    let mut links = HashMap::new();
    push(&head, &mut links, a);
    push(&head, &mut links, b);
    push(&head, &mut links, c);
    let before = head.load(Ordering::Relaxed);
    assert_eq!(pop(&head, &links, empty), c);
    push(&head, &mut links, c);
    let after = head.load(Ordering::Relaxed);
    assert_eq!(after.ptr(), before.ptr());
    assert!(after != before);
    assert_eq!(pop(&head, &links, empty), c);
    assert_eq!(pop(&head, &links, empty), b);
    assert_eq!(pop(&head, &links, empty), a);
    push(&head, &mut links, a);
    assert_eq!(pop(&head, &links, empty), a);
    assert_eq!(pop(&head, &links, empty), empty);
    assert_eq!(head.load(Ordering::Relaxed).tag(), 10);
}

#[test]
fn push_then_pop_restores_top_with_wrapped_tag() {
    let empty: u64 = 0x80;
    let head = Aba::new(0x2000, 0x7f_ffff);
    let pushed = push_word(head, 0x4000);
    assert_eq!(pushed.ptr(), 0x4000);
    assert_eq!(pushed.tag(), 0);
    let popped = pop_word(pushed, head.ptr(), empty).unwrap();
    assert_eq!(popped.ptr(), 0x2000);
    assert_eq!(popped.tag(), 1);
}
