use std::sync::atomic::{AtomicU64, Ordering};
use vstd::prelude::*;

use crate::backoff::backoff_limit;

verus! {

/// Bits of a tagged word that hold the tag.
pub const TAG_BITS: u64 = 23;

/// Mask of the tag bits.
pub const TAG_MASK: u64 = 0x7f_ffff;

/// Alignment that a pooled node's address must have: its low 7 bits are
/// zero, which lets the address share a word with a 23-bit tag.
pub const NODE_ALIGN: u64 = 128;

/// Addresses of pooled nodes lie below `2^48`.
pub const ADDR_LIMIT: u64 = 0x1_0000_0000_0000;

/// Largest exponent of the push and pop retry backoff.
pub const MAX_EXP: usize = 6;

/// The tagged word for node address `addr` and tag `tag`: the tag's low 23
/// bits, with the address shifted above them.
pub open spec fn pack(addr: u64, tag: u32) -> u64 {
    ((tag as u64) & TAG_MASK) | (addr << 16u64)
}

/// The node address that a tagged word holds.
pub open spec fn word_addr(w: u64) -> u64 {
    (w >> TAG_BITS) << 7u64
}

/// The tag that a tagged word holds.
pub open spec fn word_tag(w: u64) -> u32 {
    (w & TAG_MASK) as u32
}

/// An address that can stand in a tagged word.
pub open spec fn poolable(addr: u64) -> bool {
    addr % NODE_ALIGN == 0 && addr < ADDR_LIMIT
}

pub fn to_u64(addr: u64, tag: u32) -> (r: u64)
    ensures
        r == pack(addr, tag),
{
    ((tag as u64) & TAG_MASK) | (addr << 16u64)
}

pub fn from_u64(w: u64) -> (r: (u64, u32))
    ensures
        r == (word_addr(w), word_tag(w)),
{
    let addr = (w >> TAG_BITS) << 7u64;
    let tag_bits = w & TAG_MASK;
    assert(tag_bits <= TAG_MASK) by (bit_vector)
        requires
            tag_bits == w & 0x7f_ffffu64,
    ;
    (addr, tag_bits as u32)
}

/// Packing loses nothing: a poolable address and the tag's low 23 bits come
/// back out of the word.
pub proof fn lemma_pack_round_trip(addr: u64, tag: u32)
    requires
        poolable(addr),
    ensures
        word_addr(pack(addr, tag)) == addr,
        word_tag(pack(addr, tag)) as u64 == (tag as u64) & TAG_MASK,
{
    let t = tag as u64;
    assert(addr & 127 == 0) by (bit_vector)
        requires
            addr % 128 == 0,
    ;
    assert((((t & 0x7f_ffff) | (addr << 16u64)) >> 23u64) << 7u64 == addr) by (bit_vector)
        requires
            addr & 127 == 0,
            addr < 0x1_0000_0000_0000,
    ;
    assert(((t & 0x7f_ffff) | (addr << 16u64)) & 0x7f_ffff == t & 0x7f_ffff) by (bit_vector)
        requires
            addr & 127 == 0,
    ;
}

/// Bumping the tag changes the word: a node that was popped and pushed back
/// does not compare equal to its earlier head word, until the tag wraps.
pub proof fn lemma_bumped_tag_differs(addr: u64, tag: u32, bumped: u32)
    requires
        poolable(addr),
        (tag as u64) & TAG_MASK != (bumped as u64) & TAG_MASK,
    ensures
        pack(addr, tag) != pack(addr, bumped),
{
    lemma_pack_round_trip(addr, tag);
    lemma_pack_round_trip(addr, bumped);
}

/// A head word of the pool: a node address and a version tag.
#[derive(PartialEq, Eq, Structural, Clone, Copy, Debug)]
pub struct Aba {
    pub word: u64,
}

impl Aba {
    pub open spec fn addr(&self) -> u64 {
        word_addr(self.word)
    }

    pub open spec fn version(&self) -> u32 {
        word_tag(self.word)
    }

    pub fn new(addr: u64, tag: u32) -> (r: Aba)
        ensures
            r.word == pack(addr, tag),
    {
        Aba { word: to_u64(addr, tag) }
    }

    pub fn ptr(&self) -> (r: u64)
        ensures
            r == self.addr(),
    {
        from_u64(self.word).0
    }

    pub fn tag(&self) -> (r: u32)
        ensures
            r == self.version(),
    {
        from_u64(self.word).1
    }
}

/// The pool's atomic head word.
pub struct AtomicAba {
    pub word: AtomicU64,
}

impl AtomicAba {
    pub fn new(addr: u64) -> (r: AtomicAba) {
        AtomicAba { word: AtomicU64::new(to_u64(addr, 0)) }
    }

    pub fn load(&self, ordering: Ordering) -> (r: Aba) {
        Aba { word: self.word.load(ordering) }
    }

    /// Replaces the head word with `new` if it equals `old`; it may fail
    /// spuriously. `Err` carries the word found.
    pub fn compare_exchange_weak(&self, old: Aba, new: Aba, success: Ordering, fail: Ordering) -> (r:
        Result<Aba, Aba>) {
        match self.word.compare_exchange_weak(old.word, new.word, success, fail) {
            Err(x) => Err(Aba { word: x }),
            Ok(x) => Ok(Aba { word: x }),
        }
    }
}

/// The tag that follows `tag`, wrapping.
pub open spec fn bump(tag: u32) -> u32 {
    ((tag as int + 1) % 0x1_0000_0000) as u32
}

/// The head word that installs `node` over `head`: a push.
pub open spec fn pushed(head: Aba, node: u64) -> Aba {
    Aba { word: pack(node, bump(head.version())) }
}

/// The head word that removes the top node of `head`, whose `next` link is
/// `next`; `None` when the top is the `empty` sentinel.
pub open spec fn popped(head: Aba, next: u64, empty: u64) -> Option<Aba> {
    if head.addr() == empty {
        None
    } else {
        Some(Aba { word: pack(next, bump(head.version())) })
    }
}

pub fn push_word(head: Aba, node: u64) -> (r: Aba)
    ensures
        r == pushed(head, node),
{
    let tag = head.tag().wrapping_add(1);
    Aba::new(node, tag)
}

pub fn pop_word(head: Aba, next: u64, empty: u64) -> (r: Option<Aba>)
    ensures
        r == popped(head, next, empty),
{
    if head.ptr() == empty {
        None
    } else {
        let tag = head.tag().wrapping_add(1);
        Some(Aba::new(next, tag))
    }
}

/// Pushing a node and popping it again, with nothing in between, brings back
/// the earlier top address under a version two steps on (modulo `2^23`).
pub proof fn lemma_push_then_pop(head: Aba, node: u64, empty: u64)
    requires
        poolable(node),
        poolable(head.addr()),
        node != empty,
    ensures
        popped(pushed(head, node), head.addr(), empty) is Some,
        popped(pushed(head, node), head.addr(), empty)->0.addr() == head.addr(),
        popped(pushed(head, node), head.addr(), empty)->0.version() as u64 == ((head.version() as u64
            + 2) as u64) & TAG_MASK,
{
    let v = head.version();
    let p = pushed(head, node);
    lemma_pack_round_trip(node, bump(v));
    assert(p.addr() == node);
    let v1 = p.version();
    lemma_pack_round_trip(head.addr(), bump(v1));
    let vv = v as u64;
    let hw = head.word;
    assert(hw & 0x7f_ffffu64 <= 0x7f_ffffu64) by (bit_vector);
    assert(vv == hw & TAG_MASK);
    let b1 = bump(v) as u64;
    assert(b1 == vv + 1);
    let w1 = v1 as u64;
    assert(w1 == b1 & TAG_MASK);
    let b2 = bump(v1) as u64;
    assert(b2 == w1 + 1) by {
        assert(w1 <= TAG_MASK) by (bit_vector)
            requires
                w1 == b1 & 0x7f_ffffu64,
        ;
    }
    assert(b2 & 0x7f_ffff == ((vv + 2) as u64) & 0x7f_ffff) by (bit_vector)
        requires
            b2 == w1 + 1,
            w1 == b1 & 0x7f_ffff,
            b1 == vv + 1,
            vv <= 0x7f_ffff,
    ;
}

/// The backoff of retry `counter` of a push or pop: `2^counter` until the
/// counter passes `MAX_EXP`, `2^MAX_EXP` after; and the next counter.
pub fn retry_backoff(counter: usize) -> (r: (usize, usize))
    ensures
        counter > MAX_EXP ==> r == (counter, vstd::arithmetic::power2::pow2(MAX_EXP as nat) as usize),
        counter <= MAX_EXP ==> r == ((counter + 1) as usize, vstd::arithmetic::power2::pow2(
            counter as nat,
        ) as usize),
{
    if counter > MAX_EXP {
        (counter, backoff_limit(MAX_EXP))
    } else {
        (counter + 1, backoff_limit(counter))
    }
}

} // verus!
