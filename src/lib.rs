//! An MCS queue lock, its single-shot notifier and an ABA-tagged node pool,
//! written as verified decision procedures. Each blocking protocol is a
//! function from the current phase and the outcome of the last shared-memory
//! action to the next phase and the next action; the caller performs the
//! actions on real atomics.
use vstd::prelude::*;

pub mod backoff;
pub mod cacheline;
pub mod lock;
pub mod lock_model;
pub mod notifier;
pub mod notifier_model;
pub mod stack;

verus! {

} // verus!
