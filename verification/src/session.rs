//! Memory budget of the background print queue.

use vstd::prelude::*;
use crate::errors::PrinterError;
use crate::text::{decimal, push_decimal};

verus! {

/// Default cap for queued print payload bytes (16 MiB).
pub const DEFAULT_QUEUE_BYTE_BUDGET: usize = 16 * 1024 * 1024;

/// `a + b`, saturating at `usize::MAX`.
pub open spec fn saturating_sum(a: nat, b: nat) -> nat {
    if a + b > usize::MAX {
        usize::MAX as nat
    } else {
        a + b
    }
}

/// `a - b`, saturating at zero.
pub open spec fn saturating_diff(a: nat, b: nat) -> nat {
    if a >= b {
        (a - b) as nat
    } else {
        0
    }
}

/// The bytes in use after reserving `bytes` on top of `used` under a cap of
/// `max`, or `None` when the reservation is refused.
pub open spec fn reserve_result(max: nat, used: nat, bytes: nat) -> Option<nat> {
    if saturating_sum(used, bytes) > max {
        None
    } else {
        Some(saturating_sum(used, bytes))
    }
}

/// The message of a refused reservation.
pub open spec fn budget_exceeded_message(next: nat, max: nat) -> Seq<char> {
    "Print queue memory budget exceeded ("@ + decimal(next) + " > "@ + decimal(max) + " bytes)"@
}

/// Tracks the total bytes currently held in the background print queue
/// against a cap.
///
/// The methods take `&mut self`: tasks that share a budget hold it behind a
/// lock, and an update through a shared reference (an atomic) could not be
/// followed by the contracts, which state the usage before and after each
/// call.
#[derive(Debug)]
pub struct QueueBudget {
    max_bytes: usize,
    current: usize,
}

impl QueueBudget {
    /// The cap, in bytes.
    pub closed spec fn max(&self) -> nat {
        self.max_bytes as nat
    }

    /// The bytes currently accounted to queued jobs.
    pub closed spec fn used(&self) -> nat {
        self.current as nat
    }

    #[verifier::type_invariant]
    closed spec fn within_cap(&self) -> bool {
        self.current <= self.max_bytes
    }

    /// An empty budget capped at `max_bytes`.
    pub fn new(max_bytes: usize) -> (b: Self)
        ensures
            b.max() == max_bytes,
            b.used() == 0,
            b.used() <= b.max(),
    {
        QueueBudget { max_bytes, current: 0 }
    }

    /// Accounts `bytes` more to the queue when the total stays within the cap;
    /// otherwise refuses and changes nothing.
    pub fn try_reserve(&mut self, bytes: usize) -> (r: Result<(), PrinterError>)
        ensures
            final(self).max() == old(self).max(),
            final(self).used() <= final(self).max(),
            match reserve_result(old(self).max(), old(self).used(), bytes as nat) {
                Some(next) => r is Ok && final(self).used() == next,
                None => final(self).used() == old(self).used() && (r matches Err(
                    PrinterError::TransportUnavailable(m),
                ) && m@ == budget_exceeded_message(
                    saturating_sum(old(self).used(), bytes as nat),
                    old(self).max(),
                )),
            },
    {
        proof {
            use_type_invariant(&*self);
        }
        let next = self.current.saturating_add(bytes);
        if next > self.max_bytes {
            let mut m = String::from_str("Print queue memory budget exceeded (");
            push_decimal(&mut m, next);
            m.append(" > ");
            push_decimal(&mut m, self.max_bytes);
            m.append(" bytes)");
            return Err(PrinterError::TransportUnavailable(m));
        }
        self.current = next;
        Ok(())
    }

    /// Gives `bytes` back to the budget (never below zero).
    pub fn release(&mut self, bytes: usize)
        ensures
            final(self).max() == old(self).max(),
            final(self).used() == saturating_diff(old(self).used(), bytes as nat),
            final(self).used() <= final(self).max(),
    {
        proof {
            use_type_invariant(&*self);
        }
        self.current = self.current.saturating_sub(bytes);
    }

    /// Forgets every reservation.
    pub fn reset(&mut self)
        ensures
            final(self).max() == old(self).max(),
            final(self).used() == 0,
    {
        self.current = 0;
    }
}

/// A budget's cap and usage are `usize` values.
pub proof fn lemma_budget_bounds(b: QueueBudget)
    ensures
        b.max() <= usize::MAX,
        b.used() <= usize::MAX,
{
}

/// Releasing what a successful reservation accounted gives the budget back its
/// previous state, provided the reservation did not saturate at `usize::MAX`.
pub proof fn law_reserve_then_release(max: nat, used: nat, bytes: nat)
    requires
        used + bytes <= usize::MAX,
        reserve_result(max, used, bytes) is Some,
    ensures
        saturating_diff(reserve_result(max, used, bytes).unwrap(), bytes) == used,
{
}

/// A reservation is granted exactly when the total stays within the cap (the
/// total taken saturating at `usize::MAX`), and a granted reservation never
/// takes the queue past the cap.
pub proof fn law_reserve_within_cap(max: nat, used: nat, bytes: nat)
    requires
        used <= max,
        max <= usize::MAX,
    ensures
        reserve_result(max, used, bytes) is Some <==> saturating_sum(used, bytes) <= max,
        reserve_result(max, used, bytes) matches Some(next) ==> next <= max && next >= used,
{
}

} // verus!
