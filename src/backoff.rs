//! Retry with exponential backoff, independent of what is being polled.

use vstd::prelude::*;

verus! {

/// The delay waited before attempt `i` (counting from zero).
pub open spec fn delay_at(base: nat, multiplier: nat, i: nat) -> nat
    decreases i,
{
    if i == 0 {
        base
    } else {
        delay_at(base, multiplier, (i - 1) as nat) * multiplier
    }
}

/// The time waited in all before attempts `0 .. n` have been made.
pub open spec fn total_wait(base: nat, multiplier: nat, n: nat) -> nat
    decreases n,
{
    if n == 0 {
        0
    } else {
        total_wait(base, multiplier, (n - 1) as nat) + delay_at(base, multiplier, (n - 1) as nat)
    }
}

/// Any single delay of the schedule is bounded by the whole budget.
pub proof fn lemma_delay_within_total(base: nat, multiplier: nat, i: nat, n: nat)
    requires
        i < n,
    ensures
        delay_at(base, multiplier, i) <= total_wait(base, multiplier, n),
    decreases n,
{
    if i + 1 < n {
        lemma_delay_within_total(base, multiplier, i, (n - 1) as nat);
    }
}

/// A retry budget: at most `max_attempts` attempts, with a wait before each
/// one that starts at `base_delay_ms` and is multiplied by `multiplier` each time.
pub struct Backoff {
    max_attempts: u32,
    base_delay_ms: u64,
    multiplier: u64,
    attempts: u32,
    current_delay_ms: u64,
    waited_ms: u64,
}

impl Backoff {
    pub closed spec fn max_attempts_spec(&self) -> nat {
        self.max_attempts as nat
    }

    pub closed spec fn base_spec(&self) -> nat {
        self.base_delay_ms as nat
    }

    pub closed spec fn multiplier_spec(&self) -> nat {
        self.multiplier as nat
    }

    /// Attempts made so far.
    pub closed spec fn attempts_spec(&self) -> nat {
        self.attempts as nat
    }

    /// Time waited so far, in milliseconds.
    pub closed spec fn waited_spec(&self) -> nat {
        self.waited_ms as nat
    }

    pub open spec fn budget(&self) -> nat {
        total_wait(self.base_spec(), self.multiplier_spec(), self.max_attempts_spec())
    }

    pub closed spec fn wf(&self) -> bool {
        &&& self.attempts <= self.max_attempts
        &&& self.budget() <= u64::MAX
        &&& self.waited_ms == total_wait(self.base_spec(), self.multiplier_spec(), self.attempts as nat)
        &&& self.attempts < self.max_attempts ==> self.current_delay_ms == delay_at(
            self.base_spec(),
            self.multiplier_spec(),
            self.attempts as nat,
        )
    }

    /// What a well-formed budget guarantees about its counters.
    pub proof fn lemma_wf(&self)
        requires
            self.wf(),
        ensures
            self.attempts_spec() <= self.max_attempts_spec(),
            self.waited_spec() == total_wait(self.base_spec(), self.multiplier_spec(), self.attempts_spec()),
    {
    }

    /// Starts a fresh budget; the whole schedule must fit in a `u64`.
    pub fn new(max_attempts: u32, base_delay_ms: u64, multiplier: u64) -> (r: Backoff)
        requires
            total_wait(base_delay_ms as nat, multiplier as nat, max_attempts as nat) <= u64::MAX,
        ensures
            r.wf(),
            r.max_attempts_spec() == max_attempts,
            r.base_spec() == base_delay_ms,
            r.multiplier_spec() == multiplier,
            r.attempts_spec() == 0,
            r.waited_spec() == 0,
    {
        Backoff {
            max_attempts,
            base_delay_ms,
            multiplier,
            attempts: 0,
            current_delay_ms: base_delay_ms,
            waited_ms: 0,
        }
    }

    pub fn attempts(&self) -> (r: u32)
        ensures
            r == self.attempts_spec(),
    {
        self.attempts
    }

    pub fn waited_ms(&self) -> (r: u64)
        ensures
            r == self.waited_spec(),
    {
        self.waited_ms
    }

    /// The wait before the next attempt, or `None` once the budget is spent.
    pub fn next_delay(&self) -> (r: Option<u64>)
        requires
            self.wf(),
        ensures
            self.attempts_spec() < self.max_attempts_spec() ==> r == Some(
                delay_at(self.base_spec(), self.multiplier_spec(), self.attempts_spec()) as u64,
            ),
            self.attempts_spec() >= self.max_attempts_spec() ==> r is None,
    {
        if self.attempts < self.max_attempts {
            Some(self.current_delay_ms)
        } else {
            None
        }
    }

    /// Records that the next delay was waited and the attempt made.
    pub fn record_attempt(&mut self)
        requires
            old(self).wf(),
            old(self).attempts_spec() < old(self).max_attempts_spec(),
        ensures
            final(self).wf(),
            final(self).max_attempts_spec() == old(self).max_attempts_spec(),
            final(self).base_spec() == old(self).base_spec(),
            final(self).multiplier_spec() == old(self).multiplier_spec(),
            final(self).attempts_spec() == old(self).attempts_spec() + 1,
            final(self).waited_spec() == old(self).waited_spec() + delay_at(
                old(self).base_spec(),
                old(self).multiplier_spec(),
                old(self).attempts_spec(),
            ),
    {
        let ghost b = self.base_spec();
        let ghost m = self.multiplier_spec();
        let ghost n = self.max_attempts_spec();
        proof {
            lemma_total_monotone(b, m, (self.attempts + 1) as nat, n);
        }
        self.waited_ms = self.waited_ms + self.current_delay_ms;
        self.attempts = self.attempts + 1;
        if self.attempts < self.max_attempts {
            proof {
                lemma_delay_within_total(b, m, self.attempts as nat, n);
                assert(delay_at(b, m, self.attempts as nat) == delay_at(b, m, (self.attempts - 1) as nat) * m);
            }
            self.current_delay_ms = self.current_delay_ms * self.multiplier;
        }
    }
}

/// The budget only grows with the number of attempts.
pub proof fn lemma_total_monotone(base: nat, multiplier: nat, i: nat, n: nat)
    requires
        i <= n,
    ensures
        total_wait(base, multiplier, i) <= total_wait(base, multiplier, n),
    decreases n,
{
    if i < n {
        lemma_total_monotone(base, multiplier, i, (n - 1) as nat);
    }
}

} // verus!
