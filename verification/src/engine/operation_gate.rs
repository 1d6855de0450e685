//! How long a request tries for the lock of its key before it is rejected: a bounded number of
//! attempts, with ever more pauses between them, and never behind a lock that is held for long.
use crate::engine::common::Gate;
use crate::types::KeyHash;
use vstd::arithmetic::power2::{lemma_pow2_unfold, pow2};
use vstd::prelude::*;

verus! {

/// How often an attempt is made again.
pub const RETRIES: u32 = 6;

/// What to do after an attempt.
#[derive(Clone, Copy, Debug, PartialEq, Eq, Structural)]
pub enum GateStep {
    /// There is no further attempt.
    Ended(Gate),
    /// Give the processor so many hints, then try again.
    Pause(u32),
}

/// Which of the locks of the engine belongs to a key.
pub fn gate_of(hash: KeyHash, gates: usize) -> (r: usize)
    requires
        gates > 0,
    ensures
        r == (hash.0 as usize) % gates,
        r < gates,
{
    (hash.0 as usize) % gates
}

/// The attempts at one lock.
#[derive(Clone, Copy, Debug, PartialEq, Eq, Structural)]
pub struct Attempts {
    pub retries: u32,
}

/// How many hints were given before the `n`-th retry.
pub open spec fn hints(n: nat) -> nat
    decreases n,
{
    if n == 0 {
        0
    } else {
        hints((n - 1) as nat) + pow2((n - 1) as nat)
    }
}

impl Attempts {
    pub open spec fn wf(self) -> bool {
        self.retries <= RETRIES
    }

    pub fn new() -> (r: Attempts)
        ensures
            r.wf(),
            r.retries == 0,
    {
        Attempts { retries: 0 }
    }

    /// Takes what an attempt found. Only a lock that is held is tried again.
    pub fn next(&mut self, found: Gate) -> (r: GateStep)
        requires
            old(self).wf(),
        ensures
            final(self).wf(),
            if found != Gate::Held || old(self).retries == RETRIES {
                r == GateStep::Ended(found) && *final(self) == *old(self)
            } else {
                &&& r == GateStep::Pause(pow2(old(self).retries as nat) as u32)
                &&& final(self).retries == old(self).retries + 1
            },
    {
        if found != Gate::Held || self.retries >= RETRIES {
            return GateStep::Ended(found);
        }
        let mut pause: u32 = 1;
        let mut i: u32 = 0;
        proof {
            vstd::arithmetic::power::lemma_pow0(2);
            vstd::arithmetic::power2::lemma2_to64();
        }
        while i < self.retries
            invariant
                i <= self.retries < RETRIES,
                pause == pow2(i as nat),
                pause <= 32,
                i == 5 ==> pause == 32,
                i < 5 ==> pause <= 16,
                self.retries == old(self).retries,
            decreases self.retries - i,
        {
            proof {
                lemma_pow2_unfold((i + 1) as nat);
                vstd::arithmetic::power2::lemma2_to64();
            }
            pause = pause * 2;
            i += 1;
        }
        self.retries = self.retries + 1;
        GateStep::Pause(pause)
    }
}

/// The hints double with each retry: before the `n`-th there were `2^n - 1`, and never more than 63.
pub proof fn law_bounded(n: nat)
    ensures
        hints(n) + 1 == pow2(n),
        n <= RETRIES ==> hints(n) <= 63,
    decreases n,
{
    vstd::arithmetic::power2::lemma2_to64();
    if n > 0 {
        law_bounded((n - 1) as nat);
        lemma_pow2_unfold(n);
    }
    if n < RETRIES {
        vstd::arithmetic::power2::lemma_pow2_strictly_increases(n, RETRIES as nat);
    }
}

/// Only a lock that is held is tried again, and no more often than it may be; each pause is twice as long
/// as the one before it.
pub proof fn law_tries_again(attempts: &mut Attempts, found: Gate, r: GateStep)
    requires
        old(attempts).wf(),
        call_ensures(Attempts::next, (attempts, found), r),
    ensures
        r is Pause <==> found == Gate::Held && old(attempts).retries < RETRIES,
        r is Ended ==> r == GateStep::Ended(found) && final(attempts).retries == old(attempts).retries,
        r is Pause ==> final(attempts).retries == old(attempts).retries + 1 && r->Pause_0 == pow2(
            old(attempts).retries as nat,
        ) && 1 <= r->Pause_0 <= 32,
{
    vstd::arithmetic::power2::lemma2_to64();
}

/// Two requests for keys with the same hash try for the same lock.
pub proof fn law_one_lock_per_key(hash: KeyHash, gates: usize, a: usize, b: usize)
    requires
        gates > 0,
        call_ensures(gate_of, (hash, gates), a),
        call_ensures(gate_of, (hash, gates), b),
    ensures
        a == b,
        a < gates,
{
}

} // verus!
