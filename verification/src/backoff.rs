//! Exponential backoff with a hard ceiling on the delay.

use vstd::arithmetic::power2::{lemma2_to64, lemma_pow2_strictly_increases, lemma_pow2_unfold, pow2};
use vstd::prelude::*;

verus! {

/// Delay, in seconds, before the first retry.
pub const INITIAL_DELAY: u64 = 2;

/// Largest delay, in seconds, that is still followed by a retry.
pub const DELAY_CEILING: u64 = 3600;

/// The delay reached by doubling the initial delay `doublings` times.
pub open spec fn delay_after(doublings: nat) -> nat
    decreases doublings,
{
    if doublings == 0 {
        INITIAL_DELAY as nat
    } else {
        2 * delay_after((doublings - 1) as nat)
    }
}

/// Whether the retries end once the delay has been doubled `doublings` times.
pub open spec fn gives_up_after(doublings: nat) -> bool {
    delay_after(doublings) > DELAY_CEILING
}

/// What the policy says after a given number of doublings.
#[derive(Clone, Copy, Debug, PartialEq, Eq, Structural)]
pub enum Backoff {
    /// Keep going; the payload is the current delay in seconds.
    Wait(u64),
    /// The delay has passed the ceiling.
    GiveUp,
}

/// The backoff schedule: 2, 4, 8, ... seconds, abandoned above one hour.
pub struct BackoffPolicy {}

impl BackoffPolicy {
    /// Maps the number of doublings so far to the current delay, which is 2
    /// to the power `doublings + 1`, or to [`Backoff::GiveUp`] when that
    /// delay exceeds the ceiling.
    pub fn decide(doublings: u64) -> (b: Backoff)
        ensures
            b == if pow2((doublings + 1) as nat) > DELAY_CEILING {
                Backoff::GiveUp
            } else {
                Backoff::Wait(pow2((doublings + 1) as nat) as u64)
            },
            gives_up_after(doublings as nat) <==> b == Backoff::GiveUp,
            b matches Backoff::Wait(delay) ==> delay == delay_after(doublings as nat),
    {
        proof {
            lemma_delay_is_power_of_two(doublings as nat);
        }
        let mut delay: u64 = INITIAL_DELAY;
        let mut done: u64 = 0;
        while done < doublings && delay <= DELAY_CEILING
            invariant
                done <= doublings,
                delay == delay_after(done as nat),
                delay <= 2 * DELAY_CEILING,
            decreases doublings - done,
        {
            delay = delay * 2;
            done = done + 1;
        }
        if delay > DELAY_CEILING {
            proof {
                lemma_delay_monotonic(done as nat, doublings as nat);
            }
            Backoff::GiveUp
        } else {
            Backoff::Wait(delay)
        }
    }
}

/// Doubling never shortens the delay.
pub proof fn lemma_delay_monotonic(earlier: nat, later: nat)
    requires
        earlier <= later,
    ensures
        delay_after(earlier) <= delay_after(later),
    decreases later,
{
    if earlier < later {
        lemma_delay_monotonic(earlier, (later - 1) as nat);
    }
}

/// Doubling `n` times from 2 gives 2 to the power `n + 1`.
pub proof fn lemma_delay_is_power_of_two(n: nat)
    ensures
        delay_after(n) == pow2(n + 1),
    decreases n,
{
    lemma2_to64();
    if n > 0 {
        lemma_delay_is_power_of_two((n - 1) as nat);
        lemma_pow2_unfold(n + 1);
    }
}

/// The policy gives up exactly when 2 to the power `n + 1` exceeds the
/// ceiling, which is from the eleventh doubling on.
pub proof fn lemma_gives_up_iff_past_ceiling(n: nat)
    ensures
        gives_up_after(n) <==> pow2(n + 1) > 3600,
        gives_up_after(n) <==> n >= 11,
{
    lemma_delay_is_power_of_two(n);
    lemma2_to64();
    if n >= 11 {
        if n > 11 {
            lemma_pow2_strictly_increases(12, n + 1);
        }
    } else {
        if n < 10 {
            lemma_pow2_strictly_increases(n + 1, 11);
        }
    }
}

} // verus!
