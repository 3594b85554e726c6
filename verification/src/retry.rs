//! What to do when fetching for an artifact fails: try again after a pause
//! that doubles each time, and give the artifact up after a bounded number
//! of attempts.

use vstd::prelude::*;

verus! {

/// How often a fetch is attempted before the artifact is given up.
pub const MAX_ATTEMPTS: u32 = 3;

/// The pause after the first failed attempt, in milliseconds.
pub const FIRST_PAUSE_MS: u64 = 500;

/// `base` doubled `times` times.
pub open spec fn doubled(base: nat, times: nat) -> nat
    decreases times,
{
    if times == 0 {
        base
    } else {
        2 * doubled(base, (times - 1) as nat)
    }
}

/// The pause before the next attempt once `failed` attempts have failed, in
/// milliseconds; `None` where no attempt is left, and where none has failed.
pub open spec fn pause_after(failed: nat) -> Option<nat> {
    if 1 <= failed < MAX_ATTEMPTS {
        Some(doubled(FIRST_PAUSE_MS as nat, (failed - 1) as nat))
    } else {
        None
    }
}

/// Decides what follows the failure of attempt number `failed`: a pause of so
/// many milliseconds and another attempt, or `None`: give the artifact up and
/// go on with the next.
pub fn retry_pause(failed: u32) -> (r: Option<u64>)
    ensures
        match r {
            Some(ms) => pause_after(failed as nat) == Some(ms as nat),
            None => pause_after(failed as nat) is None,
        },
{
    if failed < 1 || failed >= MAX_ATTEMPTS {
        return None;
    }
    let mut ms: u64 = FIRST_PAUSE_MS;
    let mut i: u32 = 1;
    while i < failed
        invariant
            1 <= i <= failed < MAX_ATTEMPTS,
            ms == doubled(FIRST_PAUSE_MS as nat, (i - 1) as nat),
        decreases failed - i,
    {
        proof {
            lemma_doubled_grows(FIRST_PAUSE_MS as nat, i as nat, (MAX_ATTEMPTS - 1) as nat);
            lemma_longest_pause();
        }
        ms = ms * 2;
        i += 1;
    }
    Some(ms)
}

/// Doubling more often gives no less.
pub proof fn lemma_doubled_grows(base: nat, fewer: nat, more: nat)
    requires
        fewer <= more,
    ensures
        doubled(base, fewer) <= doubled(base, more),
    decreases more,
{
    if fewer < more {
        lemma_doubled_grows(base, fewer, (more - 1) as nat);
    }
}

/// Doubled as often as there are attempts, the first pause is two seconds.
proof fn lemma_longest_pause()
    ensures
        doubled(FIRST_PAUSE_MS as nat, (MAX_ATTEMPTS - 1) as nat) == 2000,
{
    assert(doubled(FIRST_PAUSE_MS as nat, 0) == 500);
    assert(doubled(FIRST_PAUSE_MS as nat, 1) == 1000);
}

} // verus!
