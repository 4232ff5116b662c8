//! What to do after an attempt to show a wallpaper.
//!
//! A backend that fails is tried again after a fixed delay, up to a fixed
//! number of attempts in all. When the last of them fails too the condition
//! is fatal: a backend that stays unavailable needs an operator, not another
//! retry.

use crate::backends::WallpaperBackendError;
use vstd::prelude::*;

verus! {

/// Attempts made in all before the condition is fatal.
pub const MAX_ATTEMPTS: u32 = 6;

/// Seconds to wait between one failed attempt and the next.
pub const RETRY_DELAY_SECONDS: u64 = 5;

/// What follows an attempt.
#[derive(Debug, Clone, Copy, PartialEq, Eq, Structural)]
pub enum Verdict {
    /// The backend showed the wallpaper.
    Applied,
    /// The backend failed; wait this many seconds and try again.
    RetryAfter(u64),
    /// The backend failed for the last time.
    Fatal,
}

/// What follows an attempt that was preceded by `failures` failed ones.
pub open spec fn spec_verdict(failures: u32, applied: bool) -> Verdict {
    if applied {
        Verdict::Applied
    } else if failures + 1 >= MAX_ATTEMPTS {
        Verdict::Fatal
    } else {
        Verdict::RetryAfter(RETRY_DELAY_SECONDS)
    }
}

/// Decides what follows an attempt that was preceded by `failures` failed
/// ones and ended in `outcome`.
pub fn verdict(failures: u32, outcome: &Result<(), WallpaperBackendError>) -> (v: Verdict)
    ensures
        v == spec_verdict(failures, outcome is Ok),
{
    match outcome {
        Ok(_) => Verdict::Applied,
        Err(_) => {
            if failures >= MAX_ATTEMPTS - 1 {
                Verdict::Fatal
            } else {
                Verdict::RetryAfter(RETRY_DELAY_SECONDS)
            }
        },
    }
}

/// The seconds spent waiting when `failures` attempts in a row have failed
/// and none has been fatal yet.
pub open spec fn spec_total_delay(failures: nat) -> nat {
    failures * (RETRY_DELAY_SECONDS as nat)
}

/// A backend that never succeeds is given up at the sixth failure and at no
/// earlier one, each earlier failure is answered with a wait of five
/// seconds, and so the waits add up to twenty-five seconds at most.
pub proof fn lemma_retry_budget(failures: u32)
    ensures
        failures < MAX_ATTEMPTS - 1 ==> spec_verdict(failures, false) == Verdict::RetryAfter(
            RETRY_DELAY_SECONDS,
        ),
        failures >= MAX_ATTEMPTS - 1 ==> spec_verdict(failures, false) == Verdict::Fatal,
        spec_verdict(failures, true) == Verdict::Applied,
        failures < MAX_ATTEMPTS ==> spec_total_delay(failures as nat) <= 25,
        MAX_ATTEMPTS == 6 && RETRY_DELAY_SECONDS == 5,
{
    assert(failures < 6 ==> failures as nat * 5 <= 25) by (nonlinear_arith);
}

} // verus!
