//! Resource-limit adjustment policy.
//!
//! Concurrency during dispatch is unbounded, so every in-flight probe holds
//! a socket. Before dispatch the process asks for a higher ceiling on open
//! file descriptors. The attempt is best-effort: its failure never blocks
//! the run, it only surfaces the still-effective limit as a warning.

use vstd::prelude::*;

verus! {

/// Open-file-descriptor ceiling requested before dispatch.
pub const NOFILE_TARGET: u64 = 16384;

/// What the run reports about the limit adjustment: nothing on success, a
/// warning carrying the still-effective limit on failure.
pub open spec fn limit_warning_spec(raise_result: Option<u64>, effective_limit: u64) -> Option<
    u64,
> {
    match raise_result {
        Some(_) => None,
        None => Some(effective_limit),
    }
}

/// Decide what follows the attempt to raise the descriptor ceiling, whose
/// result the caller hands over as the granted limit, or `None` on
/// failure. The decision is never to abort: a failed attempt only yields a
/// warning with the limit still in force.
pub fn assess_limit_adjustment(raise_result: &Option<u64>, effective_limit: u64) -> (r: Option<
    u64,
>)
    ensures
        r == limit_warning_spec(*raise_result, effective_limit),
{
    match raise_result {
        Some(_) => None,
        None => Some(effective_limit),
    }
}

} // verus!
