//! When a changed mascot scale is written back: the write waits until the
//! scale has stayed unchanged for a short while.
use vstd::prelude::*;

verus! {

/// How long (in nanoseconds) a scale must stay unchanged before it is
/// saved.
pub const SCALE_PERSIST_DEBOUNCE_NS: u64 = 250_000_000;

/// The time left (ns) before a pending scale is saved: the debounce minus
/// the time since the last change, never below zero; none when no scale
/// is pending or the state is inconsistent.
pub open spec fn persist_remaining(has_pending: bool, last_change_at: Option<u64>, now: u64) -> Option<
    u64,
> {
    match (has_pending, last_change_at) {
        (true, Some(t)) => {
            let elapsed: int = if now >= t {
                now - t
            } else {
                0
            };
            Some(
                (if elapsed >= SCALE_PERSIST_DEBOUNCE_NS {
                    0
                } else {
                    SCALE_PERSIST_DEBOUNCE_NS - elapsed
                }) as u64,
            )
        },
        _ => None,
    }
}

/// The time left before a pending scale is saved, as `persist_remaining`
/// says. Times are nanoseconds on a monotonic clock.
pub fn pending_scale_persist_remaining_at(
    has_pending_scale: bool,
    last_scale_change_at_ns: Option<u64>,
    now_ns: u64,
) -> (r: Option<u64>)
    ensures
        r == persist_remaining(has_pending_scale, last_scale_change_at_ns, now_ns),
{
    match (has_pending_scale, last_scale_change_at_ns) {
        (true, Some(changed_at)) => {
            let elapsed = if now_ns >= changed_at {
                now_ns - changed_at
            } else {
                0
            };
            Some(
                if elapsed >= SCALE_PERSIST_DEBOUNCE_NS {
                    0
                } else {
                    SCALE_PERSIST_DEBOUNCE_NS - elapsed
                },
            )
        },
        _ => None,
    }
}

/// A pending scale is saved once nothing is left of the debounce (or when
/// no change time is known).
pub open spec fn persist_due(has_pending: bool, last_change_at: Option<u64>, now: u64) -> bool {
    has_pending && match persist_remaining(has_pending, last_change_at, now) {
        Some(r) => r == 0,
        None => true,
    }
}

/// Whether the pending scale is to be saved now, as `persist_due` says.
pub fn should_persist_pending_scale(
    has_pending_scale: bool,
    last_scale_change_at_ns: Option<u64>,
    now_ns: u64,
) -> (b: bool)
    ensures
        b == persist_due(has_pending_scale, last_scale_change_at_ns, now_ns),
{
    if !has_pending_scale {
        return false;
    }
    match pending_scale_persist_remaining_at(has_pending_scale, last_scale_change_at_ns, now_ns) {
        Some(remaining) => remaining == 0,
        None => true,
    }
}

/// A pending scale is saved exactly when the debounce has passed since the
/// last change; once due it stays due.
pub proof fn lemma_persist_due_after_debounce(t: u64, now: u64, later: u64)
    requires
        now <= later,
    ensures
        persist_due(true, Some(t), now) <==> now >= t + SCALE_PERSIST_DEBOUNCE_NS,
        persist_due(true, Some(t), now) ==> persist_due(true, Some(t), later),
        !persist_due(false, Some(t), now),
{
}

} // verus!
