//! A minimal time-based rate limiter, so a held-down hotkey that keeps
//! failing cannot spawn a flood of system dialogs.

use vstd::prelude::*;

verus! {

/// Allows an action at most once per cooldown. Times are nanoseconds of one
/// monotonic clock.
#[derive(Debug)]
pub struct RateLimiter {
    pub cooldown: u64,
    pub last: Option<u64>,
}

/// The time since `earlier`, or zero when the clock reading is older.
pub open spec fn since(now: u64, earlier: u64) -> int {
    if now >= earlier {
        now - earlier
    } else {
        0
    }
}

/// Whether a call at `now` is let through after the last allowed call.
pub open spec fn ready(last: Option<u64>, cooldown: u64, now: u64) -> bool {
    match last {
        Some(t) => since(now, t) >= cooldown,
        None => true,
    }
}

impl RateLimiter {
    /// A limiter that has never let anything through.
    pub fn new(cooldown: u64) -> (r: RateLimiter)
        ensures
            r.cooldown == cooldown,
            r.last is None,
    {
        RateLimiter { cooldown, last: None }
    }

    /// Returns `true` and arms the cooldown if enough time has elapsed since
    /// the previous allowed call; otherwise returns `false`.
    pub fn allow_at(&mut self, now: u64) -> (allowed: bool)
        ensures
            allowed == ready(old(self).last, old(self).cooldown, now),
            final(self).cooldown == old(self).cooldown,
            final(self).last == (if allowed {
                Some(now)
            } else {
                old(self).last
            }),
    {
        let ready = match self.last {
            Some(last) => {
                let elapsed: u64 = if now >= last {
                    now - last
                } else {
                    0
                };
                elapsed >= self.cooldown
            },
            None => true,
        };
        if ready {
            self.last = Some(now);
        }
        ready
    }
}

/// Two calls less than a cooldown apart are never both let through.
pub proof fn lemma_at_most_one_per_cooldown(cooldown: u64, last: Option<u64>, t1: u64, t2: u64)
    requires
        ready(last, cooldown, t1),
        t1 <= t2,
        t2 - t1 < cooldown,
    ensures
        !ready(Some(t1), cooldown, t2),
{
}

} // verus!
