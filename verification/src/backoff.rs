//! Escalating delay after consecutive cycles in which every credential
//! failed: three times the base interval at first, doubling afterwards,
//! capped at five minutes and never below the base interval. Any success
//! clears it.
use vstd::prelude::*;

verus! {

/// Longest backoff delay, in seconds.
pub const ERROR_BACKOFF_MAX_SECONDS: u64 = 300;

/// Three times the base interval, saturating instead of wrapping.
pub open spec fn first_backoff(base: u64) -> u64 {
    if base * 3 > u64::MAX {
        u64::MAX
    } else {
        (base * 3) as u64
    }
}

/// The backoff that follows a cycle's outcome.
pub open spec fn backoff_after(success: bool, base: u64, current: u64) -> u64 {
    if success {
        0
    } else {
        let raw: u64 = if current == 0 {
            if first_backoff(base) > base {
                first_backoff(base)
            } else {
                base
            }
        } else {
            if current * 2 > ERROR_BACKOFF_MAX_SECONDS {
                ERROR_BACKOFF_MAX_SECONDS
            } else {
                (current * 2) as u64
            }
        };
        if raw < base {
            base
        } else {
            raw
        }
    }
}

/// The delay until the next refresh: the capped backoff while one is in
/// force, the base interval otherwise.
pub open spec fn effective_delay_spec(backoff: u64, base: u64) -> u64 {
    if backoff > 0 {
        if backoff > ERROR_BACKOFF_MAX_SECONDS {
            ERROR_BACKOFF_MAX_SECONDS
        } else {
            backoff
        }
    } else {
        base
    }
}

/// Tracks the consecutive-failure delay; zero seconds means no backoff.
pub struct BackoffController {
    pub seconds: u64,
}

impl BackoffController {
    pub fn new() -> (r: Self)
        ensures
            r.seconds == 0,
    {
        BackoffController { seconds: 0 }
    }

    /// Feeds one cycle's outcome into the controller.
    pub fn on_result(&mut self, success: bool, base_refresh_seconds: u64)
        ensures
            final(self).seconds == backoff_after(
                success,
                base_refresh_seconds,
                old(self).seconds,
            ),
    {
        if success {
            self.seconds = 0;
            return ;
        }
        let base = base_refresh_seconds;
        let mut raw: u64 = if self.seconds == 0 {
            let tripled = match base.checked_mul(3) {
                Some(t) => t,
                None => u64::MAX,
            };
            if tripled > base {
                tripled
            } else {
                base
            }
        } else {
            match self.seconds.checked_mul(2) {
                Some(d) => {
                    if d > ERROR_BACKOFF_MAX_SECONDS {
                        ERROR_BACKOFF_MAX_SECONDS
                    } else {
                        d
                    }
                },
                None => ERROR_BACKOFF_MAX_SECONDS,
            }
        };
        if raw < base {
            raw = base;
        }
        self.seconds = raw;
    }

    /// The delay the scheduler should use next.
    pub fn effective_delay(&self, base_refresh_seconds: u64) -> (r: u64)
        ensures
            r == effective_delay_spec(self.seconds, base_refresh_seconds),
    {
        if self.seconds > 0 {
            if self.seconds > ERROR_BACKOFF_MAX_SECONDS {
                ERROR_BACKOFF_MAX_SECONDS
            } else {
                self.seconds
            }
        } else {
            base_refresh_seconds
        }
    }
}

} // verus!
