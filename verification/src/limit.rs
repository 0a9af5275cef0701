//! The global submission rate limit: at most one admitted submission per
//! ten-second window, shared across all requests.
//!
//! Policy for requests arriving while the window is exhausted: they are
//! refused (the caller answers them without running the pipeline). Refusal
//! rather than queueing keeps the limiter a pure function of its state and
//! the clock.

use vstd::prelude::*;

verus! {

/// Length of the admission window, in seconds.
pub const WINDOW_SECONDS: u64 = 10;

/// The hard cap on a request body, in bytes (100 KiB). A body over the
/// cap is refused without being read further.
pub const BODY_CAP_BYTES: usize = 102400;

/// Whether a body of `len` bytes is within the cap.
pub fn body_within_cap(len: usize) -> (r: bool)
    ensures
        r == (len <= BODY_CAP_BYTES),
{
    len <= BODY_CAP_BYTES
}

/// The shared rate limiter. It remembers the time of the last admitted
/// submission; the surrounding program holds one instance behind a lock
/// for the whole process.
pub struct RateLimiter {
    pub last_admit: Option<u64>,
}

impl RateLimiter {
    /// Whether a submission arriving at `now` (epoch seconds) may be
    /// admitted: either nothing was admitted yet, or the last admission
    /// lies a full window in the past. A clock that went backwards keeps
    /// the window shut.
    pub open spec fn window_open(self, now: u64) -> bool {
        match self.last_admit {
            Option::None => true,
            Option::Some(t) => now >= t + WINDOW_SECONDS,
        }
    }

    /// A fresh limiter; its first submission is always admitted.
    pub fn new() -> (r: Self)
        ensures
            r.last_admit is None,
            forall|now: u64| r.window_open(now),
    {
        RateLimiter { last_admit: None }
    }

    /// Admits the submission if the window is open, and then closes the
    /// window for the next ten seconds; refuses it otherwise, unchanged.
    pub fn try_admit(&mut self, now: u64) -> (admitted: bool)
        ensures
            admitted == old(self).window_open(now),
            admitted ==> final(self).last_admit == Some(now),
            !admitted ==> *final(self) == *old(self),
    {
        match self.last_admit {
            None => {
                self.last_admit = Some(now);
                true
            },
            Some(t) => {
                if now >= t && now - t >= WINDOW_SECONDS {
                    self.last_admit = Some(now);
                    true
                } else {
                    false
                }
            },
        }
    }
}

/// Law: at most one submission is admitted per window. Once a submission
/// is admitted at time `t1`, any submission arriving less than a full
/// window later finds the window shut.
pub proof fn lemma_one_admission_per_window(s: RateLimiter, t1: u64, t2: u64)
    requires
        s.window_open(t1),
        t2 < t1 + WINDOW_SECONDS,
    ensures
        !(RateLimiter { last_admit: Some(t1) }).window_open(t2),
{
}

} // verus!
