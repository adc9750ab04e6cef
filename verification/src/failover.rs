//! Round-robin failover over an ordered credential list: attempts start at
//! a remembered index, wrap around once, stop at the first success, and
//! surface the most recent failure when every credential has been tried.
use crate::error::FetchError;
use vstd::prelude::*;

verus! {

/// Drives one fetch cycle across the credential list. `M` is the payload
/// a successful attempt produces.
pub struct FailoverFetcher<M> {
    /// How many credentials there are; always positive.
    pub total: usize,
    /// The index the cycle begins at.
    pub start: usize,
    /// How many attempts have failed so far.
    pub attempts: usize,
    /// The error of the most recent failed attempt.
    pub last_error: Option<FetchError>,
    /// The payload and credential index of the successful attempt.
    pub outcome: Option<(M, usize)>,
}

impl<M> FailoverFetcher<M> {
    /// The index the next attempt uses: `start + attempts`, wrapped once.
    pub open spec fn cursor(&self) -> int {
        if self.start + self.attempts < self.total {
            self.start + self.attempts
        } else {
            self.start + self.attempts - self.total
        }
    }

    pub open spec fn wf(&self) -> bool {
        &&& self.total > 0
        &&& self.start < self.total
        &&& self.attempts <= self.total
        &&& (self.attempts > 0 ==> self.last_error is Some)
        &&& (match self.outcome {
            Some((_, idx)) => idx < self.total,
            None => true,
        })
    }

    /// Whether the cycle is over: a success, or every credential failed.
    pub open spec fn done(&self) -> bool {
        self.outcome is Some || self.attempts == self.total
    }

    /// Starts a cycle over `total` credentials at `start_index` (reset to
    /// the first credential when out of range). `None` exactly when the
    /// credential list is empty: no attempt is to be made then.
    pub fn new(total: usize, start_index: usize) -> (r: Option<Self>)
        ensures
            (total == 0) <==> (r is None),
            r matches Some(f) ==> {
                &&& f.wf()
                &&& f.total == total
                &&& f.start == (if start_index < total {
                    start_index as int
                } else {
                    0
                })
                &&& f.attempts == 0
                &&& f.last_error is None
                &&& f.outcome is None
            },
    {
        if total == 0 {
            None
        } else {
            Some(
                FailoverFetcher {
                    total,
                    start: if start_index < total {
                        start_index
                    } else {
                        0
                    },
                    attempts: 0,
                    last_error: None,
                    outcome: None,
                },
            )
        }
    }

    /// The credential index to try next, or `None` when the cycle is over.
    pub fn next_attempt(&self) -> (r: Option<usize>)
        requires
            self.wf(),
        ensures
            !self.done() ==> r == Some(self.cursor() as usize),
            self.done() ==> r is None,
            r matches Some(i) ==> i < self.total,
    {
        if self.outcome.is_some() || self.attempts >= self.total {
            None
        } else {
            if self.attempts < self.total - self.start {
                Some(self.start + self.attempts)
            } else {
                Some(self.attempts - (self.total - self.start))
            }
        }
    }

    /// Records that the attempt at the cursor failed; the cursor moves on
    /// and only this newest error is kept.
    pub fn record_failure(&mut self, err: FetchError)
        requires
            old(self).wf(),
            !old(self).done(),
        ensures
            final(self).wf(),
            final(self).total == old(self).total,
            final(self).start == old(self).start,
            final(self).attempts == old(self).attempts + 1,
            final(self).last_error matches Some(e) && e@ == err@,
            final(self).outcome is None,
    {
        self.attempts = self.attempts + 1;
        self.last_error = Some(err);
    }

    /// Records that the attempt at the cursor succeeded with `payload`.
    pub fn record_success(&mut self, payload: M)
        requires
            old(self).wf(),
            !old(self).done(),
        ensures
            final(self).wf(),
            final(self).total == old(self).total,
            final(self).start == old(self).start,
            final(self).attempts == old(self).attempts,
            final(self).last_error == old(self).last_error,
            final(self).outcome == Some((payload, old(self).cursor() as usize)),
    {
        let idx = if self.attempts < self.total - self.start {
            self.start + self.attempts
        } else {
            self.attempts - (self.total - self.start)
        };
        self.outcome = Some((payload, idx));
    }

    /// The cycle's result: the successful payload and the index that
    /// produced it, or the error of the last attempt tried.
    pub fn finish(self) -> (r: Result<(M, usize), FetchError>)
        requires
            self.wf(),
            self.done(),
        ensures
            self.outcome is Some ==> r == Ok::<(M, usize), FetchError>(self.outcome->0),
            self.outcome is None ==> (r matches Err(e) && Some(e) == self.last_error),
    {
        match self.outcome {
            Some(p) => Ok(p),
            None => {
                match self.last_error {
                    Some(e) => Err(e),
                    None => {
                        proof {
                            assert(self.attempts == self.total);
                            assert(false);
                        }
                        Err(FetchError::new(String::new()))
                    },
                }
            },
        }
    }
}

} // verus!
