use vstd::prelude::*;

verus! {

/// Number of workers when neither the command line nor the host gives one.
pub const DEFAULT_WORKERS: usize = 4;

/// Largest number of tasks a worker takes from the queue at once.
pub const FILES_PER_QUEUE: usize = 10_000;

/// The settings of one copy run.
pub struct Cli {
    pub source: String,
    pub destination: String,
    pub workers: Option<i32>,
    pub verbose: bool,
}

/// The number of workers to start: the count asked for, which must be
/// positive (else the settings are refused), else the host's available
/// parallelism, else the default.
pub open spec fn spec_worker_count(workers: Option<i32>, available: Option<usize>) -> Option<usize> {
    match workers {
        Some(i) => if i > 0 {
            Some(i as usize)
        } else {
            None
        },
        None => match available {
            Some(a) => if a > 0 {
                Some(a)
            } else {
                Some(DEFAULT_WORKERS)
            },
            None => Some(DEFAULT_WORKERS),
        },
    }
}

impl Cli {
    /// The number of workers to start, given the host's available
    /// parallelism when it could be found out; `None` when the count asked
    /// for is not positive. A count that is returned is always positive.
    pub fn worker_count(&self, available: Option<usize>) -> (r: Option<usize>)
        ensures
            r == spec_worker_count(self.workers, available),
            r matches Some(n) ==> n > 0,
    {
        match self.workers {
            Some(i) => if i > 0 {
                Some(i as usize)
            } else {
                None
            },
            None => match available {
                Some(a) => if a > 0 {
                    Some(a)
                } else {
                    Some(DEFAULT_WORKERS)
                },
                None => Some(DEFAULT_WORKERS),
            },
        }
    }
}

} // verus!
