use vstd::prelude::*;

use crate::acquirer::AcquireError;
use crate::config::ConfigError;

verus! {

/// Batches in one run.
pub const DEFAULT_BATCH_COUNT: u64 = 20;

/// Samples in one batch.
pub const DEFAULT_BATCH_SIZE: u64 = 10;

/// Time between two samples, in nanoseconds.
pub const DEFAULT_INTERVAL_NANOS: u64 = 500_000_000;

/// Batches the relay channel holds before the acquirer has to wait.
pub const DEFAULT_CHANNEL_CAPACITY: usize = 32;

/// A failure that ends the pipeline.
#[derive(Clone, Copy, Debug, PartialEq, Eq, Structural)]
pub enum PipelineError {
    /// A required setting was missing; no task was started.
    Config(ConfigError),
    /// The acquirer could not take a sample.
    Acquire(AcquireError),
    /// The forwarder was gone when the acquirer handed over a batch.
    ChannelClosed,
}

/// The result of the whole run from the results of its two tasks, in the
/// order in which they ended: the first failure wins, else success.
pub fn combine_outcomes(first: Result<(), PipelineError>, second: Result<(), PipelineError>) -> (r:
    Result<(), PipelineError>)
    ensures
        first is Err ==> r == first,
        first is Ok ==> r == second,
{
    match first {
        Err(e) => Err(e),
        Ok(()) => second,
    }
}

} // verus!
