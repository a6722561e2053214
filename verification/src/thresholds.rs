//! Batch-closing policy for range re-execution.
//!
//! A batch is closed as soon as any one of the configured limits is reached:
//! number of blocks in the batch, estimated size of the rolling state diff,
//! cumulative gas, or elapsed wall-clock time. Each limit bounds a different
//! resource (peak object count, memory, commit latency), so any subset may be
//! configured; an unconfigured limit never closes a batch.

use vstd::prelude::*;

verus! {

/// Limits that close the current batch of a range execution.
#[derive(Clone, Debug)]
pub struct ExecutionStageThresholds {
    /// Maximum number of blocks in one batch.
    pub max_blocks: Option<u64>,
    /// Maximum estimated size of the accumulated state diff, in tracked changes.
    pub max_changes: Option<u64>,
    /// Maximum cumulative gas of the blocks in one batch.
    pub max_cumulative_gas: Option<u64>,
    /// Maximum wall-clock duration of one batch, in milliseconds.
    pub max_duration_ms: Option<u64>,
}

impl ExecutionStageThresholds {
    /// Whether the counters reach any configured limit.
    pub open spec fn closes(self, blocks: u64, changes: u64, cumulative_gas: u64, elapsed_ms: u64) -> bool {
        ||| (self.max_blocks matches Some(m) && blocks >= m)
        ||| (self.max_changes matches Some(m) && changes >= m)
        ||| (self.max_cumulative_gas matches Some(m) && cumulative_gas >= m)
        ||| (self.max_duration_ms matches Some(m) && elapsed_ms >= m)
    }

    /// Whether the counters reach a configured limit other than the time limit.
    ///
    /// With no time limit configured this coincides with [`Self::closes`] for
    /// every elapsed time, which is what makes batch boundaries deterministic
    /// in that configuration.
    pub open spec fn closes_untimed(self, blocks: u64, changes: u64, cumulative_gas: u64) -> bool {
        ||| (self.max_blocks matches Some(m) && blocks >= m)
        ||| (self.max_changes matches Some(m) && changes >= m)
        ||| (self.max_cumulative_gas matches Some(m) && cumulative_gas >= m)
    }

    /// Decides whether the current batch must be closed, given the running
    /// counters of the batch: blocks executed so far, estimated state-diff
    /// size, cumulative gas, and elapsed time since the batch started.
    pub fn is_end_of_batch(&self, blocks: u64, changes: u64, cumulative_gas: u64, elapsed_ms: u64) -> (r: bool)
        ensures
            r == self.closes(blocks, changes, cumulative_gas, elapsed_ms),
    {
        let by_blocks = match self.max_blocks {
            Some(m) => blocks >= m,
            None => false,
        };
        let by_changes = match self.max_changes {
            Some(m) => changes >= m,
            None => false,
        };
        let by_gas = match self.max_cumulative_gas {
            Some(m) => cumulative_gas >= m,
            None => false,
        };
        let by_time = match self.max_duration_ms {
            Some(m) => elapsed_ms >= m,
            None => false,
        };
        by_blocks || by_changes || by_gas || by_time
    }

    /// Without a configured time limit, the decision is independent of the
    /// elapsed time.
    pub proof fn lemma_untimed_ignores_elapsed(self, blocks: u64, changes: u64, cumulative_gas: u64, elapsed_ms: u64)
        requires
            self.max_duration_ms is None,
        ensures
            self.closes(blocks, changes, cumulative_gas, elapsed_ms)
                == self.closes_untimed(blocks, changes, cumulative_gas),
    {
    }
}

impl Default for ExecutionStageThresholds {
    /// No limit is configured by default: a single batch covers the range.
    fn default() -> (r: Self)
        ensures
            r.max_blocks is None,
            r.max_changes is None,
            r.max_cumulative_gas is None,
            r.max_duration_ms is None,
    {
        ExecutionStageThresholds {
            max_blocks: None,
            max_changes: None,
            max_cumulative_gas: None,
            max_duration_ms: None,
        }
    }
}

} // verus!
