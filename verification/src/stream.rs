//! The streaming mode of a backfill job: overlap the fetch of upcoming blocks
//! with the execution of the current one, for a configured lookahead, while
//! the emitted sequence stays execution-ordered and behaviorally identical to
//! the plain job — the lookahead is a latency knob only, and never reorders,
//! duplicates or drops results.

use vstd::prelude::*;

use crate::backfill::{
    batch_step_post, single_result_matches, BackfillJob, BlockRange, SingleBlockBackfillJob,
};
use crate::chain::{BlockExecutionOutput, Chain};
use crate::executor::BackfillError;
use crate::primitives::RecoveredBlock;
use crate::provider::Provider;

verus! {

/// A backfill job in streaming form: the wrapped job together with the
/// prefetch lookahead. Block numbers inside the window
/// [`Self::prefetch_bounds`] may be fetched ahead of execution; nothing
/// beyond it is ever issued, so a consumer that stops pulling strands no
/// fetch work outside the window.
#[derive(Debug)]
pub struct StreamBackfillJob<J> {
    pub job: J,
    pub parallelism: usize,
}

impl<P: Provider> StreamBackfillJob<BackfillJob<P>> {
    /// The window of block numbers that may be prefetched before the next
    /// pull: at most `parallelism` numbers from the front of the remaining
    /// range, clipped to the range itself.
    pub fn prefetch_bounds(&self) -> (r: (u64, u64))
        requires
            self.job.range.wf(),
        ensures
            r.0 == self.job.range.start,
            r.0 <= r.1,
            r.1 - r.0 <= self.parallelism,
            r.1 as int <= self.job.range.end as int + 1,
    {
        let lo = self.job.range.start;
        let span = if self.job.range.is_empty() {
            0
        } else {
            let remaining = self.job.range.end - lo + 1;
            if (self.parallelism as u64) < remaining {
                self.parallelism as u64
            } else {
                remaining
            }
        };
        (lo, lo + span)
    }

    /// Produces the next batch, exactly as the wrapped job would: same
    /// batches, same order, same errors.
    pub fn poll_next(&mut self) -> (out: Option<Result<Chain, BackfillError>>)
        requires
            old(self).job.wf_spec(),
        ensures
            final(self).job.wf_spec(),
            final(self).parallelism == old(self).parallelism,
            old(self).job.range.is_empty_spec() ==> out is None && final(self).job == old(
                self,
            ).job,
            !old(self).job.range.is_empty_spec() ==> (out matches Some(r) && batch_step_post(
                old(self).job,
                final(self).job,
                r,
            )),
    {
        self.job.next()
    }
}

impl<P: Provider> StreamBackfillJob<SingleBlockBackfillJob<P>> {
    /// The window of block numbers that may be prefetched before the next
    /// pull; see the batch-mode counterpart.
    pub fn prefetch_bounds(&self) -> (r: (u64, u64))
        requires
            self.job.range.wf(),
        ensures
            r.0 == self.job.range.start,
            r.0 <= r.1,
            r.1 - r.0 <= self.parallelism,
            r.1 as int <= self.job.range.end as int + 1,
    {
        let lo = self.job.range.start;
        let span = if self.job.range.is_empty() {
            0
        } else {
            let remaining = self.job.range.end - lo + 1;
            if (self.parallelism as u64) < remaining {
                self.parallelism as u64
            } else {
                remaining
            }
        };
        (lo, lo + span)
    }

    /// Executes the next block, exactly as the wrapped job would: same
    /// results, same order, same errors.
    pub fn poll_next(&mut self) -> (out: Option<
        Result<(RecoveredBlock, BlockExecutionOutput), BackfillError>,
    >)
        requires
            old(self).job.wf_spec(),
        ensures
            final(self).job.wf_spec(),
            final(self).parallelism == old(self).parallelism,
            old(self).job.range.is_empty_spec() ==> out is None && final(self).job == old(
                self,
            ).job,
            !old(self).job.range.is_empty_spec() ==> final(self).job.range.start == old(
                self,
            ).job.range.start + 1 && (out matches Some(r) && single_result_matches(
                &old(self).job.provider,
                old(self).job.range.start,
                r,
            )),
    {
        self.job.next()
    }
}

impl<P: Provider> BackfillJob<P> {
    /// Converts the job into its streaming form, carrying the configured
    /// prefetch lookahead along.
    pub fn into_stream(self) -> (r: StreamBackfillJob<BackfillJob<P>>)
        ensures
            r.job == self,
            r.parallelism == self.stream_parallelism,
    {
        let parallelism = self.stream_parallelism;
        StreamBackfillJob { job: self, parallelism }
    }
}

impl<P: Provider> SingleBlockBackfillJob<P> {
    /// Converts the per-block job into its streaming form.
    pub fn into_stream(self) -> (r: StreamBackfillJob<SingleBlockBackfillJob<P>>)
        ensures
            r.job == self,
            r.parallelism == self.stream_parallelism,
    {
        let parallelism = self.stream_parallelism;
        StreamBackfillJob { job: self, parallelism }
    }
}

} // verus!
