//! Batched historical re-execution: jobs that pull blocks from a provider,
//! re-execute them in order against rolling state, and emit bounded batches.

use vstd::prelude::*;

use crate::chain::{Chain, ExecutionOutcome};
use crate::executor::{exec_block_spec, BackfillError, ExecutorFactory};
use crate::primitives::{Account, Address, BlockView, Receipt, RecoveredBlock};
use crate::provider::Provider;
use crate::thresholds::ExecutionStageThresholds;

verus! {

/// An inclusive, ordered interval of block numbers. It becomes empty, with
/// `start == end + 1`, when a job has exhausted it; an exhausted range is the
/// job's terminal signal. The upper bound stays below the largest block
/// number so that advancing past the final block cannot overflow.
#[derive(Clone, Copy, Debug, PartialEq, Eq, Structural)]
pub struct BlockRange {
    pub start: u64,
    pub end: u64,
}

impl BlockRange {
    /// `start` exceeds `end` by at most one, and `end` leaves room to advance.
    pub open spec fn wf(self) -> bool {
        self.start <= self.end + 1 && self.end < 0xffffffffffffffffu64
    }

    /// An exhausted range.
    pub open spec fn is_empty_spec(self) -> bool {
        self.start > self.end
    }

    /// How many block numbers the range still covers.
    pub open spec fn len_spec(self) -> nat {
        if self.start > self.end {
            0
        } else {
            (self.end - self.start + 1) as nat
        }
    }

    /// The block numbers the range covers, in ascending order.
    pub open spec fn numbers(self) -> Seq<u64> {
        Seq::new(self.len_spec(), |i: int| (self.start + i) as u64)
    }

    /// Builds the range `[start, end]`; `start > end` is the empty range.
    pub fn new(start: u64, end: u64) -> (r: Self)
        requires
            start <= end as int + 1,
            end < 0xffffffffffffffffu64,
        ensures
            r.start == start,
            r.end == end,
            r.wf(),
    {
        BlockRange { start, end }
    }

    /// Whether the range is exhausted.
    pub fn is_empty(&self) -> (r: bool)
        ensures
            r == self.is_empty_spec(),
    {
        self.start > self.end
    }
}

/// Retention configuration carried alongside re-execution jobs and handed to
/// the execution layer; this model retains everything.
#[derive(Clone, Copy, Debug, Default, PartialEq, Eq, Structural)]
pub struct PruneModes {}

/// The block number just below `n`, saturating at zero: the block whose
/// post-state a re-execution of block `n` starts from.
pub open spec fn sub1(n: u64) -> u64 {
    if n == 0 {
        0
    } else {
        (n - 1) as u64
    }
}

/// Saturating addition on the cumulative-gas counter.
pub open spec fn sat_add(a: u64, b: u64) -> u64 {
    if a + b > 0xffffffffffffffffu64 {
        0xffffffffffffffffu64
    } else {
        (a + b) as u64
    }
}

/// The evolving picture of a rolling re-execution: the rolling state, the
/// accumulated net diff, the executed blocks with their receipts, and the
/// saturating sum of the headers' gas (the batching counter).
#[verifier::ext_equal]
pub ghost struct RunState {
    pub state: Seq<(Address, Account)>,
    pub diff: Seq<(Address, Account)>,
    pub blocks: Seq<BlockView>,
    pub receipts: Seq<Seq<Receipt>>,
    pub header_gas: u64,
}

/// Re-executes `count` blocks starting at `number` against the rolling state:
/// each block is fetched from the provider and executed on the state the
/// previous one left behind. `None` as soon as a block is missing or fails.
pub open spec fn run_blocks_spec<P: Provider>(
    p: &P,
    state: Seq<(Address, Account)>,
    diff: Seq<(Address, Account)>,
    number: u64,
    count: nat,
) -> Option<RunState>
    decreases count,
{
    if count == 0 {
        Some(
            RunState {
                state,
                diff,
                blocks: Seq::empty(),
                receipts: Seq::empty(),
                header_gas: 0,
            },
        )
    } else {
        match p.block_at_spec(number) {
            None => None,
            Some(b) => match exec_block_spec(state, diff, b) {
                None => None,
                Some(tr) => match run_blocks_spec(p, tr.0, tr.1, (number + 1) as u64, (count - 1) as nat) {
                    None => None,
                    Some(rest) => Some(
                        RunState {
                            state: rest.state,
                            diff: rest.diff,
                            blocks: seq![b] + rest.blocks,
                            receipts: seq![tr.3] + rest.receipts,
                            header_gas: sat_add(b.gas_used, rest.header_gas),
                        },
                    ),
                },
            },
        }
    }
}

/// Extending a successful run by one more successful block appends that block
/// to the run's picture.
pub proof fn lemma_run_snoc<P: Provider>(
    p: &P,
    state: Seq<(Address, Account)>,
    diff: Seq<(Address, Account)>,
    number: u64,
    count: nat,
    t: RunState,
    b: BlockView,
    tr: (Seq<(Address, Account)>, Seq<(Address, Account)>, u64, Seq<Receipt>),
)
    requires
        number + count < 0x10000000000000000,
        run_blocks_spec(p, state, diff, number, count) == Some(t),
        p.block_at_spec((number + count) as u64) == Some(b),
        exec_block_spec(t.state, t.diff, b) == Some(tr),
    ensures
        run_blocks_spec(p, state, diff, number, count + 1) matches Some(u)
            && u.state == tr.0
            && u.diff == tr.1
            && u.blocks == t.blocks.push(b)
            && u.receipts == t.receipts.push(tr.3)
            && u.header_gas == sat_add(t.header_gas, b.gas_used),
    decreases count,
{
    if count == 0 {
        reveal_with_fuel(run_blocks_spec, 3);
        let u = run_blocks_spec(p, state, diff, number, 1).unwrap();
        assert(u.blocks =~= t.blocks.push(b));
        assert(u.receipts =~= t.receipts.push(tr.3));
    } else {
        let b0 = p.block_at_spec(number).unwrap();
        let tr0 = exec_block_spec(state, diff, b0).unwrap();
        let rest = run_blocks_spec(p, tr0.0, tr0.1, (number + 1) as u64, (count - 1) as nat).unwrap();
        assert(t.blocks == seq![b0] + rest.blocks);
        assert(rest.blocks.len() == count - 1) by {
            lemma_run_len(p, tr0.0, tr0.1, (number + 1) as u64, (count - 1) as nat);
        }
        lemma_run_snoc(p, tr0.0, tr0.1, (number + 1) as u64, (count - 1) as nat, rest, b, tr);
        let u = run_blocks_spec(p, state, diff, number, count + 1).unwrap();
        assert(u.blocks =~= t.blocks.push(b));
        assert(u.receipts =~= t.receipts.push(tr.3));
    }
}

/// The number of executed blocks, and of their receipt lists, equals the
/// run's count.
pub proof fn lemma_run_len<P: Provider>(
    p: &P,
    state: Seq<(Address, Account)>,
    diff: Seq<(Address, Account)>,
    number: u64,
    count: nat,
)
    requires
        run_blocks_spec(p, state, diff, number, count) is Some,
    ensures
        run_blocks_spec(p, state, diff, number, count) matches Some(t) && t.blocks.len() == count
            && t.receipts.len() == count,
    decreases count,
{
    if count > 0 {
        let b = p.block_at_spec(number).unwrap();
        let tr = exec_block_spec(state, diff, b).unwrap();
        lemma_run_len(p, tr.0, tr.1, (number + 1) as u64, (count - 1) as nat);
    }
}

/// Within a successful run, every prefix succeeds, and at every position the
/// next block is present and executes successfully on the prefix's state.
pub proof fn lemma_run_step_ok<P: Provider>(
    p: &P,
    state: Seq<(Address, Account)>,
    diff: Seq<(Address, Account)>,
    number: u64,
    total: nat,
    k: nat,
)
    requires
        number + total < 0x10000000000000000,
        run_blocks_spec(p, state, diff, number, total) is Some,
        k < total,
    ensures
        run_blocks_spec(p, state, diff, number, k) matches Some(t)
            && p.block_at_spec((number + k) as u64) matches Some(b)
            && exec_block_spec(t.state, t.diff, b) is Some,
    decreases k,
{
    let b0 = p.block_at_spec(number).unwrap();
    let tr0 = exec_block_spec(state, diff, b0).unwrap();
    if k == 0 {
    } else {
        lemma_run_step_ok(p, tr0.0, tr0.1, (number + 1) as u64, (total - 1) as nat, (k - 1) as nat);
    }
}

/// The views of a sequence of blocks.
pub open spec fn views_of_blocks(s: Seq<RecoveredBlock>) -> Seq<BlockView> {
    Seq::new(s.len(), |i: int| s[i]@)
}

/// The views of a sequence of receipt lists.
pub open spec fn views_of_receipts(s: Seq<Vec<Receipt>>) -> Seq<Seq<Receipt>> {
    Seq::new(s.len(), |i: int| s[i]@)
}

/// Whether a batch of `k` blocks from `start` reaches one of the non-time
/// limits: the batch-closing decision on the counters that the run determines.
pub open spec fn prefix_closes<P: Provider>(
    p: &P,
    st0: Seq<(Address, Account)>,
    t: ExecutionStageThresholds,
    start: u64,
    k: nat,
) -> bool {
    run_blocks_spec(p, st0, Seq::empty(), start, k) matches Some(u) && t.closes_untimed(
        k as u64,
        u.diff.len() as u64,
        u.header_gas,
    )
}

/// Relies on `std::time::Instant::now`: an opaque reading of the monotonic
/// clock. Nothing is promised of it.
#[verifier::external_body]
fn instant_now() -> std::time::Instant {
    std::time::Instant::now()
}

#[verifier::external_type_specification]
#[verifier::external_body]
pub struct ExInstant(std::time::Instant);

/// Relies on `std::time::Instant::elapsed` and `Duration::as_millis`: the
/// whole milliseconds since the reading. Nothing is promised of the clock.
#[verifier::external_body]
fn elapsed_millis(started: &std::time::Instant) -> u128 {
    started.elapsed().as_millis()
}

/// A backfill job over a block range: a resumable state machine whose one
/// operation re-executes the next bounded batch of the remaining range and
/// advances past it. Batches are emitted in ascending order and never
/// overlap; an error abandons the batch in progress and leaves the range
/// where it was.
#[derive(Debug)]
pub struct BackfillJob<P> {
    pub executor: ExecutorFactory,
    pub provider: P,
    pub prune_modes: PruneModes,
    pub thresholds: ExecutionStageThresholds,
    pub range: BlockRange,
    pub stream_parallelism: usize,
}

/// Everything one batch step promises, relating the job before (`pre`) and
/// after (`post`) the step and its result.
///
/// On success the batch is a non-empty prefix of the remaining range: its
/// blocks are exactly the provider's blocks from the old start, executed in
/// order on the state as of the block before, its outcome carries their
/// receipts and the net diff, and the range advances just past it. No proper
/// prefix of the batch reaches a non-time limit; with no time limit
/// configured, the batch ends only at such a limit or at the end of the
/// range; a configured block limit caps the batch. On failure the range is
/// unchanged and the error names the offending block: state unavailable at
/// the base, a missing block after a clean prefix, or a failing block after a
/// clean prefix. When the base state is available and every block of the
/// range is present and executes cleanly, the step cannot fail.
pub open spec fn batch_step_post<P: Provider>(
    pre: BackfillJob<P>,
    post: BackfillJob<P>,
    out: Result<Chain, BackfillError>,
) -> bool {
    let start = pre.range.start;
    let end = pre.range.end;
    let t = pre.thresholds;
    &&& post.provider == pre.provider
    &&& post.executor == pre.executor
    &&& post.thresholds == pre.thresholds
    &&& post.prune_modes == pre.prune_modes
    &&& post.stream_parallelism == pre.stream_parallelism
    &&& post.range.end == end
    &&& (pre.provider.state_at_spec(sub1(start)) matches Some(st0) && run_blocks_spec(
        &pre.provider,
        st0,
        Seq::empty(),
        start,
        pre.range.len_spec(),
    ) is Some) ==> out is Ok
    &&& match out {
        Ok(chain) => {
            let len = chain.blocks@.len() as int;
            &&& chain.wf()
            &&& 1 <= len <= pre.range.len_spec()
            &&& chain.blocks@[0].number == start
            &&& chain.execution_outcome.first_block == start
            &&& post.range.start == start + len
            &&& pre.provider.state_at_spec(sub1(start)) matches Some(st0) && {
                &&& run_blocks_spec(&pre.provider, st0, Seq::empty(), start, len as nat)
                    matches Some(u) && {
                    &&& views_of_blocks(chain.blocks@) == u.blocks
                    &&& views_of_receipts(chain.execution_outcome.receipts@) == u.receipts
                    &&& chain.execution_outcome.bundle.accounts@ == u.diff
                }
                &&& forall|k: int| 1 <= k < len ==> !(#[trigger] prefix_closes(
                    &pre.provider,
                    st0,
                    t,
                    start,
                    k as nat,
                ))
                &&& t.max_duration_ms is None ==> (len == pre.range.len_spec() || prefix_closes(
                    &pre.provider,
                    st0,
                    t,
                    start,
                    len as nat,
                ))
            }
            &&& t.max_blocks matches Some(m) ==> (m < 1 || len <= m)
        },
        Err(e) => {
            &&& post.range == pre.range
            &&& match e {
                BackfillError::StateUnavailable(n) => n == sub1(start)
                    && pre.provider.state_at_spec(n) is None,
                BackfillError::BlockNotFound(n) => {
                    &&& start <= n <= end
                    &&& pre.provider.block_at_spec(n) is None
                    &&& pre.provider.state_at_spec(sub1(start)) matches Some(st0)
                        && run_blocks_spec(
                        &pre.provider,
                        st0,
                        Seq::empty(),
                        start,
                        (n - start) as nat,
                    ) is Some && (forall|k: int| 1 <= k <= n - start ==> !(#[trigger] prefix_closes(
                        &pre.provider,
                        st0,
                        t,
                        start,
                        k as nat,
                    )))
                },
                BackfillError::Execution(n) => {
                    &&& start <= n <= end
                    &&& pre.provider.state_at_spec(sub1(start)) matches Some(st0)
                        && run_blocks_spec(
                        &pre.provider,
                        st0,
                        Seq::empty(),
                        start,
                        (n - start) as nat,
                    ) matches Some(u) && pre.provider.block_at_spec(n) matches Some(b)
                        && exec_block_spec(u.state, u.diff, b) is None && (forall|k: int|
                        1 <= k <= n - start ==> !(#[trigger] prefix_closes(
                        &pre.provider,
                        st0,
                        t,
                        start,
                        k as nat,
                    )))
                },
            }
        },
    }
}

impl<P: Provider> BackfillJob<P> {
    /// The provider is consistent and the range has room to advance.
    pub open spec fn wf_spec(self) -> bool {
        self.provider.valid() && self.range.wf()
    }

    /// Produces the next batch of the range, or nothing once the range is
    /// exhausted; see [`batch_step_post`] for what one step promises.
    pub fn next(&mut self) -> (out: Option<Result<Chain, BackfillError>>)
        requires
            old(self).wf_spec(),
        ensures
            final(self).wf_spec(),
            old(self).range.is_empty_spec() ==> out is None && *final(self) == *old(self),
            !old(self).range.is_empty_spec() ==> (out matches Some(r) && batch_step_post(
                *old(self),
                *final(self),
                r,
            )),
    {
        if self.range.is_empty() {
            return None;
        }
        Some(self.execute_range())
    }

    /// Converts the job into its per-block mode, keeping executor, provider,
    /// remaining range and prefetch lookahead, and discarding batching state.
    pub fn into_single_blocks(self) -> (r: SingleBlockBackfillJob<P>)
        ensures
            r.executor == self.executor,
            r.provider == self.provider,
            r.range == self.range,
            r.stream_parallelism == self.stream_parallelism,
    {
        SingleBlockBackfillJob::from(self)
    }

    fn execute_range(&mut self) -> (out: Result<Chain, BackfillError>)
        requires
            old(self).wf_spec(),
            !old(self).range.is_empty_spec(),
        ensures
            final(self).wf_spec(),
            batch_step_post(*old(self), *final(self), out),
    {
        let start = self.range.start;
        let end = self.range.end;
        let ghost t = self.thresholds;
        let prev = if start == 0 {
            0
        } else {
            start - 1
        };
        let state0 = match self.provider.history_by_block_number(prev) {
            Ok(s) => s,
            Err(e) => {
                return Err(e);
            },
        };
        let ghost st0 = state0.accounts@;
        let mut executor = self.executor.executor(state0);
        let mut blocks: Vec<RecoveredBlock> = Vec::new();
        let mut results: Vec<crate::chain::BlockExecutionResult> = Vec::new();
        let mut cumulative_gas: u64 = 0;
        let started = instant_now();
        let mut keep_going = true;
        let mut cur = start;
        proof {
            assert(views_of_blocks(blocks@) =~= Seq::<BlockView>::empty());
            assert(Seq::new(results@.len(), |i: int| results@[i].receipts@) =~= Seq::<
                Seq<Receipt>,
            >::empty());
        }
        while keep_going && cur <= end
            invariant
                *self == *old(self),
                self.provider.valid(),
                start == self.range.start,
                end == self.range.end,
                t == self.thresholds,
                start <= end < 0xffffffffffffffffu64,
                start <= cur,
                cur as int <= end as int + 1,
                cur as int == start as int + blocks@.len(),
                blocks@.len() == results@.len(),
                blocks@.len() == 0 ==> keep_going && cur <= end,
                executor.wf(),
                self.provider.state_at_spec(sub1(start)) == Some(st0),
                run_blocks_spec(&self.provider, st0, Seq::empty(), start, blocks@.len() as nat)
                    matches Some(u) && u.state == executor.state_spec() && u.diff
                    == executor.diff_spec() && u.blocks == views_of_blocks(blocks@) && u.receipts
                    == Seq::new(results@.len(), |i: int| results@[i].receipts@) && u.header_gas
                    == cumulative_gas,
                forall|i: int| 0 <= i < blocks@.len() ==> (#[trigger] blocks@[i]).number == start
                    + i && blocks@[i]@.wf(),
                keep_going ==> forall|k: int| 1 <= k <= blocks@.len() ==> !(#[trigger] prefix_closes(
                    &self.provider,
                    st0,
                    t,
                    start,
                    k as nat,
                )),
                !keep_going ==> forall|k: int| 1 <= k < blocks@.len() ==> !(#[trigger] prefix_closes(
                    &self.provider,
                    st0,
                    t,
                    start,
                    k as nat,
                )),
                !keep_going && t.max_duration_ms is None ==> prefix_closes(
                    &self.provider,
                    st0,
                    t,
                    start,
                    blocks@.len() as nat,
                ),
            decreases end + 1 - cur,
        {
            let ghost len0 = blocks@.len() as nat;
            let ghost u0 = run_blocks_spec(&self.provider, st0, Seq::empty(), start, len0).unwrap();
            let block = match self.provider.recovered_block(cur) {
                Some(b) => b,
                None => {
                    proof {
                        if self.provider.state_at_spec(sub1(start)) matches Some(s0)
                            && run_blocks_spec(
                            &self.provider,
                            s0,
                            Seq::empty(),
                            start,
                            self.range.len_spec(),
                        ) is Some {
                            lemma_run_step_ok(
                                &self.provider,
                                st0,
                                Seq::empty(),
                                start,
                                self.range.len_spec(),
                                len0,
                            );
                            assert(false);
                        }
                    }
                    return Err(BackfillError::BlockNotFound(cur));
                },
            };
            cumulative_gas = if block.gas_used > u64::MAX - cumulative_gas {
                u64::MAX
            } else {
                cumulative_gas + block.gas_used
            };
            let res = match executor.execute_one(&block) {
                Ok(r) => r,
                Err(e) => {
                    proof {
                        if self.provider.state_at_spec(sub1(start)) matches Some(s0)
                            && run_blocks_spec(
                            &self.provider,
                            s0,
                            Seq::empty(),
                            start,
                            self.range.len_spec(),
                        ) is Some {
                            lemma_run_step_ok(
                                &self.provider,
                                st0,
                                Seq::empty(),
                                start,
                                self.range.len_spec(),
                                len0,
                            );
                            assert(false);
                        }
                    }
                    return Err(e);
                },
            };
            proof {
                let tr = (
                    executor.state_spec(),
                    executor.diff_spec(),
                    res.gas_used,
                    res.receipts@,
                );
                lemma_run_snoc(&self.provider, st0, Seq::empty(), start, len0, u0, block@, tr);
            }
            blocks.push(block);
            results.push(res);
            proof {
                let u1 = run_blocks_spec(
                    &self.provider,
                    st0,
                    Seq::empty(),
                    start,
                    blocks@.len() as nat,
                ).unwrap();
                assert(u1.blocks =~= views_of_blocks(blocks@));
                assert(u1.receipts =~= Seq::new(results@.len(), |i: int| results@[i].receipts@));
            }
            let elapsed_wide = elapsed_millis(&started);
            let elapsed: u64 = if elapsed_wide > u64::MAX as u128 {
                u64::MAX
            } else {
                elapsed_wide as u64
            };
            let blocks_in_batch = blocks.len() as u64;
            let diff_size = executor.size_hint() as u64;
            cur = cur + 1;
            if self.thresholds.is_end_of_batch(blocks_in_batch, diff_size, cumulative_gas, elapsed) {
                keep_going = false;
                proof {
                    if t.max_duration_ms is None {
                        t.lemma_untimed_ignores_elapsed(
                            blocks_in_batch,
                            diff_size,
                            cumulative_gas,
                            elapsed,
                        );
                    }
                }
            } else {
                proof {
                    assert(!t.closes_untimed(blocks_in_batch, diff_size, cumulative_gas));
                }
            }
        }
        proof {
            assert(blocks@.len() >= 1);
        }
        let first_number = blocks[0].number;
        let last_number = blocks[blocks.len() - 1].number;
        let ghost len = blocks@.len() as int;
        proof {
            // a configured block limit caps the batch
            if t.max_blocks is Some && t.max_blocks.unwrap() >= 1 && len > t.max_blocks.unwrap() {
                let m = t.max_blocks.unwrap() as int;
                assert(prefix_closes(&self.provider, st0, t, start, m as nat)) by {
                    lemma_run_step_ok(&self.provider, st0, Seq::empty(), start, len as nat, (m - 1) as nat);
                    let um = run_blocks_spec(&self.provider, st0, Seq::empty(), start, m as nat);
                    assert(um is Some) by {
                        if m == len {
                        } else {
                            lemma_run_step_ok(&self.provider, st0, Seq::empty(), start, len as nat, m as nat);
                        }
                    }
                }
                assert(false);
            }
        }
        self.range = BlockRange { start: last_number + 1, end };
        let bundle = executor.into_state();
        let outcome = ExecutionOutcome::from_blocks(first_number, bundle, results);
        proof {
            let u = run_blocks_spec(&self.provider, st0, Seq::empty(), start, len as nat).unwrap();
            assert(views_of_receipts(outcome.receipts@) =~= u.receipts);
        }
        let chain = Chain::new(blocks, outcome);
        Ok(chain)
    }
}

/// The shape of the batches that successive successful steps of one job emit
/// over the range `[start, end]`, from the first step to exhaustion: every
/// batch is well-formed, the first starts at `start`, each later batch begins
/// right after the previous one's last block, and the final batch ends at
/// `end`. This is exactly what [`batch_step_post`] grants step by step: a
/// batch starts at the remaining range's start, and the range advances just
/// past its last block until it is empty.
pub open spec fn batch_sequence(chains: Seq<Chain>, start: u64, end: u64) -> bool {
    &&& chains.len() > 0
    &&& forall|i: int| 0 <= i < chains.len() ==> (#[trigger] chains[i]).wf() && chains[i].blocks@.len() > 0
    &&& chains[0].blocks@[0].number == start
    &&& forall|i: int| 0 < i < chains.len() ==> (#[trigger] chains[i]).blocks@[0].number
        == chains[i - 1].blocks@.last().number + 1
    &&& chains.last().blocks@.last().number == end
}

/// The block numbers of all emitted batches, concatenated in emission order.
pub open spec fn all_numbers(chains: Seq<Chain>) -> Seq<u64>
    decreases chains.len(),
{
    if chains.len() == 0 {
        Seq::empty()
    } else {
        chains[0].numbers() + all_numbers(chains.drop_first())
    }
}

/// The numbers of the interval `[start, end]`, ascending.
pub open spec fn range_numbers(start: u64, end: u64) -> Seq<u64> {
    if start > end {
        Seq::empty()
    } else {
        Seq::new((end - start + 1) as nat, |i: int| (start + i) as u64)
    }
}

/// A well-formed batch's numbers are exactly the interval from its first to
/// its last block.
pub proof fn lemma_chain_numbers(chain: Chain)
    requires
        chain.wf(),
        chain.blocks@.len() > 0,
    ensures
        chain.numbers() == range_numbers(
            chain.blocks@[0].number,
            chain.blocks@.last().number,
        ),
        chain.blocks@.last().number == chain.blocks@[0].number + chain.blocks@.len() - 1,
{
    let first = chain.blocks@[0].number;
    let last = chain.blocks@.last().number;
    assert(chain.numbers() =~= range_numbers(first, last));
}

/// Batching a range covers every block number in it exactly once, in
/// ascending order, with no gaps and no overlaps: the emitted batches'
/// numbers, concatenated, are precisely the numbers of `[start, end]`.
pub proof fn lemma_batches_cover_range(chains: Seq<Chain>, start: u64, end: u64)
    requires
        batch_sequence(chains, start, end),
    ensures
        start <= end,
        all_numbers(chains) == range_numbers(start, end),
    decreases chains.len(),
{
    let c0 = chains[0];
    let last0 = c0.blocks@.last().number;
    lemma_chain_numbers(c0);
    if chains.len() == 1 {
        assert(all_numbers(chains.drop_first()) =~= Seq::<u64>::empty());
        assert(all_numbers(chains) =~= c0.numbers());
    } else {
        let rest = chains.drop_first();
        assert(batch_sequence(rest, (last0 + 1) as u64, end)) by {
            assert(rest[0] == chains[1]);
            assert forall|i: int| 0 < i < rest.len() implies (#[trigger] rest[i]).blocks@[0].number
                == rest[i - 1].blocks@.last().number + 1 by {
                assert(rest[i] == chains[i + 1]);
                assert(rest[i - 1] == chains[i]);
            }
            assert(rest.last() == chains.last());
        }
        lemma_batches_cover_range(rest, (last0 + 1) as u64, end);
        assert(all_numbers(chains) =~= c0.numbers() + all_numbers(rest));
        assert(c0.numbers() + all_numbers(rest) =~= range_numbers(start, end));
    }
}

/// A job whose block limit is one emits exactly `end - start + 1` batches
/// over `[start, end]`, each carrying exactly one block. The singleton shape
/// of every batch is what [`batch_step_post`] grants when `max_blocks` is
/// one; this law counts the batches.
pub proof fn lemma_unit_batches_count(chains: Seq<Chain>, start: u64, end: u64)
    requires
        batch_sequence(chains, start, end),
        forall|i: int| 0 <= i < chains.len() ==> (#[trigger] chains[i]).blocks@.len() == 1,
    ensures
        chains.len() == end - start + 1,
    decreases chains.len(),
{
    let c0 = chains[0];
    lemma_chain_numbers(c0);
    if chains.len() == 1 {
    } else {
        let last0 = c0.blocks@.last().number;
        let rest = chains.drop_first();
        assert(batch_sequence(rest, (last0 + 1) as u64, end)) by {
            assert(rest[0] == chains[1]);
            assert forall|i: int| 0 < i < rest.len() implies (#[trigger] rest[i]).blocks@[0].number
                == rest[i - 1].blocks@.last().number + 1 by {
                assert(rest[i] == chains[i + 1]);
                assert(rest[i - 1] == chains[i]);
            }
            assert(rest.last() == chains.last());
        }
        assert(forall|i: int| 0 <= i < rest.len() ==> (#[trigger] rest[i]).blocks@.len() == 1);
        lemma_unit_batches_count(rest, (last0 + 1) as u64, end);
    }
}

/// With a one-block limit, a failed batch step fails at the very first block
/// of the remaining range: a failure any later would mean a one-block prefix
/// had executed cleanly, and the block limit closes every one-block batch.
/// Together with [`lemma_unit_batch_matches_single_block`] this pins the
/// unit-batch mode to the per-block mode on failures as well as successes.
pub proof fn lemma_unit_batch_fails_at_start<P: Provider>(
    p: &P,
    st0: Seq<(Address, Account)>,
    t: ExecutionStageThresholds,
    start: u64,
    n: u64,
)
    requires
        t.max_blocks == Some(1u64),
        start <= n,
        run_blocks_spec(p, st0, Seq::empty(), start, (n - start) as nat) is Some,
        forall|k: int| 1 <= k <= n - start ==> !(#[trigger] prefix_closes(p, st0, t, start, k as nat)),
    ensures
        n == start,
{
    if n > start {
        let total = (n - start) as nat;
        if total > 1 {
            lemma_run_step_ok(p, st0, Seq::empty(), start, total, 1);
        }
        assert(run_blocks_spec(p, st0, Seq::empty(), start, 1) is Some) by {
            if total == 1 {
            } else {
                let b0 = p.block_at_spec(start).unwrap();
                let tr0 = exec_block_spec(st0, Seq::empty(), b0).unwrap();
                reveal_with_fuel(run_blocks_spec, 3);
            }
        }
        assert(prefix_closes(p, st0, t, start, 1));
        assert(false);
    }
}

/// What executing one block in isolation yields: fetch the block, pin state
/// as of the block before, execute. The error names the missing piece.
pub open spec fn single_block_spec<P: Provider>(p: &P, number: u64) -> Result<
    (BlockView, Seq<(Address, Account)>, u64, Seq<Receipt>),
    BackfillError,
> {
    match p.block_at_spec(number) {
        None => Err(BackfillError::BlockNotFound(number)),
        Some(b) => match p.state_at_spec(sub1(number)) {
            None => Err(BackfillError::StateUnavailable(sub1(number))),
            Some(st) => match exec_block_spec(st, Seq::empty(), b) {
                None => Err(BackfillError::Execution(number)),
                Some(tr) => Ok((b, tr.1, tr.2, tr.3)),
            },
        },
    }
}

/// The per-block mode and the batch mode with a one-block limit agree: for
/// any block number whose base state the provider can pin, a one-block run
/// (the content of a unit batch, per [`batch_step_post`]) succeeds exactly
/// when the single-block execution (per [`single_block_spec`]) does, and on
/// success carries the same block, the same receipts and the same net diff.
pub proof fn lemma_unit_batch_matches_single_block<P: Provider>(
    p: &P,
    st0: Seq<(Address, Account)>,
    number: u64,
)
    requires
        p.state_at_spec(sub1(number)) == Some(st0),
    ensures
        run_blocks_spec(p, st0, Seq::empty(), number, 1) is Some <==> single_block_spec(
            p,
            number,
        ) is Ok,
        single_block_spec(p, number) matches Ok(tr) ==> (run_blocks_spec(
            p,
            st0,
            Seq::empty(),
            number,
            1,
        ) matches Some(u) && u.blocks == seq![tr.0] && u.receipts == seq![tr.3] && u.diff == tr.1),
{
    reveal_with_fuel(run_blocks_spec, 2);
    match p.block_at_spec(number) {
        None => {
        },
        Some(b) => {
            match exec_block_spec(st0, Seq::empty(), b) {
                None => {
                },
                Some(tr) => {
                    let u = run_blocks_spec(p, st0, Seq::empty(), number, 1).unwrap();
                    assert(u.blocks =~= seq![b]);
                    assert(u.receipts =~= seq![tr.3]);
                },
            }
        },
    }
}

/// Whether a single-block result matches [`single_block_spec`] at `number`.
pub open spec fn single_result_matches<P: Provider>(
    p: &P,
    number: u64,
    out: Result<(RecoveredBlock, crate::chain::BlockExecutionOutput), BackfillError>,
) -> bool {
    match out {
        Ok(pair) => single_block_spec(p, number) matches Ok(tr) && pair.0@ == tr.0
            && pair.1.state.accounts@ == tr.1 && pair.1.gas_used == tr.2 && pair.1.receipts@
            == tr.3,
        Err(e) => single_block_spec(p, number) matches Err(e2) && e == e2,
    }
}

/// The per-block mode of a backfill job: each step executes exactly one block
/// against the state as of its immediate predecessor.
#[derive(Debug)]
pub struct SingleBlockBackfillJob<P> {
    pub executor: ExecutorFactory,
    pub provider: P,
    pub range: BlockRange,
    pub stream_parallelism: usize,
}

impl<P: Provider> SingleBlockBackfillJob<P> {
    /// The provider is consistent and the range has room to advance.
    pub open spec fn wf_spec(self) -> bool {
        self.provider.valid() && self.range.wf()
    }

    /// Executes the next block of the range, or nothing once the range is
    /// exhausted.
    pub fn next(&mut self) -> (out: Option<
        Result<(RecoveredBlock, crate::chain::BlockExecutionOutput), BackfillError>,
    >)
        requires
            old(self).wf_spec(),
        ensures
            final(self).wf_spec(),
            final(self).provider == old(self).provider,
            final(self).executor == old(self).executor,
            final(self).stream_parallelism == old(self).stream_parallelism,
            final(self).range.end == old(self).range.end,
            old(self).range.is_empty_spec() ==> out is None && *final(self) == *old(self),
            !old(self).range.is_empty_spec() ==> final(self).range.start == old(self).range.start
                + 1 && (out matches Some(r) && single_result_matches(
                &old(self).provider,
                old(self).range.start,
                r,
            )),
    {
        if self.range.is_empty() {
            return None;
        }
        let number = self.range.start;
        let out = self.execute_block(number);
        self.range = BlockRange { start: number + 1, end: self.range.end };
        Some(out)
    }

    /// Fetches the block, pins state as of the block before, executes it, and
    /// returns the recovered block with its execution output.
    pub fn execute_block(&self, block_number: u64) -> (out: Result<
        (RecoveredBlock, crate::chain::BlockExecutionOutput),
        BackfillError,
    >)
        requires
            self.provider.valid(),
        ensures
            single_result_matches(&self.provider, block_number, out),
    {
        let block = match self.provider.recovered_block(block_number) {
            Some(b) => b,
            None => {
                return Err(BackfillError::BlockNotFound(block_number));
            },
        };
        let prev = if block_number == 0 {
            0
        } else {
            block_number - 1
        };
        let state = match self.provider.history_by_block_number(prev) {
            Ok(s) => s,
            Err(e) => {
                return Err(e);
            },
        };
        let executor = self.executor.executor(state);
        let output = match executor.execute(&block) {
            Ok(o) => o,
            Err(e) => {
                return Err(e);
            },
        };
        Ok((block, output))
    }
}

impl<P: Provider> From<BackfillJob<P>> for SingleBlockBackfillJob<P> {
    fn from(job: BackfillJob<P>) -> (r: Self) {
        SingleBlockBackfillJob {
            executor: job.executor,
            provider: job.provider,
            range: job.range,
            stream_parallelism: job.stream_parallelism,
        }
    }
}

impl<P: Provider> vstd::std_specs::convert::FromSpecImpl<BackfillJob<P>> for SingleBlockBackfillJob<P> {
    open spec fn obeys_from_spec() -> bool {
        true
    }

    open spec fn from_spec(job: BackfillJob<P>) -> Self {
        SingleBlockBackfillJob {
            executor: job.executor,
            provider: job.provider,
            range: job.range,
            stream_parallelism: job.stream_parallelism,
        }
    }
}

/// The default prefetch lookahead of the streaming mode: overlap the fetch of
/// the next block with the execution of the current one.
pub const DEFAULT_PARALLELISM: usize = 2;

/// Builds backfill jobs over a shared executor factory and provider: the
/// entry point through which external callers request historical
/// re-execution.
#[derive(Debug)]
pub struct BackfillJobFactory<P> {
    pub executor: ExecutorFactory,
    pub provider: P,
    pub prune_modes: PruneModes,
    pub thresholds: ExecutionStageThresholds,
    pub stream_parallelism: usize,
}

impl<P: Provider> BackfillJobFactory<P> {
    /// A factory with default thresholds, retention and lookahead.
    pub fn new(executor: ExecutorFactory, provider: P) -> (r: Self)
        ensures
            r.executor == executor,
            r.provider == provider,
            r.thresholds.max_blocks is None,
            r.thresholds.max_changes is None,
            r.thresholds.max_cumulative_gas is None,
            r.thresholds.max_duration_ms is None,
            r.stream_parallelism == DEFAULT_PARALLELISM,
    {
        BackfillJobFactory {
            executor,
            provider,
            prune_modes: PruneModes {  },
            thresholds: ExecutionStageThresholds::default(),
            stream_parallelism: DEFAULT_PARALLELISM,
        }
    }

    /// Replaces the batch-closing thresholds.
    pub fn with_thresholds(self, thresholds: ExecutionStageThresholds) -> (r: Self)
        ensures
            r.thresholds == thresholds,
            r.executor == self.executor,
            r.provider == self.provider,
            r.prune_modes == self.prune_modes,
            r.stream_parallelism == self.stream_parallelism,
    {
        BackfillJobFactory { thresholds, ..self }
    }

    /// Replaces the prefetch lookahead of the streaming mode.
    pub fn with_stream_parallelism(self, stream_parallelism: usize) -> (r: Self)
        ensures
            r.stream_parallelism == stream_parallelism,
            r.executor == self.executor,
            r.provider == self.provider,
            r.prune_modes == self.prune_modes,
            r.thresholds == self.thresholds,
    {
        BackfillJobFactory { stream_parallelism, ..self }
    }

    /// Starts a backfill job for the inclusive range `[start, end]`.
    pub fn backfill_range(self, start: u64, end: u64) -> (r: BackfillJob<P>)
        requires
            start <= end as int + 1,
            end < 0xffffffffffffffffu64,
        ensures
            r.executor == self.executor,
            r.provider == self.provider,
            r.prune_modes == self.prune_modes,
            r.thresholds == self.thresholds,
            r.stream_parallelism == self.stream_parallelism,
            r.range.start == start,
            r.range.end == end,
            r.range.wf(),
    {
        let range = BlockRange::new(start, end);
        self.backfill(range)
    }

    /// Starts a backfill job for the given range.
    pub fn backfill(self, range: BlockRange) -> (r: BackfillJob<P>)
        ensures
            r.executor == self.executor,
            r.provider == self.provider,
            r.prune_modes == self.prune_modes,
            r.thresholds == self.thresholds,
            r.stream_parallelism == self.stream_parallelism,
            r.range == range,
    {
        BackfillJob {
            executor: self.executor,
            provider: self.provider,
            prune_modes: self.prune_modes,
            thresholds: self.thresholds,
            range,
            stream_parallelism: self.stream_parallelism,
        }
    }
}

} // verus!
