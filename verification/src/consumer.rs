//! Driving consumption of the ordered block-message stream.
//!
//! Each message is handled in two steps — report its height and shard
//! count to the observability sink, then persist its height as the new
//! checkpoint — and handling is fully serialized: the handler window
//! admits one message at a time, so checkpoints advance in emission
//! order and never name a message whose handling has not completed.

use vstd::prelude::*;

use crate::checkpoint::CheckpointError;
use crate::checkpoint::CheckpointStore;
use crate::checkpoint::dec_digits;
use crate::checkpoint::read_spec;
use crate::resolver::OracleError;
use crate::resolver::StartOptions;
use crate::resolver::resolve_spec;

verus! {

/// How many message handlers may be in flight at once. One: handling
/// is serialized, which is what keeps checkpoint writes in emission
/// order.
pub const MAX_IN_FLIGHT_HANDLERS: usize = 1;

/// What this core reads of a stream message: its block height and how
/// many shards the block carries. The message's contents stay with the
/// external source.
#[derive(Clone, Copy, Debug, PartialEq, Eq, Structural)]
pub struct StreamMessage {
    pub height: u64,
    pub shard_count: usize,
}

/// The heights of a sequence of messages, in emission order. With
/// serialized handling these are also the checkpoint values written,
/// in the order they are written.
pub open spec fn heights_of(msgs: Seq<StreamMessage>) -> Seq<u64> {
    msgs.map_values(|m: StreamMessage| m.height)
}

/// What the observability sink receives for a sequence of messages:
/// one (height, shard count) report per message, in emission order.
pub open spec fn reports_of(msgs: Seq<StreamMessage>) -> Seq<(u64, usize)> {
    msgs.map_values(|m: StreamMessage| (m.height, m.shard_count))
}

/// `s` never steps down.
pub open spec fn non_decreasing(s: Seq<u64>) -> bool {
    forall|i: int, j: int| 0 <= i <= j < s.len() ==> s[i] <= s[j]
}

/// The consumer: owns the checkpoint store for the run and records
/// every report it makes. The report record stands for the
/// observability sink, which receives exactly these pairs in exactly
/// this order.
pub struct StreamConsumer {
    pub store: CheckpointStore,
    pub reported: Vec<(u64, usize)>,
    /// Every checkpoint value this consumer ever wrote, oldest first:
    /// the run's contribution to the durable write history.
    pub write_history: Ghost<Seq<u64>>,
}

impl StreamConsumer {
    /// A consumer about to start its run over `store`.
    pub fn new(store: CheckpointStore) -> (c: Self)
        ensures
            c.store == store,
            c.reported@ == Seq::<(u64, usize)>::empty(),
            c.write_history@ == Seq::<u64>::empty(),
    {
        StreamConsumer { store, reported: Vec::new(), write_history: Ghost(Seq::empty()) }
    }

    /// Handle one message: report its height and shard count, then
    /// persist its height as the checkpoint. Only after both steps is
    /// the message complete, and the checkpoint named by the store is
    /// always the height of the message just completed.
    pub fn handle_message(&mut self, msg: &StreamMessage)
        ensures
            final(self).reported@ == old(self).reported@.push((msg.height, msg.shard_count)),
            final(self).store@ == Some(dec_digits(msg.height as nat)),
            read_spec(final(self).store@) == Ok::<u64, CheckpointError>(msg.height),
            final(self).write_history@ == old(self).write_history@.push(msg.height),
    {
        self.reported.push((msg.height, msg.shard_count));
        self.store.write(msg.height);
        self.write_history = Ghost(self.write_history@.push(msg.height));
    }

    /// Consume a whole stream of messages in emission order, one
    /// handler at a time. Every message is reported exactly once, in
    /// order; after a non-empty stream the store reads back as the
    /// height of the last message, and an empty stream leaves the
    /// store untouched.
    pub fn run(&mut self, messages: &Vec<StreamMessage>)
        ensures
            final(self).reported@ == old(self).reported@ + reports_of(messages@),
            final(self).write_history@ == old(self).write_history@ + heights_of(messages@),
            messages@.len() == 0 ==> final(self).store@ == old(self).store@,
            messages@.len() > 0 ==> final(self).store@ == Some(
                dec_digits(messages@.last().height as nat),
            ),
            messages@.len() > 0 ==> read_spec(final(self).store@) == Ok::<u64, CheckpointError>(
                messages@.last().height,
            ),
    {
        let mut i: usize = 0;
        while i < messages.len()
            invariant
                0 <= i <= messages@.len(),
                self.reported@ == old(self).reported@ + reports_of(messages@.subrange(0, i as int)),
                self.write_history@ == old(self).write_history@ + heights_of(
                    messages@.subrange(0, i as int),
                ),
                i == 0 ==> self.store@ == old(self).store@,
                i > 0 ==> self.store@ == Some(dec_digits(messages@[i - 1].height as nat)),
                i > 0 ==> read_spec(self.store@) == Ok::<u64, CheckpointError>(
                    messages@[i - 1].height,
                ),
            decreases messages@.len() - i,
        {
            let msg = messages[i];
            self.handle_message(&msg);
            proof {
                assert(reports_of(messages@.subrange(0, i + 1)) =~= reports_of(
                    messages@.subrange(0, i as int),
                ).push((msg.height, msg.shard_count)));
                assert(heights_of(messages@.subrange(0, i + 1)) =~= heights_of(
                    messages@.subrange(0, i as int),
                ).push(msg.height));
            }
            i = i + 1;
        }
        proof {
            assert(messages@.subrange(0, i as int) =~= messages@);
        }
    }
}

/// One run never lowers the checkpoint below where the previous run
/// ended: when a restarted run's first write is at least the last
/// write before it, the full history of checkpoint writes stays
/// non-decreasing. Any number of restarts is covered by applying this
/// once per restart.
pub proof fn lemma_restart_preserves_monotonicity(prior: Seq<u64>, next: Seq<u64>)
    requires
        non_decreasing(prior),
        non_decreasing(next),
        prior.len() > 0 && next.len() > 0 ==> next[0] >= prior.last(),
    ensures
        non_decreasing(prior + next),
{
    assert forall|i: int, j: int|
        0 <= i <= j < (prior + next).len() implies (prior + next)[i] <= (prior + next)[j] by {
        if j < prior.len() {
            assert(prior[i] <= prior[j]);
        } else if i >= prior.len() {
            assert(next[i - prior.len()] <= next[j - prior.len()]);
        } else {
            assert(prior[i] <= prior[prior.len() - 1]);
            assert(next[0] <= next[j - prior.len()]);
        }
    }
}

/// All checkpoint writes of a sequence of runs, in the order they hit
/// the store.
pub open spec fn flatten_runs(runs: Seq<Seq<u64>>) -> Seq<u64>
    decreases runs.len(),
{
    if runs.len() == 0 {
        Seq::empty()
    } else {
        flatten_runs(runs.drop_last()) + runs.last()
    }
}

/// Every run that writes anything opens at or above where every
/// earlier writing run ended — which is what resuming from the stored
/// checkpoint guarantees, since the stream re-opens at the resolved
/// height and emits non-decreasing heights from there.
pub open spec fn runs_chained(runs: Seq<Seq<u64>>) -> bool {
    forall|i: int, j: int|
        0 <= i < j < runs.len() && runs[i].len() > 0 && runs[j].len() > 0
            ==> #[trigger] runs[j].first() >= #[trigger] runs[i].last()
}

/// The last value a sequence of runs wrote is the last write of its
/// last writing run.
proof fn lemma_flatten_runs_last(runs: Seq<Seq<u64>>)
    requires
        flatten_runs(runs).len() > 0,
    ensures
        exists|i: int|
            0 <= i < runs.len() && #[trigger] runs[i].len() > 0 && flatten_runs(runs).last()
                == runs[i].last(),
    decreases runs.len(),
{
    let prefix = runs.drop_last();
    if runs.last().len() > 0 {
        let i = runs.len() - 1;
        assert(runs[i].len() > 0 && flatten_runs(runs).last() == runs[i].last());
    } else {
        assert(flatten_runs(runs) =~= flatten_runs(prefix));
        lemma_flatten_runs_last(prefix);
        let i = choose|i: int|
            0 <= i < prefix.len() && #[trigger] prefix[i].len() > 0 && flatten_runs(prefix).last()
                == prefix[i].last();
        assert(runs[i] == prefix[i]);
        assert(runs[i].len() > 0 && flatten_runs(runs).last() == runs[i].last());
    }
}

/// Monotonicity across any number of serialized runs with restarts:
/// each run writes non-decreasing checkpoint values, and each restart
/// resumes at or above the last value written, so the whole history of
/// checkpoint values ever written is non-decreasing.
pub proof fn lemma_runs_monotonic(runs: Seq<Seq<u64>>)
    requires
        forall|k: int| 0 <= k < runs.len() ==> non_decreasing(#[trigger] runs[k]),
        runs_chained(runs),
    ensures
        non_decreasing(flatten_runs(runs)),
    decreases runs.len(),
{
    if runs.len() > 0 {
        let prefix = runs.drop_last();
        let last = runs.last();
        assert forall|k: int| 0 <= k < prefix.len() implies non_decreasing(#[trigger] prefix[k]) by {
            assert(prefix[k] == runs[k]);
        }
        assert forall|i: int, j: int|
            0 <= i < j < prefix.len() && prefix[i].len() > 0 && prefix[j].len() > 0 implies #[trigger] prefix[j].first()
            >= #[trigger] prefix[i].last() by {
            assert(runs[i] == prefix[i] && runs[j] == prefix[j]);
            assert(runs[j].first() >= runs[i].last());
        }
        lemma_runs_monotonic(prefix);
        assert(non_decreasing(last)) by {
            assert(runs[runs.len() - 1] == last);
        }
        if flatten_runs(prefix).len() > 0 && last.len() > 0 {
            lemma_flatten_runs_last(prefix);
            let i = choose|i: int|
                0 <= i < prefix.len() && #[trigger] prefix[i].len() > 0 && flatten_runs(
                    prefix,
                ).last() == prefix[i].last();
            assert(runs[i] == prefix[i]);
            assert(runs[runs.len() - 1].first() >= runs[i].last());
            assert(last[0] >= flatten_runs(prefix).last());
        }
        lemma_restart_preserves_monotonicity(flatten_runs(prefix), last);
        assert(flatten_runs(runs) == flatten_runs(prefix) + last);
    }
}

/// At-least-once delivery: suppose a message at height `h` was
/// reported but the checkpoint write for it failed, so the durable
/// value still reads back as some earlier height `c <= h` (a crashed
/// write leaves either the previous value intact or the new one fully
/// written, so the store always reads back as such a `c`). Then a
/// restart in `FromInterruption` mode resolves to `c`, and the stream
/// re-opened at `c` re-delivers the message at `h`: no height is ever
/// skipped because a write failed.
pub proof fn lemma_at_least_once(
    store: Option<Seq<u8>>,
    c: u64,
    h: u64,
    oracle: Result<u64, OracleError>,
)
    requires
        read_spec(store) == Ok::<u64, CheckpointError>(c),
        c <= h,
    ensures
        resolve_spec(StartOptions::FromInterruption, store, oracle) == Ok::<u64, OracleError>(c),
        resolve_spec(StartOptions::FromInterruption, store, oracle)->Ok_0 <= h,
{
}

} // verus!
