//! Resolving the block height at which stream consumption begins.
//!
//! A run starts in one of three modes: an explicit height, the chain's
//! latest finalized height, or the height stored in the checkpoint.
//! Resolution is split into decision steps so that a mode that needs
//! no external answer never asks for one: the caller performs a read
//! or an oracle query only when the step for it says so.

use vstd::prelude::*;

use crate::checkpoint::CheckpointError;
use crate::checkpoint::CheckpointStore;
use crate::checkpoint::read_spec;

verus! {

/// Where a run begins: supplied once at process start.
#[derive(Clone, Copy, Debug, PartialEq, Eq, Structural)]
pub enum StartOptions {
    /// Begin at exactly this height.
    FromBlock { height: u64 },
    /// Begin at the chain's current finalized height.
    FromLatest,
    /// Resume from the stored checkpoint; fall back to the finalized
    /// height when no usable checkpoint exists.
    FromInterruption,
}

/// The network a run indexes, each carrying its start options.
#[derive(Clone, Copy, Debug, PartialEq, Eq, Structural)]
pub enum ChainId {
    Mainnet(StartOptions),
    Testnet(StartOptions),
}

/// The run's configuration surface.
#[derive(Clone, Copy, Debug, PartialEq, Eq, Structural)]
pub struct Opts {
    pub chain_id: ChainId,
}

/// Why the finalized-height oracle gave no answer. Fatal whenever the
/// oracle is required: without it there is no safe starting point.
#[derive(Clone, Copy, Debug, PartialEq, Eq, Structural)]
pub enum OracleError {
    Unreachable,
    Timeout,
}

/// What start resolution needs next: either the height is already
/// known, or one external answer is required first.
#[derive(Clone, Copy, Debug, PartialEq, Eq, Structural)]
pub enum StartStep {
    /// The starting height is settled; nothing external is consulted.
    Resolved(u64),
    /// The stored checkpoint must be read first.
    NeedCheckpoint,
    /// The finalized-height oracle must be queried first.
    NeedOracle,
}

/// The start options a `ChainId` carries, whichever network it names.
pub open spec fn start_options_spec(c: ChainId) -> StartOptions {
    match c {
        ChainId::Mainnet(args) => args,
        ChainId::Testnet(args) => args,
    }
}

/// The RPC endpoint that serves the chosen network.
pub open spec fn rpc_url_spec(c: ChainId) -> Seq<char> {
    match c {
        ChainId::Mainnet(_) => "https://rpc.mainnet.near.org"@,
        ChainId::Testnet(_) => "https://rpc.testnet.near.org"@,
    }
}

impl Opts {
    /// The RPC endpoint of the network this run indexes.
    pub fn rpc_url(&self) -> (r: &str)
        ensures
            r@ == rpc_url_spec(self.chain_id),
    {
        match self.chain_id {
            ChainId::Mainnet(_) => "https://rpc.mainnet.near.org",
            ChainId::Testnet(_) => "https://rpc.testnet.near.org",
        }
    }

    /// The start options this run was given.
    pub fn start_options(&self) -> (r: &StartOptions)
        ensures
            *r == start_options_spec(self.chain_id),
    {
        match &self.chain_id {
            ChainId::Mainnet(args) => args,
            ChainId::Testnet(args) => args,
        }
    }
}

/// The first resolution step, from the mode alone. An explicit height
/// is final here: it consults neither the store nor the oracle.
pub open spec fn resolve_initial_spec(mode: StartOptions) -> StartStep {
    match mode {
        StartOptions::FromBlock { height } => StartStep::Resolved(height),
        StartOptions::FromLatest => StartStep::NeedOracle,
        StartOptions::FromInterruption => StartStep::NeedCheckpoint,
    }
}

/// Decide the first resolution step from the start mode.
pub fn resolve_initial(mode: &StartOptions) -> (r: StartStep)
    ensures
        r == resolve_initial_spec(*mode),
{
    match mode {
        StartOptions::FromBlock { height } => StartStep::Resolved(*height),
        StartOptions::FromLatest => StartStep::NeedOracle,
        StartOptions::FromInterruption => StartStep::NeedCheckpoint,
    }
}

/// The step after the checkpoint was read: a stored height resumes the
/// run; any read failure falls back to the finalized-height oracle.
pub open spec fn resolve_after_checkpoint_spec(read_result: Result<u64, CheckpointError>) -> StartStep {
    match read_result {
        Ok(h) => StartStep::Resolved(h),
        Err(_) => StartStep::NeedOracle,
    }
}

/// Decide the next step from the outcome of the checkpoint read.
///
/// The read failure is recovered, never fatal: the caller reports it
/// and queries the oracle, as `NeedOracle` directs.
pub fn resolve_after_checkpoint(read_result: Result<u64, CheckpointError>) -> (r: StartStep)
    ensures
        r == resolve_after_checkpoint_spec(read_result),
{
    match read_result {
        Ok(h) => StartStep::Resolved(h),
        Err(_) => StartStep::NeedOracle,
    }
}

/// The resolved starting height, given the durable checkpoint contents
/// and the oracle's answer (when one is required): the whole rule of
/// start resolution in one place. The only failure is the oracle's,
/// and only when the mode actually needs the oracle.
pub open spec fn resolve_spec(
    mode: StartOptions,
    store: Option<Seq<u8>>,
    oracle: Result<u64, OracleError>,
) -> Result<u64, OracleError> {
    match mode {
        StartOptions::FromBlock { height } => Ok(height),
        StartOptions::FromLatest => oracle,
        StartOptions::FromInterruption => match read_spec(store) {
            Ok(h) => Ok(h),
            Err(_) => oracle,
        },
    }
}

/// Resolve the starting height against an in-memory checkpoint store,
/// taking the oracle's answer as a value.
///
/// Returns `Ok` for every input in which the mode does not consult the
/// oracle, or in which the oracle answered; an oracle error surfaces
/// exactly when the mode is `FromLatest`, or is `FromInterruption`
/// with no readable checkpoint — and then it is fatal to startup.
pub fn resolve_start_height(
    mode: &StartOptions,
    store: &CheckpointStore,
    oracle: Result<u64, OracleError>,
) -> (r: Result<u64, OracleError>)
    ensures
        r == resolve_spec(*mode, store@, oracle),
{
    match resolve_initial(mode) {
        StartStep::Resolved(h) => Ok(h),
        StartStep::NeedOracle => oracle,
        StartStep::NeedCheckpoint => {
            match resolve_after_checkpoint(store.read()) {
                StartStep::Resolved(h) => Ok(h),
                _ => oracle,
            }
        },
    }
}

/// An explicit starting height depends on nothing but itself: whatever
/// the store holds and whatever the oracle would say, resolution
/// returns that height. This is what "no I/O is performed" means for
/// the mode at the level of values.
pub proof fn lemma_explicit_height_ignores_environment(
    h: u64,
    s1: Option<Seq<u8>>,
    s2: Option<Seq<u8>>,
    o1: Result<u64, OracleError>,
    o2: Result<u64, OracleError>,
)
    ensures
        resolve_spec(StartOptions::FromBlock { height: h }, s1, o1)
            == resolve_spec(StartOptions::FromBlock { height: h }, s2, o2),
        resolve_spec(StartOptions::FromBlock { height: h }, s1, o1)
            == Ok::<u64, OracleError>(h),
{
}

/// Resuming from the checkpoint is idempotent: as long as the store
/// holds a readable height and no message is processed in between, a
/// second resolution returns the same height as the first — whatever
/// the oracle would have answered either time.
pub proof fn lemma_from_checkpoint_idempotent(
    store: Option<Seq<u8>>,
    h: u64,
    o1: Result<u64, OracleError>,
    o2: Result<u64, OracleError>,
)
    requires
        read_spec(store) == Ok::<u64, CheckpointError>(h),
    ensures
        resolve_spec(StartOptions::FromInterruption, store, o1)
            == Ok::<u64, OracleError>(h),
        resolve_spec(StartOptions::FromInterruption, store, o1)
            == resolve_spec(StartOptions::FromInterruption, store, o2),
{
}

/// Unusable checkpoint contents never stop startup: resolution in
/// `FromInterruption` mode falls back to exactly the oracle's answer,
/// both when the value is absent and when its bytes do not denote a
/// height.
pub proof fn lemma_unreadable_checkpoint_falls_back(
    store: Option<Seq<u8>>,
    oracle: Result<u64, OracleError>,
)
    requires
        read_spec(store) is Err,
    ensures
        resolve_spec(StartOptions::FromInterruption, store, oracle) == oracle,
{
}

} // verus!

