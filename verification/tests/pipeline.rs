use lake_indexer::checkpoint::CheckpointError;
use lake_indexer::checkpoint::CheckpointStore;
use lake_indexer::checkpoint::encode_checkpoint;
use lake_indexer::checkpoint::parse_checkpoint;
use lake_indexer::consumer::MAX_IN_FLIGHT_HANDLERS;
use lake_indexer::consumer::StreamConsumer;
use lake_indexer::consumer::StreamMessage;
use lake_indexer::resolver::ChainId;
use lake_indexer::resolver::Opts;
use lake_indexer::resolver::OracleError;
use lake_indexer::resolver::StartOptions;
use lake_indexer::resolver::StartStep;
use lake_indexer::resolver::resolve_after_checkpoint;
use lake_indexer::resolver::resolve_initial;
use lake_indexer::resolver::resolve_start_height;

#[test]
fn parse_plain_decimal() {
    assert_eq!(parse_checkpoint(&b"102".to_vec()), Ok(102));
    assert_eq!(parse_checkpoint(&b"0".to_vec()), Ok(0));
    assert_eq!(parse_checkpoint(&b"007".to_vec()), Ok(7));
    assert_eq!(
        parse_checkpoint(&b"18446744073709551615".to_vec()),
        Ok(u64::MAX)
    );
}

#[test]
fn parse_rejects_non_numeric() {
    assert_eq!(
        parse_checkpoint(&b"".to_vec()),
        Err(CheckpointError::Corrupt)
    );
    assert_eq!(
        parse_checkpoint(&b"12a3".to_vec()),
        Err(CheckpointError::Corrupt)
    );
    assert_eq!(
        parse_checkpoint(&b"-5".to_vec()),
        Err(CheckpointError::Corrupt)
    );
    assert_eq!(
        parse_checkpoint(&b" 102".to_vec()),
        Err(CheckpointError::Corrupt)
    );
    assert_eq!(
        parse_checkpoint(&b"not a number".to_vec()),
        Err(CheckpointError::Corrupt)
    );
}

#[test]
fn parse_rejects_overflow() {
    // One past u64::MAX, and something far larger.
    assert_eq!(
        parse_checkpoint(&b"18446744073709551616".to_vec()),
        Err(CheckpointError::Corrupt)
    );
    assert_eq!(
        parse_checkpoint(&b"99999999999999999999999999".to_vec()),
        Err(CheckpointError::Corrupt)
    );
}

#[test]
fn encode_is_canonical_decimal() {
    assert_eq!(encode_checkpoint(0), b"0".to_vec());
    assert_eq!(encode_checkpoint(7), b"7".to_vec());
    assert_eq!(encode_checkpoint(102), b"102".to_vec());
    assert_eq!(encode_checkpoint(u64::MAX), b"18446744073709551615".to_vec());
}

#[test]
fn encode_parse_round_trip() {
    for h in [0u64, 1, 9, 10, 99, 100, 102, 12345678901234567890, u64::MAX] {
        assert_eq!(parse_checkpoint(&encode_checkpoint(h)), Ok(h));
    }
}

#[test]
fn store_starts_empty() {
    let store = CheckpointStore::new();
    assert_eq!(store.read(), Err(CheckpointError::NotFound));
}

#[test]
fn store_write_then_read() {
    let mut store = CheckpointStore::new();
    store.write(42);
    assert_eq!(store.read(), Ok(42));
    store.write(43);
    assert_eq!(store.read(), Ok(43));
}

#[test]
fn store_reads_corrupt_bytes_as_corrupt() {
    let store = CheckpointStore::from_bytes(b"garbage".to_vec());
    assert_eq!(store.read(), Err(CheckpointError::Corrupt));
}

#[test]
fn rpc_url_follows_network() {
    let mainnet = Opts {
        chain_id: ChainId::Mainnet(StartOptions::FromLatest),
    };
    let testnet = Opts {
        chain_id: ChainId::Testnet(StartOptions::FromLatest),
    };
    assert_eq!(mainnet.rpc_url(), "https://rpc.mainnet.near.org");
    assert_eq!(testnet.rpc_url(), "https://rpc.testnet.near.org");
}

#[test]
fn start_options_come_from_either_network() {
    let mainnet = Opts {
        chain_id: ChainId::Mainnet(StartOptions::FromBlock { height: 5 }),
    };
    let testnet = Opts {
        chain_id: ChainId::Testnet(StartOptions::FromInterruption),
    };
    assert_eq!(
        *mainnet.start_options(),
        StartOptions::FromBlock { height: 5 }
    );
    assert_eq!(*testnet.start_options(), StartOptions::FromInterruption);
}

#[test]
fn explicit_height_resolves_without_any_lookup() {
    // The mode settles the height in the very first step: no
    // checkpoint read, no oracle query is asked for.
    assert_eq!(
        resolve_initial(&StartOptions::FromBlock { height: 100 }),
        StartStep::Resolved(100)
    );
    // And whatever the store holds or the oracle would say, the
    // resolved height is the explicit one.
    let store = CheckpointStore::from_bytes(b"999".to_vec());
    assert_eq!(
        resolve_start_height(
            &StartOptions::FromBlock { height: 100 },
            &store,
            Err(OracleError::Unreachable)
        ),
        Ok(100)
    );
}

#[test]
fn latest_resolves_to_oracle_answer() {
    assert_eq!(resolve_initial(&StartOptions::FromLatest), StartStep::NeedOracle);
    let store = CheckpointStore::new();
    assert_eq!(
        resolve_start_height(&StartOptions::FromLatest, &store, Ok(777)),
        Ok(777)
    );
}

#[test]
fn oracle_failure_is_fatal_when_required() {
    let store = CheckpointStore::new();
    assert_eq!(
        resolve_start_height(&StartOptions::FromLatest, &store, Err(OracleError::Unreachable)),
        Err(OracleError::Unreachable)
    );
    // FromInterruption with no checkpoint needs the oracle too.
    assert_eq!(
        resolve_start_height(
            &StartOptions::FromInterruption,
            &store,
            Err(OracleError::Timeout)
        ),
        Err(OracleError::Timeout)
    );
}

#[test]
fn from_interruption_prefers_stored_checkpoint() {
    // The stored value wins over the oracle's answer.
    let mut store = CheckpointStore::new();
    store.write(102);
    assert_eq!(
        resolve_start_height(&StartOptions::FromInterruption, &store, Ok(999)),
        Ok(102)
    );
}

#[test]
fn from_interruption_is_idempotent() {
    // Two resolutions with no processing in between: same height both
    // times, even though the oracle's answer changed in between.
    let store = CheckpointStore::from_bytes(b"102".to_vec());
    let first = resolve_start_height(&StartOptions::FromInterruption, &store, Ok(500));
    let second = resolve_start_height(&StartOptions::FromInterruption, &store, Ok(600));
    assert_eq!(first, Ok(102));
    assert_eq!(second, first);
}

#[test]
fn missing_checkpoint_falls_back_to_latest() {
    assert_eq!(
        resolve_after_checkpoint(Err(CheckpointError::NotFound)),
        StartStep::NeedOracle
    );
    let store = CheckpointStore::new();
    assert_eq!(
        resolve_start_height(&StartOptions::FromInterruption, &store, Ok(321)),
        Ok(321)
    );
}

#[test]
fn corrupt_checkpoint_falls_back_to_latest() {
    // Non-numeric durable content is recovered, not fatal: resolution
    // returns the oracle's answer.
    assert_eq!(
        resolve_after_checkpoint(Err(CheckpointError::Corrupt)),
        StartStep::NeedOracle
    );
    let store = CheckpointStore::from_bytes(b"not a number".to_vec());
    assert_eq!(
        resolve_start_height(&StartOptions::FromInterruption, &store, Ok(321)),
        Ok(321)
    );
}

#[test]
fn handlers_are_serialized() {
    assert_eq!(MAX_IN_FLIGHT_HANDLERS, 1);
}

#[test]
fn handle_message_reports_then_checkpoints() {
    let mut consumer = StreamConsumer::new(CheckpointStore::new());
    consumer.handle_message(&StreamMessage { height: 7, shard_count: 2 });
    assert_eq!(consumer.reported, vec![(7, 2)]);
    assert_eq!(consumer.store.read(), Ok(7));
}

#[test]
fn run_reports_in_order_and_checkpoints_last_height() {
    // End to end: explicit start at 100, stream emits 100, 101, 102.
    let start = resolve_start_height(
        &StartOptions::FromBlock { height: 100 },
        &CheckpointStore::new(),
        Err(OracleError::Unreachable),
    );
    assert_eq!(start, Ok(100));

    let messages = vec![
        StreamMessage { height: 100, shard_count: 4 },
        StreamMessage { height: 101, shard_count: 4 },
        StreamMessage { height: 102, shard_count: 5 },
    ];
    let mut consumer = StreamConsumer::new(CheckpointStore::new());
    consumer.run(&messages);

    // One report per height, in emission order.
    assert_eq!(consumer.reported, vec![(100, 4), (101, 4), (102, 5)]);
    // The durable checkpoint holds the last handled height.
    assert_eq!(consumer.store.read(), Ok(102));
}

#[test]
fn run_with_no_messages_leaves_store_alone() {
    let mut consumer = StreamConsumer::new(CheckpointStore::from_bytes(b"55".to_vec()));
    consumer.run(&Vec::new());
    assert_eq!(consumer.reported, Vec::<(u64, usize)>::new());
    assert_eq!(consumer.store.read(), Ok(55));
}

#[test]
fn restart_resumes_from_stored_height() {
    // A run ends with the checkpoint at 102; the restarted process in
    // FromInterruption mode resolves to 102, so the stream re-opens
    // there (the resolved height is inclusive: that block is
    // re-delivered rather than skipped).
    let mut consumer = StreamConsumer::new(CheckpointStore::new());
    consumer.run(&vec![
        StreamMessage { height: 101, shard_count: 4 },
        StreamMessage { height: 102, shard_count: 4 },
    ]);
    let resolved = resolve_start_height(
        &StartOptions::FromInterruption,
        &consumer.store,
        Ok(99999),
    );
    assert_eq!(resolved, Ok(102));
}

#[test]
fn failed_write_redelivers_message() {
    // The report for height 102 succeeded but the checkpoint write
    // failed, so the store still holds 101. Restarting resolves to
    // 101 <= 102: the stream re-opened there re-delivers 102, and no
    // height is skipped.
    let mut store = CheckpointStore::new();
    store.write(101);
    let resolved = resolve_start_height(&StartOptions::FromInterruption, &store, Ok(99999));
    assert_eq!(resolved, Ok(101));
    assert!(101 <= 102);
}

#[test]
fn checkpoints_never_decrease_across_restarts() {
    // Two serialized runs with a restart in between; the second run
    // re-opens at the resolved (stored) height. The full history of
    // written checkpoint values never steps down.
    let mut history: Vec<u64> = Vec::new();

    let mut consumer = StreamConsumer::new(CheckpointStore::new());
    let first_run = vec![
        StreamMessage { height: 100, shard_count: 4 },
        StreamMessage { height: 101, shard_count: 4 },
    ];
    consumer.run(&first_run);
    for m in &first_run {
        history.push(m.height);
    }

    let resumed = resolve_start_height(
        &StartOptions::FromInterruption,
        &consumer.store,
        Err(OracleError::Unreachable),
    );
    assert_eq!(resumed, Ok(101));

    let second_run = vec![
        StreamMessage { height: 101, shard_count: 4 },
        StreamMessage { height: 102, shard_count: 6 },
        StreamMessage { height: 104, shard_count: 6 },
    ];
    consumer.run(&second_run);
    for m in &second_run {
        history.push(m.height);
    }

    assert_eq!(consumer.store.read(), Ok(104));
    for w in history.windows(2) {
        assert!(w[0] <= w[1]);
    }
}
