use amms::discovery::{
    apply_log, apply_logs, chunk_range, filter_factories, finish_discovery, next_from_block,
    process_chunk, DiscoveryError, LogEntry,
};
use amms::factory::{
    event_signatures, pair_created_event_signature, pool_created_event_signature,
    DiscoverableFactory, Factory, UniswapV2Factory, UniswapV3Factory,
};
use amms::storage::{DiscoverFactoriesEntry, DiscoverFactoriesStorage, StoredFactory};
use amms::types::{Address, H256};

fn addr(n: u8) -> Address {
    let mut bytes = [0u8; 20];
    bytes[19] = n;
    bytes[0] = 0xaa;
    Address { bytes }
}

fn v2_sig() -> H256 {
    DiscoverableFactory::UniswapV2Factory.discovery_event_signature()
}

fn v3_sig() -> H256 {
    DiscoverableFactory::UniswapV3Factory.discovery_event_signature()
}

fn log(a: u8, topic: H256, block: u64) -> LogEntry {
    LogEntry { address: addr(a), topic, block_number: Some(block) }
}

fn both_kinds() -> Vec<DiscoverableFactory> {
    vec![DiscoverableFactory::UniswapV2Factory, DiscoverableFactory::UniswapV3Factory]
}

fn empty_storage() -> DiscoverFactoriesStorage {
    DiscoverFactoriesStorage::load_or_default("checkpoint.json", None)
}

fn count_of(storage: &DiscoverFactoriesStorage, a: Address) -> Option<u64> {
    storage.entry().factories.iter().find(|e| e.address == a).map(|e| e.amms)
}

/// A ledger holding `logs`, answering a range query as the source's topic filter does.
fn fetch(logs: &[LogEntry], kinds: &Vec<DiscoverableFactory>, from: u64, to: u64) -> Vec<LogEntry> {
    let sigs = event_signatures(kinds);
    logs.iter()
        .filter(|l| {
            let b = l.block_number.unwrap();
            from <= b && b <= to && sigs.contains(&l.topic)
        })
        .copied()
        .collect()
}

/// Runs discovery against `logs` up to `current_block`, saving after each chunk;
/// stops after `max_chunks` chunks when given, as an interrupted process would.
fn run(
    storage: &mut DiscoverFactoriesStorage,
    saved: &mut Option<DiscoverFactoriesEntry>,
    logs: &[LogEntry],
    kinds: &Vec<DiscoverableFactory>,
    step: u64,
    current_block: u64,
    threshold: u64,
    max_chunks: Option<usize>,
) -> Option<Vec<Factory>> {
    let mut from_block = storage.get_last_block();
    let mut chunks = 0usize;
    while let Some((from, to)) = chunk_range(from_block, current_block, step) {
        if Some(chunks) == max_chunks {
            return None;
        }
        let fetched = fetch(logs, kinds, from, to);
        from_block = process_chunk(storage, kinds, &fetched, from, step).unwrap();
        *saved = Some(storage.entry().clone());
        chunks += 1;
    }
    let result = finish_discovery(storage, current_block, threshold);
    *saved = Some(storage.entry().clone());
    Some(result)
}

fn sample_ledger() -> Vec<LogEntry> {
    vec![
        log(1, v2_sig(), 5),
        log(1, v2_sig(), 40),
        log(2, v3_sig(), 99),
        log(2, v3_sig(), 100),
        log(1, v2_sig(), 150),
        log(3, v2_sig(), 199),
        log(2, v3_sig(), 200),
        log(3, v2_sig(), 230),
        log(1, v2_sig(), 249),
    ]
}

#[test]
fn signatures_are_keccak_of_event_declarations() {
    let pair = ethers::utils::keccak256("PairCreated(address,address,address,uint256)");
    let pool = ethers::utils::keccak256("PoolCreated(address,address,uint24,int24,address)");
    assert_eq!(pair_created_event_signature().bytes, pair);
    assert_eq!(pool_created_event_signature().bytes, pool);
    assert_eq!(v2_sig(), pair_created_event_signature());
    assert_eq!(v3_sig(), pool_created_event_signature());
    assert_ne!(v2_sig(), v3_sig());
}

#[test]
fn topic_maps_back_to_kind() {
    assert_eq!(DiscoverableFactory::from_topic(&v2_sig()), Some(DiscoverableFactory::UniswapV2Factory));
    assert_eq!(DiscoverableFactory::from_topic(&v3_sig()), Some(DiscoverableFactory::UniswapV3Factory));
    assert_eq!(DiscoverableFactory::from_topic(&H256 { bytes: [7u8; 32] }), None);
    let sigs = event_signatures(&vec![DiscoverableFactory::UniswapV3Factory, DiscoverableFactory::UniswapV2Factory]);
    assert_eq!(sigs, vec![v3_sig(), v2_sig()]);
}

#[test]
fn address_and_hash_equality() {
    assert!(addr(1).same(&addr(1)));
    assert!(!addr(1).same(&addr(2)));
    assert!(v2_sig().same(&v2_sig()));
    assert!(!v2_sig().same(&v3_sig()));
}

#[test]
fn factory_records_carry_kind_address_and_block() {
    let f = Factory::new(DiscoverableFactory::UniswapV3Factory, addr(4), 77);
    assert_eq!(f, Factory::UniswapV3Factory(UniswapV3Factory { address: addr(4), creation_block: 77 }));
    assert_eq!(f.kind(), DiscoverableFactory::UniswapV3Factory);
    assert_eq!(f.address(), addr(4));
    assert_eq!(f.creation_block(), 77);
}

#[test]
fn default_storage_is_empty_at_block_zero() {
    let s = DiscoverFactoriesStorage::default();
    assert_eq!(s.path(), "factories.bin");
    assert_eq!(s.get_last_block(), 0);
    assert!(s.get_factories().is_empty());
}

#[test]
fn corrupt_checkpoint_starts_empty() {
    let s = DiscoverFactoriesStorage::load_or_default("bad.json", None);
    assert_eq!(s.path(), "bad.json");
    assert_eq!(s.get_last_block(), 0);
    assert!(s.get_factories().is_empty());
}

#[test]
fn checkpoint_with_repeated_address_starts_empty() {
    let f = Factory::new(DiscoverableFactory::UniswapV2Factory, addr(1), 3);
    let entry = DiscoverFactoriesEntry {
        last_block: 500,
        factories: vec![
            StoredFactory { address: addr(1), factory: f, amms: 2 },
            StoredFactory { address: addr(1), factory: f, amms: 9 },
        ],
    };
    let s = DiscoverFactoriesStorage::load_or_default("dup.json", Some(entry));
    assert_eq!(s.get_last_block(), 0);
    assert!(s.get_factories().is_empty());
}

#[test]
fn loaded_checkpoint_is_kept() {
    let f = Factory::new(DiscoverableFactory::UniswapV2Factory, addr(1), 3);
    let entry = DiscoverFactoriesEntry {
        last_block: 500,
        factories: vec![StoredFactory { address: addr(1), factory: f, amms: 2 }],
    };
    let s = DiscoverFactoriesStorage::load_or_default("ok.json", Some(entry.clone()));
    assert_eq!(s.get_last_block(), 500);
    assert_eq!(s.entry(), &entry);
    assert_eq!(s.get_factories(), vec![(f, 2)]);
}

#[test]
fn add_and_increment() {
    let mut s = DiscoverFactoriesStorage::new("x.json", vec![], 10);
    assert!(!s.inc_amms(addr(1)));
    assert!(s.get_factories().is_empty());
    let f = Factory::new(DiscoverableFactory::UniswapV2Factory, addr(1), 3);
    s.add_factory(addr(1), f);
    assert_eq!(s.get_factories(), vec![(f, 0)]);
    assert!(s.inc_amms(addr(1)));
    assert!(s.inc_amms(addr(1)));
    assert_eq!(s.get_factories(), vec![(f, 2)]);
    let g = Factory::new(DiscoverableFactory::UniswapV3Factory, addr(1), 9);
    s.add_factory(addr(1), g);
    assert_eq!(s.get_factories(), vec![(f, 2)]);
    s.set_last_block(42);
    assert_eq!(s.get_last_block(), 42);
}

#[test]
fn count_held_at_largest_value() {
    let f = Factory::new(DiscoverableFactory::UniswapV2Factory, addr(1), 3);
    let mut s = DiscoverFactoriesStorage::new(
        "x.json",
        vec![StoredFactory { address: addr(1), factory: f, amms: u64::MAX }],
        0,
    );
    assert!(s.inc_amms(addr(1)));
    assert_eq!(s.get_factories(), vec![(f, u64::MAX)]);
}

#[test]
fn chunk_ranges() {
    assert_eq!(chunk_range(0, 250, 100), Some((0, 99)));
    assert_eq!(chunk_range(200, 250, 100), Some((200, 250)));
    assert_eq!(chunk_range(0, 250, 251), Some((0, 250)));
    assert_eq!(chunk_range(250, 250, 100), None);
    assert_eq!(chunk_range(300, 250, 100), None);
    assert_eq!(chunk_range(u64::MAX - 3, u64::MAX, u64::MAX), Some((u64::MAX - 3, u64::MAX)));
    assert_eq!(next_from_block(200, 100), 300);
    assert_eq!(next_from_block(u64::MAX - 1, 100), u64::MAX);
}

#[test]
fn first_log_registers_factory_without_counting() {
    let mut s = empty_storage();
    let kinds = both_kinds();
    apply_log(&mut s, &kinds, &log(1, v2_sig(), 12)).unwrap();
    assert_eq!(
        s.get_factories(),
        vec![(Factory::UniswapV2Factory(UniswapV2Factory { address: addr(1), creation_block: 12 }), 0)]
    );
    apply_log(&mut s, &kinds, &log(1, v2_sig(), 13)).unwrap();
    assert_eq!(count_of(&s, addr(1)), Some(1));
}

#[test]
fn unknown_signature_is_refused() {
    let mut s = empty_storage();
    let kinds = both_kinds();
    let bad = LogEntry { address: addr(1), topic: H256 { bytes: [1u8; 32] }, block_number: Some(1) };
    assert_eq!(apply_log(&mut s, &kinds, &bad), Err(DiscoveryError::UnknownSignature));
    assert!(s.get_factories().is_empty());
}

#[test]
fn unrequested_kind_changes_no_count() {
    let mut s = empty_storage();
    let only_v2 = vec![DiscoverableFactory::UniswapV2Factory];
    apply_log(&mut s, &only_v2, &log(1, v2_sig(), 1)).unwrap();
    assert_eq!(apply_log(&mut s, &only_v2, &log(1, v3_sig(), 2)), Err(DiscoveryError::UnknownSignature));
    assert_eq!(count_of(&s, addr(1)), Some(0));
    let ledger = vec![log(1, v2_sig(), 1), log(1, v3_sig(), 2), log(1, v3_sig(), 3), log(1, v2_sig(), 4)];
    let fetched = fetch(&ledger, &only_v2, 0, 10);
    assert_eq!(fetched.len(), 2);
    let mut t = empty_storage();
    apply_logs(&mut t, &only_v2, &fetched).unwrap();
    assert_eq!(count_of(&t, addr(1)), Some(1));
}

#[test]
fn log_without_block_is_malformed() {
    let mut s = empty_storage();
    let kinds = both_kinds();
    let bad = LogEntry { address: addr(1), topic: v2_sig(), block_number: None };
    assert_eq!(apply_log(&mut s, &kinds, &bad), Err(DiscoveryError::MalformedLog));
    assert!(s.get_factories().is_empty());
    apply_log(&mut s, &kinds, &log(1, v2_sig(), 3)).unwrap();
    assert_eq!(apply_log(&mut s, &kinds, &bad), Err(DiscoveryError::MalformedLog));
    assert_eq!(count_of(&s, addr(1)), Some(0));
    apply_log(&mut s, &kinds, &log(1, v2_sig(), 4)).unwrap();
    assert_eq!(count_of(&s, addr(1)), Some(1));
}

#[test]
fn registered_factory_counts_each_later_child_once() {
    let mut s = empty_storage();
    let f = Factory::new(DiscoverableFactory::UniswapV3Factory, addr(9), 21);
    s.add_factory(addr(9), f);
    for _ in 0..5 {
        assert!(s.inc_amms(addr(9)));
    }
    assert_eq!(s.get_factories(), vec![(f, 5)]);
}

#[test]
fn failing_chunk_keeps_earlier_logs_and_block() {
    let mut s = DiscoverFactoriesStorage::new("x.json", vec![], 100);
    let kinds = both_kinds();
    let logs = vec![
        log(1, v2_sig(), 101),
        log(1, v2_sig(), 102),
        LogEntry { address: addr(1), topic: v2_sig(), block_number: None },
        log(1, v2_sig(), 103),
    ];
    assert_eq!(process_chunk(&mut s, &kinds, &logs, 100, 50), Err(DiscoveryError::MalformedLog));
    assert_eq!(s.get_last_block(), 100);
    assert_eq!(count_of(&s, addr(1)), Some(1));
}

#[test]
fn fold_stops_at_first_failure() {
    let mut s = empty_storage();
    let kinds = both_kinds();
    let logs = vec![
        log(1, v2_sig(), 1),
        LogEntry { address: addr(2), topic: v3_sig(), block_number: None },
        log(3, v2_sig(), 3),
    ];
    assert_eq!(apply_logs(&mut s, &kinds, &logs), Err(DiscoveryError::MalformedLog));
    assert_eq!(count_of(&s, addr(1)), Some(0));
    assert_eq!(count_of(&s, addr(3)), None);
}

#[test]
fn counts_match_logs() {
    let mut s = empty_storage();
    let kinds = both_kinds();
    apply_logs(&mut s, &kinds, &sample_ledger()).unwrap();
    assert_eq!(count_of(&s, addr(1)), Some(3));
    assert_eq!(count_of(&s, addr(2)), Some(2));
    assert_eq!(count_of(&s, addr(3)), Some(1));
    assert_eq!(count_of(&s, addr(4)), None);
}

#[test]
fn threshold_keeps_factories_at_or_above() {
    let f1 = Factory::new(DiscoverableFactory::UniswapV2Factory, addr(1), 1);
    let f2 = Factory::new(DiscoverableFactory::UniswapV3Factory, addr(2), 2);
    let f3 = Factory::new(DiscoverableFactory::UniswapV2Factory, addr(3), 3);
    let s = DiscoverFactoriesStorage::new(
        "t.json",
        vec![
            StoredFactory { address: addr(1), factory: f1, amms: 3 },
            StoredFactory { address: addr(2), factory: f2, amms: 10 },
            StoredFactory { address: addr(3), factory: f3, amms: 10 },
        ],
        0,
    );
    let r = filter_factories(&s, 10);
    assert_eq!(r.len(), 2);
    assert!(r.contains(&f2));
    assert!(r.contains(&f3));
    assert!(!r.contains(&f1));
}

#[test]
fn chunking_gives_same_checkpoint() {
    let kinds = both_kinds();
    let ledger = sample_ledger();
    let mut a = empty_storage();
    let mut saved_a = None;
    let ra = run(&mut a, &mut saved_a, &ledger, &kinds, 100, 250, 0, None).unwrap();
    let mut b = empty_storage();
    let mut saved_b = None;
    let rb = run(&mut b, &mut saved_b, &ledger, &kinds, 251, 250, 0, None).unwrap();
    assert_eq!(a.entry(), b.entry());
    assert_eq!(saved_a, saved_b);
    assert_eq!(ra, rb);
    assert_eq!(a.get_last_block(), 250);
    assert_eq!(count_of(&a, addr(1)), Some(3));
}

#[test]
fn second_run_changes_nothing() {
    let kinds = both_kinds();
    let ledger = sample_ledger();
    let mut s = empty_storage();
    let mut saved = None;
    let first = run(&mut s, &mut saved, &ledger, &kinds, 100, 250, 2, None).unwrap();
    let before = s.entry().clone();
    let mut again = DiscoverFactoriesStorage::load_or_default("checkpoint.json", saved.clone());
    let second = run(&mut again, &mut saved, &ledger, &kinds, 100, 250, 2, None).unwrap();
    assert_eq!(first, second);
    assert_eq!(again.entry(), &before);
    assert_eq!(first.len(), 2);
}

#[test]
fn interrupted_run_resumes_at_next_chunk() {
    let kinds = both_kinds();
    let ledger = sample_ledger();
    let mut whole = empty_storage();
    let mut saved_whole = None;
    run(&mut whole, &mut saved_whole, &ledger, &kinds, 100, 250, 0, None).unwrap();

    let mut first = empty_storage();
    let mut saved = None;
    assert!(run(&mut first, &mut saved, &ledger, &kinds, 100, 250, 0, Some(1)).is_none());
    assert_eq!(saved.as_ref().unwrap().last_block, 100);
    let mut resumed = DiscoverFactoriesStorage::load_or_default("checkpoint.json", saved.clone());
    assert_eq!(chunk_range(resumed.get_last_block(), 250, 100), Some((100, 199)));
    run(&mut resumed, &mut saved, &ledger, &kinds, 100, 250, 0, None).unwrap();
    assert_eq!(resumed.entry(), whole.entry());
}

#[test]
fn no_kinds_reaches_head_with_nothing_found() {
    let kinds: Vec<DiscoverableFactory> = vec![];
    let mut s = empty_storage();
    let mut saved = None;
    let r = run(&mut s, &mut saved, &sample_ledger(), &kinds, 100, 250, 0, None).unwrap();
    assert!(r.is_empty());
    assert_eq!(s.get_last_block(), 250);
    assert!(s.get_factories().is_empty());
}

#[test]
fn rerun_from_head_fetches_nothing() {
    assert_eq!(chunk_range(250, 250, 1), None);
    let mut s = DiscoverFactoriesStorage::new("x.json", vec![], 250);
    let r = finish_discovery(&mut s, 250, 0);
    assert!(r.is_empty());
    assert_eq!(s.get_last_block(), 250);
}
