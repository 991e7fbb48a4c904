//! The discovery loop's decisions: which block range to fetch next, how fetched
//! logs are folded into the checkpoint, where the scan resumes, and which
//! factories are reported. Fetching logs and saving the checkpoint are left to
//! the caller, which runs the loop.

use vstd::prelude::*;

use crate::factory::{
    factory_record, kind_of_topic, signature_bytes, DiscoverableFactory, Factory,
};
use crate::storage::{
    bump, incremented, known, with_factory, CheckpointView, DiscoverFactoriesStorage, StoredFactory,
};
use crate::types::{Address, H256};

verus! {

/// A log entry returned by the ledger for a discovery event signature.
#[derive(Clone, Copy, Debug, PartialEq, Eq)]
pub struct LogEntry {
    /// The contract that emitted the event.
    pub address: Address,
    /// The first indexed topic: the event signature.
    pub topic: H256,
    /// The block the event was included in; absent only in a malformed log.
    pub block_number: Option<u64>,
}

/// Why folding a log into the checkpoint failed.
#[derive(Clone, Copy, Debug, PartialEq, Eq, Structural)]
pub enum DiscoveryError {
    /// A log that registers a new factory carries no block number.
    MalformedLog,
    /// A log's topic is the signature of none of the requested kinds.
    UnknownSignature,
}

/// The requested kind whose discovery event signature is `topic`, if any.
pub open spec fn requested_kind(kinds: Seq<DiscoverableFactory>, topic: H256) -> Option<
    DiscoverableFactory,
> {
    match kind_of_topic(topic) {
        Some(k) => if kinds.contains(k) {
            Some(k)
        } else {
            None
        },
        None => None,
    }
}

/// The factories after one log. A log whose topic is the signature of no
/// requested kind, or that carries no block number, is refused. Otherwise a
/// child of a known factory is counted, and the first log of an unknown address
/// registers a factory there with no children.
pub open spec fn apply_log_spec(
    fs: Seq<StoredFactory>,
    kinds: Seq<DiscoverableFactory>,
    log: LogEntry,
) -> Result<Seq<StoredFactory>, DiscoveryError> {
    match requested_kind(kinds, log.topic) {
        None => Err(DiscoveryError::UnknownSignature),
        Some(k) => match log.block_number {
            None => Err(DiscoveryError::MalformedLog),
            Some(b) => if known(fs, log.address) {
                Ok(incremented(fs, log.address))
            } else {
                Ok(with_factory(fs, log.address, factory_record(k, log.address, b)))
            },
        },
    }
}

/// The factories after the logs, in order; the first failure stops the fold.
pub open spec fn apply_logs_spec(
    fs: Seq<StoredFactory>,
    kinds: Seq<DiscoverableFactory>,
    logs: Seq<LogEntry>,
) -> Result<Seq<StoredFactory>, DiscoveryError>
    decreases logs.len(),
{
    if logs.len() == 0 {
        Ok(fs)
    } else {
        match apply_logs_spec(fs, kinds, logs.drop_last()) {
            Ok(f) => apply_log_spec(f, kinds, logs.last()),
            Err(e) => Err(e),
        }
    }
}

/// The block range `[from, to]` to fetch next, while the scan is behind `current_block`.
pub open spec fn chunk_spec(from_block: u64, current_block: u64, step: u64) -> Option<(u64, u64)> {
    if from_block < current_block {
        if from_block + step - 1 > current_block {
            Some((from_block, current_block))
        } else {
            Some((from_block, (from_block + step - 1) as u64))
        }
    } else {
        None
    }
}

/// Where the scan resumes after a chunk that began at `from_block`.
pub open spec fn next_from_spec(from_block: u64, step: u64) -> u64 {
    if from_block + step > u64::MAX {
        u64::MAX
    } else {
        (from_block + step) as u64
    }
}

/// The records of the factories with at least `threshold` children, in storage order.
pub open spec fn selected(fs: Seq<StoredFactory>, threshold: u64) -> Seq<Factory>
    decreases fs.len(),
{
    if fs.len() == 0 {
        Seq::empty()
    } else if fs.last().amms >= threshold {
        selected(fs.drop_last(), threshold).push(fs.last().factory)
    } else {
        selected(fs.drop_last(), threshold)
    }
}

/// Whether `kind` is among `kinds`.
fn contains_kind(kinds: &Vec<DiscoverableFactory>, kind: DiscoverableFactory) -> (r: bool)
    ensures
        r == kinds@.contains(kind),
{
    let mut i: usize = 0;
    while i < kinds.len()
        invariant
            0 <= i <= kinds@.len(),
            forall|j: int| 0 <= j < i ==> kinds@[j] != kind,
        decreases kinds@.len() - i,
    {
        if kinds[i] == kind {
            return true;
        }
        i = i + 1;
    }
    false
}

/// The next block range to fetch: from `from_block` up to `step` blocks, never
/// past `current_block`; `None` once the scan has reached `current_block`.
pub fn chunk_range(from_block: u64, current_block: u64, step: u64) -> (r: Option<(u64, u64)>)
    requires
        step >= 1,
    ensures
        r == chunk_spec(from_block, current_block, step),
{
    if from_block < current_block {
        if step - 1 > current_block - from_block {
            Some((from_block, current_block))
        } else {
            Some((from_block, from_block + (step - 1)))
        }
    } else {
        None
    }
}

/// Where the scan resumes after a chunk that began at `from_block`: `step`
/// blocks further on, held at the largest block number.
pub fn next_from_block(from_block: u64, step: u64) -> (r: u64)
    ensures
        r == next_from_spec(from_block, step),
{
    if step > u64::MAX - from_block {
        u64::MAX
    } else {
        from_block + step
    }
}

/// Folds one log into the checkpoint. A log whose topic is the signature of no
/// requested kind fails with `UnknownSignature`, and one without a block number
/// fails with `MalformedLog`. Otherwise a log from a known factory counts a
/// child, and any other registers a factory of the topic's kind at the log's
/// address, created at the log's block. On failure the checkpoint is unchanged.
pub fn apply_log(
    storage: &mut DiscoverFactoriesStorage,
    kinds: &Vec<DiscoverableFactory>,
    log: &LogEntry,
) -> (r: Result<(), DiscoveryError>)
    requires
        old(storage).wf(),
    ensures
        final(storage).wf(),
        match apply_log_spec(old(storage)@.factories, kinds@, *log) {
            Ok(f) => r is Ok && final(storage)@ == (CheckpointView {
                factories: f,
                ..old(storage)@
            }),
            Err(e) => r == Err::<(), DiscoveryError>(e) && final(storage)@ == old(storage)@,
        },
{
    let kind = match DiscoverableFactory::from_topic(&log.topic) {
        Some(k) => {
            if !contains_kind(kinds, k) {
                return Err(DiscoveryError::UnknownSignature);
            }
            k
        },
        None => {
            return Err(DiscoveryError::UnknownSignature);
        },
    };
    let block = match log.block_number {
        Some(b) => b,
        None => {
            return Err(DiscoveryError::MalformedLog);
        },
    };
    let ghost before = storage@;
    if storage.inc_amms(log.address) {
        return Ok(());
    }
    assert(storage@.factories =~= before.factories);
    let factory = Factory::new(kind, log.address, block);
    storage.add_factory(log.address, factory);
    Ok(())
}

/// Folds the logs into the checkpoint in order, stopping at the first failure.
/// Only the factories change; on failure the logs before the failing one stay
/// applied and the failing one is not.
pub fn apply_logs(
    storage: &mut DiscoverFactoriesStorage,
    kinds: &Vec<DiscoverableFactory>,
    logs: &Vec<LogEntry>,
) -> (r: Result<(), DiscoveryError>)
    requires
        old(storage).wf(),
    ensures
        final(storage).wf(),
        final(storage)@.path == old(storage)@.path,
        final(storage)@.last_block == old(storage)@.last_block,
        match apply_logs_spec(old(storage)@.factories, kinds@, logs@) {
            Ok(f) => r is Ok && final(storage)@.factories == f,
            Err(e) => r == Err::<(), DiscoveryError>(e) && exists|i: int|
                0 <= i < logs@.len() && #[trigger] apply_logs_spec(
                    old(storage)@.factories,
                    kinds@,
                    logs@.subrange(0, i),
                ) == Ok::<Seq<StoredFactory>, DiscoveryError>(final(storage)@.factories)
                    && apply_log_spec(final(storage)@.factories, kinds@, logs@[i]) == Err::<
                    Seq<StoredFactory>,
                    DiscoveryError,
                >(e),
        },
{
    let ghost f0 = storage@.factories;
    let mut i: usize = 0;
    while i < logs.len()
        invariant
            0 <= i <= logs@.len(),
            storage.wf(),
            storage@.path == old(storage)@.path,
            storage@.last_block == old(storage)@.last_block,
            f0 == old(storage)@.factories,
            apply_logs_spec(f0, kinds@, logs@.subrange(0, i as int)) == Ok::<
                Seq<StoredFactory>,
                DiscoveryError,
            >(storage@.factories),
        decreases logs@.len() - i,
    {
        let ghost prefix = logs@.subrange(0, i as int + 1);
        assert(prefix.drop_last() =~= logs@.subrange(0, i as int));
        assert(prefix.last() == logs@[i as int]);
        let step = apply_log(storage, kinds, &logs[i]);
        match step {
            Err(e) => {
                proof {
                    lemma_failure_persists(f0, kinds@, prefix, logs@);
                    assert(apply_logs_spec(f0, kinds@, logs@.subrange(0, i as int)) == Ok::<
                        Seq<StoredFactory>,
                        DiscoveryError,
                    >(storage@.factories));
                }
                return Err(e);
            },
            Ok(()) => {},
        }
        i = i + 1;
    }
    assert(logs@.subrange(0, logs@.len() as int) =~= logs@);
    Ok(())
}

/// Folds one fetched chunk into the checkpoint: the chunk's logs, then the
/// block the scan resumes from, which is returned. The caller saves the
/// checkpoint after each chunk that succeeds, and abandons the run on failure.
pub fn process_chunk(
    storage: &mut DiscoverFactoriesStorage,
    kinds: &Vec<DiscoverableFactory>,
    logs: &Vec<LogEntry>,
    from_block: u64,
    step: u64,
) -> (r: Result<u64, DiscoveryError>)
    requires
        old(storage).wf(),
    ensures
        final(storage).wf(),
        final(storage)@.path == old(storage)@.path,
        match apply_logs_spec(old(storage)@.factories, kinds@, logs@) {
            Ok(f) => r == Ok::<u64, DiscoveryError>(next_from_spec(from_block, step))
                && final(storage)@.factories == f && final(storage)@.last_block == next_from_spec(
                from_block,
                step,
            ),
            Err(e) => r == Err::<u64, DiscoveryError>(e) && final(storage)@.last_block == old(
                storage,
            )@.last_block && exists|i: int|
                0 <= i < logs@.len() && #[trigger] apply_logs_spec(
                    old(storage)@.factories,
                    kinds@,
                    logs@.subrange(0, i),
                ) == Ok::<Seq<StoredFactory>, DiscoveryError>(final(storage)@.factories)
                    && apply_log_spec(final(storage)@.factories, kinds@, logs@[i]) == Err::<
                    Seq<StoredFactory>,
                    DiscoveryError,
                >(e),
        },
{
    match apply_logs(storage, kinds, logs) {
        Ok(()) => {
            let next = next_from_block(from_block, step);
            storage.set_last_block(next);
            Ok(next)
        },
        Err(e) => Err(e),
    }
}

/// The records of the factories with at least `threshold` children.
pub fn filter_factories(storage: &DiscoverFactoriesStorage, threshold: u64) -> (r: Vec<Factory>)
    ensures
        r@ == selected(storage@.factories, threshold),
{
    let all = storage.get_factories();
    let ghost fs = storage@.factories;
    let mut r: Vec<Factory> = Vec::new();
    let mut i: usize = 0;
    while i < all.len()
        invariant
            0 <= i <= all@.len(),
            all@.len() == fs.len(),
            forall|j: int| 0 <= j < all@.len() ==> #[trigger] all@[j] == (fs[j].factory, fs[j].amms),
            r@ == selected(fs.subrange(0, i as int), threshold),
        decreases all@.len() - i,
    {
        let (factory, amms) = all[i];
        proof {
            let next = fs.subrange(0, i as int + 1);
            assert(next.drop_last() =~= fs.subrange(0, i as int));
            assert(all@[i as int] == (fs[i as int].factory, fs[i as int].amms));
        }
        if amms >= threshold {
            r.push(factory);
        }
        i = i + 1;
    }
    assert(fs.subrange(0, fs.len() as int) =~= fs);
    r
}

/// Ends a run that has reached `current_block`: records it as the last block
/// and returns the records of the factories with at least `threshold` children.
/// The caller saves the checkpoint once more.
pub fn finish_discovery(
    storage: &mut DiscoverFactoriesStorage,
    current_block: u64,
    threshold: u64,
) -> (r: Vec<Factory>)
    requires
        old(storage).wf(),
    ensures
        final(storage).wf(),
        final(storage)@ == (CheckpointView { last_block: current_block, ..old(storage)@ }),
        r@ == selected(old(storage)@.factories, threshold),
{
    storage.set_last_block(current_block);
    filter_factories(storage, threshold)
}

/// A fold that fails on a prefix of the logs fails with the same error on all of them.
pub proof fn lemma_failure_persists(
    fs: Seq<StoredFactory>,
    kinds: Seq<DiscoverableFactory>,
    prefix: Seq<LogEntry>,
    logs: Seq<LogEntry>,
)
    requires
        prefix.len() <= logs.len(),
        prefix =~= logs.subrange(0, prefix.len() as int),
        apply_logs_spec(fs, kinds, prefix) is Err,
    ensures
        apply_logs_spec(fs, kinds, logs) == apply_logs_spec(fs, kinds, prefix),
    decreases logs.len(),
{
    if logs.len() > prefix.len() {
        lemma_failure_persists(fs, kinds, prefix, logs.drop_last());
    } else {
        assert(prefix =~= logs);
    }
}

/// The child count recorded for `a`: that of the last entry at `a`, 0 where none is.
pub open spec fn amms_of(fs: Seq<StoredFactory>, a: Address) -> u64
    decreases fs.len(),
{
    if fs.len() == 0 {
        0
    } else if fs.last().address == a {
        fs.last().amms
    } else {
        amms_of(fs.drop_last(), a)
    }
}

/// The number of logs emitted by `a`.
pub open spec fn log_count(logs: Seq<LogEntry>, a: Address) -> nat
    decreases logs.len(),
{
    if logs.len() == 0 {
        0
    } else {
        log_count(logs.drop_last(), a) + if logs.last().address == a {
            1nat
        } else {
            0nat
        }
    }
}

/// Folding logs chunk by chunk gives the same checkpoint as folding them all at
/// once: the fold over `a + b` is the fold over `a` followed by the fold over `b`.
pub proof fn lemma_fold_chunks(
    fs: Seq<StoredFactory>,
    kinds: Seq<DiscoverableFactory>,
    a: Seq<LogEntry>,
    b: Seq<LogEntry>,
)
    ensures
        apply_logs_spec(fs, kinds, a + b) == match apply_logs_spec(fs, kinds, a) {
            Ok(f) => apply_logs_spec(f, kinds, b),
            Err(e) => Err(e),
        },
    decreases b.len(),
{
    if b.len() == 0 {
        assert(a + b =~= a);
    } else {
        assert((a + b).drop_last() =~= a + b.drop_last());
        assert((a + b).last() == b.last());
        lemma_fold_chunks(fs, kinds, a, b.drop_last());
    }
}

/// The chunks follow one another without gap or overlap: after a chunk
/// `[from, to]` the scan resumes at `to + 1`, the first block that chunk did not
/// cover, and the next chunk starts there while `to + 1 < current_block`;
/// otherwise the run has no next chunk.
pub proof fn lemma_chunks_tile(from_block: u64, current_block: u64, step: u64, to_block: u64)
    requires
        step >= 1,
        chunk_spec(from_block, current_block, step) == Some((from_block, to_block)),
    ensures
        from_block <= to_block <= current_block,
        to_block < current_block ==> next_from_spec(from_block, step) == to_block + 1,
        to_block + 1 < current_block ==> chunk_spec(
            next_from_spec(from_block, step),
            current_block,
            step,
        ) is Some,
        to_block + 1 < current_block ==> chunk_spec(
            next_from_spec(from_block, step),
            current_block,
            step,
        )->Some_0.0 == to_block + 1,
        to_block + 1 >= current_block ==> chunk_spec(
            next_from_spec(from_block, step),
            current_block,
            step,
        ) is None,
{
}

/// A run that starts from a checkpoint already at `current_block` fetches
/// nothing and leaves the checkpoint as it was.
pub proof fn lemma_rerun_unchanged(v: CheckpointView, current_block: u64, step: u64)
    requires
        step >= 1,
        v.last_block == current_block,
    ensures
        chunk_spec(v.last_block, current_block, step) is None,
        (CheckpointView { last_block: current_block, ..v }) == v,
{
}

/// A log whose topic is the discovery signature of none of the requested kinds
/// changes no count: folding it fails with `UnknownSignature`.
pub proof fn lemma_unrequested_topic(
    fs: Seq<StoredFactory>,
    kinds: Seq<DiscoverableFactory>,
    log: LogEntry,
)
    requires
        forall|i: int| 0 <= i < kinds.len() ==> log.topic.bytes@ != signature_bytes(#[trigger] kinds[i]),
    ensures
        apply_log_spec(fs, kinds, log) == Err::<Seq<StoredFactory>, DiscoveryError>(
            DiscoveryError::UnknownSignature,
        ),
{
    if let Some(k) = requested_kind(kinds, log.topic) {
        let i = choose|i: int| 0 <= i < kinds.len() && kinds[i] == k;
        assert(log.topic.bytes@ == signature_bytes(kinds[i]));
    }
}

/// The reported factories are exactly those with at least `threshold`
/// children, whatever the order in which the checkpoint holds them.
pub proof fn lemma_selected_members(fs: Seq<StoredFactory>, threshold: u64)
    ensures
        forall|i: int|
            0 <= i < fs.len() && fs[i].amms >= threshold ==> selected(fs, threshold).contains(
                #[trigger] fs[i].factory,
            ),
        forall|j: int|
            0 <= j < selected(fs, threshold).len() ==> exists|i: int|
                0 <= i < fs.len() && fs[i].amms >= threshold && fs[i].factory == #[trigger] selected(
                    fs,
                    threshold,
                )[j],
    decreases fs.len(),
{
    if fs.len() > 0 {
        let p = fs.drop_last();
        lemma_selected_members(p, threshold);
        let r = selected(fs, threshold);
        let q = selected(p, threshold);
        assert forall|i: int|
            0 <= i < fs.len() && fs[i].amms >= threshold implies r.contains(
                #[trigger] fs[i].factory,
            ) by {
            if i < p.len() {
                assert(p[i] == fs[i]);
                let k = choose|k: int| 0 <= k < q.len() && q[k] == fs[i].factory;
                assert(r[k] == q[k]);
            } else {
                assert(r[r.len() - 1] == fs[i].factory);
            }
        }
        assert forall|j: int| 0 <= j < r.len() implies exists|i: int|
            0 <= i < fs.len() && fs[i].amms >= threshold && fs[i].factory == #[trigger] r[j] by {
            if j < q.len() {
                assert(r[j] == q[j]);
                let i = choose|i: int|
                    0 <= i < p.len() && p[i].amms >= threshold && p[i].factory == q[j];
                assert(fs[i] == p[i]);
            } else {
                assert(fs[fs.len() - 1].factory == r[j]);
            }
        }
    }
}

proof fn lemma_known_incremented(fs: Seq<StoredFactory>, a: Address, b: Address)
    ensures
        known(incremented(fs, a), b) == known(fs, b),
{
    let g = incremented(fs, a);
    if known(fs, b) {
        let i = choose|i: int| 0 <= i < fs.len() && fs[i].address == b;
        assert(g[i].address == b);
    }
    if known(g, b) {
        let i = choose|i: int| 0 <= i < g.len() && g[i].address == b;
        assert(fs[i].address == b);
    }
}

proof fn lemma_known_push(fs: Seq<StoredFactory>, e: StoredFactory, b: Address)
    ensures
        known(fs.push(e), b) == (e.address == b || known(fs, b)),
{
    let g = fs.push(e);
    if known(fs, b) {
        let i = choose|i: int| 0 <= i < fs.len() && fs[i].address == b;
        assert(g[i].address == b);
    }
    if e.address == b {
        assert(g[fs.len() as int].address == b);
    }
    if known(g, b) {
        let i = choose|i: int| 0 <= i < g.len() && g[i].address == b;
        if i < fs.len() {
            assert(fs[i].address == b);
        }
    }
}

proof fn lemma_amms_of_unknown(fs: Seq<StoredFactory>, a: Address)
    requires
        !known(fs, a),
    ensures
        amms_of(fs, a) == 0,
    decreases fs.len(),
{
    if fs.len() > 0 {
        assert(fs.last().address != a);
        assert(!known(fs.drop_last(), a)) by {
            if known(fs.drop_last(), a) {
                let i = choose|i: int| 0 <= i < fs.len() - 1 && fs.drop_last()[i].address == a;
                assert(fs[i].address == a);
            }
        }
        lemma_amms_of_unknown(fs.drop_last(), a);
    }
}

proof fn lemma_amms_of_incremented(fs: Seq<StoredFactory>, a: Address, b: Address)
    ensures
        amms_of(incremented(fs, a), b) == if a == b && known(fs, a) {
            bump(amms_of(fs, b))
        } else {
            amms_of(fs, b)
        },
    decreases fs.len(),
{
    if fs.len() == 0 {
    } else {
        let g = incremented(fs, a);
        assert(g.drop_last() =~= incremented(fs.drop_last(), a));
        lemma_amms_of_incremented(fs.drop_last(), a, b);
        assert(known(fs, a) == (fs.last().address == a || known(fs.drop_last(), a))) by {
            assert(fs.drop_last().push(fs.last()) =~= fs);
            lemma_known_push(fs.drop_last(), fs.last(), a);
        }
        if !known(fs, a) {
            lemma_amms_of_unknown(fs, a);
        }
    }
}

/// The factories after `k` more children of the factory at `a` were seen.
pub open spec fn incremented_times(fs: Seq<StoredFactory>, a: Address, k: nat) -> Seq<
    StoredFactory,
>
    decreases k,
{
    if k == 0 {
        fs
    } else {
        incremented(incremented_times(fs, a, (k - 1) as nat), a)
    }
}

/// A factory registered at a new address starts with no children, and each of
/// `k` later children is counted once: its count is then `k`, and its record is
/// the one it was registered with.
pub proof fn lemma_registered_then_counted(fs: Seq<StoredFactory>, a: Address, f: Factory, k: nat)
    requires
        !known(fs, a),
        k < u64::MAX,
    ensures
        ({
            let g = incremented_times(with_factory(fs, a, f), a, k);
            &&& known(g, a)
            &&& amms_of(g, a) == k
            &&& g.last() == StoredFactory { address: a, factory: f, amms: k as u64 }
        }),
    decreases k,
{
    let e = StoredFactory { address: a, factory: f, amms: 0 };
    if k == 0 {
        lemma_known_push(fs, e, a);
        assert(with_factory(fs, a, f).drop_last() =~= fs);
    } else {
        lemma_registered_then_counted(fs, a, f, (k - 1) as nat);
        let p = incremented_times(with_factory(fs, a, f), a, (k - 1) as nat);
        lemma_known_incremented(p, a, a);
        lemma_amms_of_incremented(p, a, a);
    }
}

proof fn lemma_log_count_bound(logs: Seq<LogEntry>, a: Address)
    ensures
        log_count(logs, a) <= logs.len(),
    decreases logs.len(),
{
    if logs.len() > 0 {
        lemma_log_count_bound(logs.drop_last(), a);
    }
}

/// Each log of a requested kind is counted as a child of its address where that
/// address was already known when the log was folded; the log that registers a
/// new factory is not counted. So after a fold that succeeds, the count of `a`
/// is its count before plus the number of logs from `a`, less one where those
/// logs registered `a`.
pub proof fn lemma_count_matches_logs(
    fs: Seq<StoredFactory>,
    kinds: Seq<DiscoverableFactory>,
    logs: Seq<LogEntry>,
    a: Address,
)
    requires
        apply_logs_spec(fs, kinds, logs) is Ok,
        amms_of(fs, a) + logs.len() < u64::MAX,
    ensures
        ({
            let f = apply_logs_spec(fs, kinds, logs)->Ok_0;
            &&& known(f, a) == (known(fs, a) || log_count(logs, a) > 0)
            &&& amms_of(f, a) == amms_of(fs, a) + log_count(logs, a) - if !known(fs, a)
                && log_count(logs, a) > 0 {
                1int
            } else {
                0int
            }
        }),
    decreases logs.len(),
{
    if logs.len() > 0 {
        let prefix = logs.drop_last();
        let log = logs.last();
        lemma_count_matches_logs(fs, kinds, prefix, a);
        lemma_log_count_bound(prefix, a);
        let p = apply_logs_spec(fs, kinds, prefix)->Ok_0;
        let k = requested_kind(kinds, log.topic)->Some_0;
        if known(p, log.address) {
            lemma_known_incremented(p, log.address, a);
            lemma_amms_of_incremented(p, log.address, a);
        } else {
            let b = log.block_number->Some_0;
            let e = StoredFactory {
                address: log.address,
                factory: factory_record(k, log.address, b),
                amms: 0,
            };
            lemma_known_push(p, e, a);
            assert(p.push(e).drop_last() =~= p);
            if log.address == a {
                lemma_amms_of_unknown(p, a);
            }
        }
    }
}

} // verus!
