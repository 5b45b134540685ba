//! The native engine of the oldest supported version, at the boundary this
//! layer consumes it through.
//!
//! The interpreter loop proper (opcode dispatch, gas metering) is outside
//! this layer; what the layer relies on is the boundary behavior modeled
//! here: a FIFO bootloader memory of pending transactions, an event sink,
//! the bytecode-resolution cache, and a strict-LIFO snapshot stack. A
//! processed transaction consumes its queue slot, emits its event, and — on
//! success — registers every compressed bytecode submitted with it.

use vstd::prelude::*;
use crate::bytecode::{records_view, CompressedBytecodeInfo, RecordV};
use crate::errors::revert_reason_of;
use crate::history::HistoryMode;
use crate::outputs::{
    ExecutionResult, ExecutionResultV, Refunds, VmExecutionLogs, VmExecutionResultAndLogs,
    VmExecutionResultV, VmExecutionStatistics,
};
use crate::storage::{clone_hashes, mark_known_spec, StorageOracle};
use crate::transaction::{OutcomeKind, Transaction, TxOutcome, TxV};

verus! {

/// Which job a run-to-completion call performs: execute the remaining
/// transactions, or also postprocess and seal the block.
#[derive(Clone, Copy, PartialEq, Eq, Structural, Debug)]
pub enum BootloaderJobType {
    TransactionExecution,
    BlockPostprocessing,
}

/// Construction properties of the engine, translated by the glue layer from
/// the unified system environment.
#[derive(Clone, Copy, PartialEq, Eq, Structural, Debug)]
pub struct BlockProperties {
    pub default_aa_code_hash: u64,
    pub porter_is_available: bool,
}

/// One bootloader memory slot: a transaction together with the compression
/// records submitted alongside it.
#[derive(Clone, PartialEq, Eq, Debug)]
pub struct PendingEntry {
    pub tx: Transaction,
    pub records: Vec<CompressedBytecodeInfo>,
}

/// Spec view of one queue slot.
pub ghost struct EntryV {
    pub tx: TxV,
    pub records: Seq<RecordV>,
}

impl View for PendingEntry {
    type V = EntryV;

    open spec fn view(&self) -> EntryV {
        EntryV { tx: self.tx@, records: records_view(self.records@) }
    }
}

/// The observable state of the engine: the pending queue, the event sink,
/// the known-bytecode cache and the terminal flag. Snapshots capture
/// exactly this.
pub ghost struct EngineV {
    pub pending: Seq<EntryV>,
    pub events: Seq<u64>,
    pub known: Seq<u64>,
    pub finished: bool,
}

impl EngineV {
    /// The cache never registers a hash twice.
    pub open spec fn wf(self) -> bool {
        self.known.no_duplicates()
    }
}

/// A snapshot: a full copy of the engine's observable state, captured by
/// `save_current_vm_as_snapshot` and consumed LIFO.
#[derive(Clone, PartialEq, Eq, Debug)]
pub struct EngineSnapshot {
    pending: Vec<PendingEntry>,
    events: Vec<u64>,
    storage: StorageOracle,
    finished: bool,
}

impl View for EngineSnapshot {
    type V = EngineV;

    closed spec fn view(&self) -> EngineV {
        EngineV {
            pending: self.pending@.map_values(|e: PendingEntry| e@),
            events: self.events@,
            known: self.storage@,
            finished: self.finished,
        }
    }
}

/// The engine instance bound to one batch.
pub struct VmInstance<H: HistoryMode> {
    properties: BlockProperties,
    pending: Vec<PendingEntry>,
    events: Vec<u64>,
    storage: StorageOracle,
    finished: bool,
    snapshots: Vec<EngineSnapshot>,
    history: core::marker::PhantomData<H>,
}

impl<H: HistoryMode> View for VmInstance<H> {
    type V = EngineV;

    closed spec fn view(&self) -> EngineV {
        EngineV {
            pending: self.pending@.map_values(|e: PendingEntry| e@),
            events: self.events@,
            known: self.storage@,
            finished: self.finished,
        }
    }
}

/// What processing the records of a successful transaction, from index `j`
/// on, does to the cache: every record that carries a payload is registered.
pub open spec fn mark_from(known: Seq<u64>, records: Seq<RecordV>, j: int) -> Seq<u64>
    decreases records.len() - j,
{
    if j < 0 || j >= records.len() {
        known
    } else {
        mark_from(mark_one(known, records[j]), records, j + 1)
    }
}

/// Registering one record: only payload-carrying records are registered.
pub open spec fn mark_one(known: Seq<u64>, record: RecordV) -> Seq<u64> {
    if record.payload is Some {
        mark_known_spec(known, record.hash)
    } else {
        known
    }
}

/// The cache after one queue slot is processed: registration happens only
/// when the transaction succeeds.
pub open spec fn step_known(pre: EngineV) -> Seq<u64> {
    if pre.pending[0].tx.outcome.kind == OutcomeKind::Succeed {
        mark_from(pre.known, pre.pending[0].records, 0)
    } else {
        pre.known
    }
}

/// The engine state after the next pending transaction is processed: the
/// slot is consumed, the transaction's event is emitted, and the cache is
/// updated.
pub open spec fn step_obs(pre: EngineV) -> EngineV {
    EngineV {
        pending: pre.pending.drop_first(),
        events: pre.events.push(pre.pending[0].tx.hash),
        known: step_known(pre),
        finished: pre.finished,
    }
}

/// The result record of processing one queue slot.
pub open spec fn step_result(e: EntryV) -> ExecutionResultV {
    match e.tx.outcome.kind {
        OutcomeKind::Succeed => ExecutionResultV {
            kind: OutcomeKind::Succeed,
            output: Seq::empty(),
            revert: None,
            reason: None,
        },
        OutcomeKind::Revert => ExecutionResultV {
            kind: OutcomeKind::Revert,
            output: Seq::empty(),
            revert: Some(revert_reason_of(e.tx.outcome.payload)),
            reason: None,
        },
        OutcomeKind::Halt => ExecutionResultV {
            kind: OutcomeKind::Halt,
            output: Seq::empty(),
            revert: None,
            reason: e.tx.outcome.reason,
        },
    }
}

/// The full call outcome of processing one queue slot.
pub open spec fn step_call_result(e: EntryV) -> VmExecutionResultV {
    VmExecutionResultV {
        result: step_result(e),
        events: seq![e.tx.hash],
        statistics: VmExecutionStatistics { cycles_used: 1, gas_used: 0, computational_gas_used: 0 },
        refunds: Refunds { gas_refunded: 0, operator_suggested_refund: 0 },
    }
}

/// The engine state after all pending transactions are processed in order.
pub open spec fn run_all(o: EngineV) -> EngineV
    decreases o.pending.len(),
{
    if o.pending.len() == 0 {
        o
    } else {
        run_all(step_obs(o))
    }
}

impl<H: HistoryMode> VmInstance<H> {
    /// The snapshot stack, oldest first.
    pub closed spec fn snapshots_view(&self) -> Seq<EngineV> {
        self.snapshots@.map_values(|s: EngineSnapshot| s@)
    }

    /// The construction properties, immutable for the instance's lifetime.
    pub closed spec fn properties_spec(&self) -> BlockProperties {
        self.properties
    }

    /// Well-formedness: the cache and every snapshotted cache are free of
    /// duplicates, and a history-disabled instance holds no snapshots.
    pub closed spec fn wf(&self) -> bool {
        &&& self.storage.wf()
        &&& forall|i: int|
            0 <= i < self.snapshots_view().len() ==> (#[trigger] self.snapshots_view()[i]).wf()
        &&& !H::enabled_spec() ==> self.snapshots_view().len() == 0
    }

    /// Boots an engine over a storage handle. Construction performs no
    /// storage writes: the cache is taken as handed in.
    pub fn new(properties: BlockProperties, storage: StorageOracle) -> (vm: Self)
        requires
            storage.wf(),
        ensures
            vm.wf(),
            vm@ == (EngineV {
                pending: Seq::<EntryV>::empty(),
                events: Seq::<u64>::empty(),
                known: storage@,
                finished: false,
            }),
            vm.snapshots_view() == Seq::<EngineV>::empty(),
            vm.properties_spec() == properties,
    {
        let vm = VmInstance {
            properties,
            pending: Vec::new(),
            events: Vec::new(),
            storage,
            finished: false,
            snapshots: Vec::new(),
            history: core::marker::PhantomData,
        };
        proof {
            assert(vm@.pending =~= Seq::<EntryV>::empty());
            assert(vm.snapshots_view() =~= Seq::<EngineV>::empty());
        }
        vm
    }

    /// Appends a transaction, with the compression records submitted
    /// alongside it, to the bootloader memory (FIFO). No execution occurs.
    pub fn push_entry(&mut self, tx: Transaction, records: Vec<CompressedBytecodeInfo>)
        requires
            old(self).wf(),
            !old(self)@.finished,
        ensures
            final(self).wf(),
            final(self)@ == (EngineV {
                pending: old(self)@.pending.push(
                    EntryV { tx: tx@, records: records_view(records@) },
                ),
                events: old(self)@.events,
                known: old(self)@.known,
                finished: old(self)@.finished,
            }),
            final(self).snapshots_view() == old(self).snapshots_view(),
            final(self).properties_spec() == old(self).properties_spec(),
    {
        let entry = PendingEntry { tx, records };
        proof {
            let ghost e = entry@;
            assert(self.pending@.push(entry).map_values(|x: PendingEntry| x@) =~= self.pending@
                .map_values(|x: PendingEntry| x@).push(e));
        }
        self.pending.push(entry);
        proof {
            assert(self.snapshots_view() == old(self).snapshots_view());
            assert forall|i: int| 0 <= i < self.snapshots_view().len() implies (
            #[trigger] self.snapshots_view()[i]).wf() by {
                assert(old(self).snapshots_view()[i].wf());
            }
        }
    }

    /// Processes exactly the next pending transaction: consumes its slot,
    /// emits its event, and — when it succeeds — registers every
    /// payload-carrying compression record submitted with it.
    pub fn execute_next_tx(&mut self, _validation_gas_limit: u32, _with_call_tracer: bool) -> (r:
        VmExecutionResultAndLogs)
        requires
            old(self).wf(),
            !old(self)@.finished,
            old(self)@.pending.len() > 0,
        ensures
            final(self).wf(),
            final(self)@ == step_obs(old(self)@),
            final(self).snapshots_view() == old(self).snapshots_view(),
            final(self).properties_spec() == old(self).properties_spec(),
            r@ == step_call_result(old(self)@.pending[0]),
    {
        let entry = self.pending.remove(0);
        proof {
            assert(entry@ == old(self)@.pending[0]);
            assert(self.pending@ =~= old(self).pending@.subrange(
                1,
                old(self).pending@.len() as int,
            ));
            assert(self.pending@.map_values(|x: PendingEntry| x@) =~= old(self)@.pending
                .drop_first());
        }
        let PendingEntry { tx, records: recs } = entry;
        let Transaction { hash: tx_hash, factory_deps: _, outcome } = tx;
        let ghost entry_v = old(self)@.pending[0];
        let result: ExecutionResult = match outcome {
            TxOutcome::Succeed => {
                let ghost k0 = self.storage@;
                let mut j: usize = 0;
                while j < recs.len()
                    invariant
                        j <= recs@.len(),
                        self.storage.wf(),
                        mark_from(k0, records_view(recs@), 0) == mark_from(
                            self.storage@,
                            records_view(recs@),
                            j as int,
                        ),
                        self.pending@ == old(self).pending@.subrange(
                            1,
                            old(self).pending@.len() as int,
                        ),
                        self.events@ == old(self).events@,
                        self.finished == old(self).finished,
                        self.snapshots@ == old(self).snapshots@,
                        self.properties == old(self).properties,
                    decreases recs@.len() - j,
                {
                    let ghost kpre = self.storage@;
                    let rec = &recs[j];
                    proof {
                        assert(records_view(recs@)[j as int] == recs@[j as int]@);
                    }
                    match &rec.compressed {
                        Some(_) => {
                            self.storage.mark_bytecode_known(rec.bytecode_hash);
                            proof {
                                assert(self.storage@ == mark_one(
                                    kpre,
                                    records_view(recs@)[j as int],
                                ));
                            }
                        },
                        None => {
                            proof {
                                assert(self.storage@ == mark_one(
                                    kpre,
                                    records_view(recs@)[j as int],
                                ));
                            }
                        },
                    }
                    j = j + 1;
                }
                proof {
                    assert(mark_from(self.storage@, records_view(recs@), recs@.len() as int)
                        == self.storage@);
                    assert(entry_v.records == records_view(recs@));
                    assert(self.storage@ == step_known(old(self)@));
                }
                ExecutionResult::Success { output: Vec::new() }
            },
            TxOutcome::Revert { payload } => {
                ExecutionResult::Revert { output: crate::errors::parse_revert_reason(&payload) }
            },
            TxOutcome::Halt { reason } => ExecutionResult::Halt { reason },
        };
        self.events.push(tx_hash);
        let mut ev: Vec<u64> = Vec::new();
        ev.push(tx_hash);
        let r = VmExecutionResultAndLogs {
            result,
            logs: VmExecutionLogs { events: ev },
            statistics: VmExecutionStatistics {
                cycles_used: 1,
                gas_used: 0,
                computational_gas_used: 0,
            },
            refunds: Refunds { gas_refunded: 0, operator_suggested_refund: 0 },
        };
        proof {
            assert(old(self)@.pending.drop_first() =~= old(self).pending@.subrange(
                1,
                old(self).pending@.len() as int,
            ).map_values(|x: PendingEntry| x@));
            assert(r@.events =~= seq![entry_v.tx.hash]);
            assert(self.snapshots_view() == old(self).snapshots_view());
        }
        r
    }

    /// Processes every remaining pending transaction in order, then runs
    /// the block tip; a postprocessing job also seals the batch.
    pub fn execute_till_block_end(&mut self, job: BootloaderJobType) -> (r:
        VmExecutionResultAndLogs)
        requires
            old(self).wf(),
            !old(self)@.finished,
        ensures
            final(self).wf(),
            final(self)@ == (EngineV {
                finished: job == BootloaderJobType::BlockPostprocessing,
                ..run_all(old(self)@)
            }),
            final(self).snapshots_view() == old(self).snapshots_view(),
            final(self).properties_spec() == old(self).properties_spec(),
            r@.result.kind == OutcomeKind::Succeed,
            r@.events == final(self)@.events.skip(old(self)@.events.len() as int),
            r@.statistics.cycles_used == old(self)@.pending.len(),
    {
        let ghost start = self@;
        let total: usize = self.pending.len();
        let mut collected: Vec<u64> = Vec::new();
        let mut steps: usize = 0;
        proof {
            assert(collected@ =~= self@.events.skip(start.events.len() as int));
        }
        while self.pending.len() > 0
            invariant
                self.wf(),
                !self@.finished,
                run_all(start) == run_all(self@),
                self.snapshots_view() == old(self).snapshots_view(),
                self.properties_spec() == old(self).properties_spec(),
                start.events.len() <= self@.events.len(),
                collected@ == self@.events.skip(start.events.len() as int),
                total == start.pending.len(),
                steps + self@.pending.len() == total,
            decreases self@.pending.len(),
        {
            let ghost pre = self@;
            let step_r = self.execute_next_tx(0, false);
            proof {
                assert(step_r.logs.events@.len() == 1);
                assert(run_all(pre) == run_all(step_obs(pre)));
            }
            let h = step_r.logs.events[0];
            collected.push(h);
            steps = steps + 1;
            proof {
                assert(self@ == step_obs(pre));
                assert(self@.events =~= pre.events.push(pre.pending[0].tx.hash));
                assert(collected@ =~= self@.events.skip(start.events.len() as int));
            }
        }
        proof {
            assert(run_all(self@) == self@);
            assert(self@ == run_all(start));
        }
        match job {
            BootloaderJobType::BlockPostprocessing => {
                self.finished = true;
            },
            BootloaderJobType::TransactionExecution => {},
        }
        let r = VmExecutionResultAndLogs {
            result: ExecutionResult::Success { output: Vec::new() },
            logs: VmExecutionLogs { events: collected },
            statistics: VmExecutionStatistics {
                cycles_used: steps,
                gas_used: 0,
                computational_gas_used: 0,
            },
            refunds: Refunds { gas_refunded: 0, operator_suggested_refund: 0 },
        };
        r
    }

    /// Advances the bootloader to its next natural boundary without a
    /// transaction boundary: no observable state changes.
    pub fn execute_block_tip(&mut self) -> (r: VmExecutionResultAndLogs)
        requires
            old(self).wf(),
            !old(self)@.finished,
        ensures
            final(self).wf(),
            final(self)@ == old(self)@,
            final(self).snapshots_view() == old(self).snapshots_view(),
            final(self).properties_spec() == old(self).properties_spec(),
            r@.result.kind == OutcomeKind::Succeed,
            r@.events == Seq::<u64>::empty(),
            r@.statistics.cycles_used == 0,
    {
        let r = VmExecutionResultAndLogs {
            result: ExecutionResult::Success { output: Vec::new() },
            logs: VmExecutionLogs { events: Vec::new() },
            statistics: VmExecutionStatistics {
                cycles_used: 0,
                gas_used: 0,
                computational_gas_used: 0,
            },
            refunds: Refunds { gas_refunded: 0, operator_suggested_refund: 0 },
        };
        proof {
            assert(r@.events =~= Seq::<u64>::empty());
        }
        r
    }

    /// How many entries the bootloader memory still holds.
    pub fn pending_count(&self) -> (n: usize)
        ensures
            n == self@.pending.len(),
    {
        self.pending.len()
    }

    /// Whether the batch has been sealed by a postprocessing run.
    pub fn is_finished(&self) -> (b: bool)
        ensures
            b == self@.finished,
    {
        self.finished
    }

    /// Current size of the event sink.
    pub fn event_sink_size(&self) -> (n: usize)
        ensures
            n == self@.events.len(),
    {
        self.events.len()
    }

    /// Current size of the working memory (occupied bootloader slots).
    pub fn memory_size(&self) -> (n: usize)
        ensures
            n == self@.pending.len(),
    {
        self.pending.len()
    }

    /// Current size of the bytecode-resolution cache.
    pub fn decommitter_size(&self) -> (n: usize)
        ensures
            n == self@.known.len(),
    {
        self.storage.cache_size()
    }

    /// Current size of the storage overlay.
    pub fn storage_size(&self) -> (n: usize)
        ensures
            n == self@.known.len(),
    {
        self.storage.cache_size()
    }

    /// Plans the compression records for a dependency list against the
    /// current state of the bytecode-resolution cache.
    pub fn plan_for(&self, deps: &Vec<Vec<u8>>) -> (r: Vec<CompressedBytecodeInfo>)
        ensures
            records_view(r@) == crate::bytecode::pending_codes(
                deps.deep_view(),
                self@.known.to_set(),
            ).map_values(|c: Seq<u8>| crate::bytecode::record_of(c)),
    {
        crate::bytecode::plan_compression(deps, &self.storage)
    }

    /// Is this content hash known to the bytecode-resolution cache?
    pub fn is_bytecode_known(&self, hash: u64) -> (r: bool)
        ensures
            r == self@.known.to_set().contains(hash),
    {
        self.storage.is_bytecode_known(hash)
    }

    /// A copy of the event sink, oldest first.
    pub fn events_snapshot(&self) -> (r: Vec<u64>)
        ensures
            r@ == self@.events,
    {
        clone_hashes(&self.events)
    }

    /// A copy of the known-bytecode registration list, oldest first.
    pub fn known_snapshot(&self) -> (r: Vec<u64>)
        ensures
            r@ == self@.known,
    {
        self.storage.registered()
    }

    /// Pushes a snapshot of the current observable state onto the stack.
    pub fn save_current_vm_as_snapshot(&mut self)
        requires
            old(self).wf(),
            H::enabled_spec(),
        ensures
            final(self).wf(),
            final(self)@ == old(self)@,
            final(self).snapshots_view() == old(self).snapshots_view().push(old(self)@),
            final(self).properties_spec() == old(self).properties_spec(),
    {
        let snap = EngineSnapshot {
            pending: clone_entries(&self.pending),
            events: clone_hashes(&self.events),
            storage: self.storage.duplicate(),
            finished: self.finished,
        };
        proof {
            assert(snap@.pending =~= self@.pending);
            assert(snap@ == self@);
            assert(self.snapshots@.push(snap).map_values(|s: EngineSnapshot| s@) =~= self
                .snapshots_view().push(snap@));
        }
        self.snapshots.push(snap);
        proof {
            assert(self.snapshots_view() == old(self).snapshots_view().push(old(self)@));
            assert forall|i: int| 0 <= i < self.snapshots_view().len() implies (
            #[trigger] self.snapshots_view()[i]).wf() by {
                if i < old(self).snapshots_view().len() {
                    assert(old(self).snapshots_view()[i].wf());
                    assert(self.snapshots_view()[i] == old(self).snapshots_view()[i]);
                } else {
                    assert(self.snapshots_view()[i] == old(self)@);
                    assert(old(self)@.known == old(self).storage@);
                    assert(old(self)@.wf());
                }
            }
        }
    }

    /// Pops the most recent snapshot and restores the engine's observable
    /// state to it, discarding exactly that one snapshot.
    pub fn rollback_to_latest_snapshot_popping(&mut self)
        requires
            old(self).wf(),
            old(self).snapshots_view().len() > 0,
        ensures
            final(self).wf(),
            final(self)@ == old(self).snapshots_view().last(),
            final(self).snapshots_view() == old(self).snapshots_view().drop_last(),
            final(self).properties_spec() == old(self).properties_spec(),
    {
        proof {
            assert(old(self).snapshots_view()[old(self).snapshots@.len() - 1].wf());
        }
        let snap = match self.snapshots.pop() {
            Some(s) => s,
            None => vstd::pervasive::unreached(),
        };
        self.pending = snap.pending;
        self.events = snap.events;
        self.storage = snap.storage;
        self.finished = snap.finished;
        proof {
            assert(self.snapshots@.map_values(|s: EngineSnapshot| s@) =~= old(
                self,
            ).snapshots_view().drop_last());
            assert forall|i: int| 0 <= i < self.snapshots_view().len() implies (
            #[trigger] self.snapshots_view()[i]).wf() by {
                assert(old(self).snapshots_view()[i].wf());
                assert(self.snapshots_view()[i] == old(self).snapshots_view()[i]);
            }
        }
    }

    /// Pops the most recent snapshot and discards it without restoring.
    pub fn pop_snapshot_no_rollback(&mut self)
        requires
            old(self).wf(),
            old(self).snapshots_view().len() > 0,
        ensures
            final(self).wf(),
            final(self)@ == old(self)@,
            final(self).snapshots_view() == old(self).snapshots_view().drop_last(),
            final(self).properties_spec() == old(self).properties_spec(),
    {
        let _ = self.snapshots.pop();
        proof {
            assert(self.snapshots@.map_values(|s: EngineSnapshot| s@) =~= old(
                self,
            ).snapshots_view().drop_last());
            assert forall|i: int| 0 <= i < self.snapshots_view().len() implies (
            #[trigger] self.snapshots_view()[i]).wf() by {
                assert(old(self).snapshots_view()[i].wf());
                assert(self.snapshots_view()[i] == old(self).snapshots_view()[i]);
            }
        }
    }
}

/// An element-wise copy of a byte string.
fn clone_bytes(v: &Vec<u8>) -> (r: Vec<u8>)
    ensures
        r@ == v@,
{
    let mut r: Vec<u8> = Vec::new();
    let mut i: usize = 0;
    while i < v.len()
        invariant
            i <= v@.len(),
            r@ == v@.take(i as int),
        decreases v@.len() - i,
    {
        r.push(v[i]);
        proof {
            assert(r@ =~= v@.take(i + 1));
        }
        i = i + 1;
    }
    proof {
        assert(v@.take(v@.len() as int) =~= v@);
    }
    r
}

/// A copy of a transaction with the same view.
fn clone_tx(t: &Transaction) -> (r: Transaction)
    ensures
        r@ == t@,
{
    let deps = match &t.factory_deps {
        None => None,
        Some(list) => {
            let mut copy: Vec<Vec<u8>> = Vec::new();
            let mut i: usize = 0;
            while i < list.len()
                invariant
                    i <= list@.len(),
                    copy@.len() == i,
                    forall|j: int| 0 <= j < i ==> (#[trigger] copy@[j])@ == list@[j]@,
                decreases list@.len() - i,
            {
                copy.push(clone_bytes(&list[i]));
                i = i + 1;
            }
            proof {
                assert forall|j: int| 0 <= j < list@.len() implies copy.deep_view()[j] == list
                    .deep_view()[j] by {
                    assert(copy@[j].deep_view() =~= copy@[j]@);
                    assert(list@[j].deep_view() =~= list@[j]@);
                }
                assert(copy.deep_view() =~= list.deep_view());
            }
            Some(copy)
        },
    };
    let outcome = match &t.outcome {
        TxOutcome::Succeed => TxOutcome::Succeed,
        TxOutcome::Revert { payload } => TxOutcome::Revert { payload: clone_bytes(payload) },
        TxOutcome::Halt { reason } => TxOutcome::Halt { reason: *reason },
    };
    Transaction { hash: t.hash, factory_deps: deps, outcome }
}

/// A copy of a record list with the same view.
pub(crate) fn clone_records(v: &Vec<CompressedBytecodeInfo>) -> (r: Vec<CompressedBytecodeInfo>)
    ensures
        records_view(r@) == records_view(v@),
{
    let mut r: Vec<CompressedBytecodeInfo> = Vec::new();
    let mut i: usize = 0;
    while i < v.len()
        invariant
            i <= v@.len(),
            r@.len() == i,
            forall|j: int| 0 <= j < i ==> (#[trigger] r@[j])@ == v@[j]@,
        decreases v@.len() - i,
    {
        let payload = match &v[i].compressed {
            None => None,
            Some(p) => Some(clone_bytes(p)),
        };
        let rec = CompressedBytecodeInfo { bytecode_hash: v[i].bytecode_hash, compressed: payload };
        proof {
            assert(rec@ == v@[i as int]@);
        }
        r.push(rec);
        i = i + 1;
    }
    proof {
        let ghost rm = records_view(r@);
        let ghost vm_all = records_view(v@);
        assert forall|j: int| 0 <= j < v@.len() implies #[trigger] rm[j] == vm_all[j] by {
            assert(r@[j]@ == v@[j]@);
        }
        assert(rm =~= vm_all);
    }
    r
}

/// A copy of the bootloader memory with the same view.
fn clone_entries(v: &Vec<PendingEntry>) -> (r: Vec<PendingEntry>)
    ensures
        r@.map_values(|e: PendingEntry| e@) == v@.map_values(|e: PendingEntry| e@),
{
    let mut r: Vec<PendingEntry> = Vec::new();
    let mut i: usize = 0;
    while i < v.len()
        invariant
            i <= v@.len(),
            r@.len() == i,
            forall|j: int| 0 <= j < i ==> (#[trigger] r@[j])@ == v@[j]@,
        decreases v@.len() - i,
    {
        let entry = PendingEntry { tx: clone_tx(&v[i].tx), records: clone_records(&v[i].records) };
        proof {
            assert(entry@ == v@[i as int]@);
        }
        r.push(entry);
        i = i + 1;
    }
    proof {
        let ghost rm = r@.map_values(|e: PendingEntry| e@);
        let ghost vm_all = v@.map_values(|e: PendingEntry| e@);
        assert forall|j: int| 0 <= j < v@.len() implies #[trigger] rm[j] == vm_all[j] by {
            assert(r@[j]@ == v@[j]@);
        }
        assert(rm =~= vm_all);
    }
    r
}

} // verus!
