//! The adapter for the oldest supported engine version.
//!
//! Its capability table, encoded in the `*_pre` spec functions of its
//! [`VmInterface`] implementation: batch mode is not supported and must
//! fail fatally; L2-block boundaries are a true no-op; the aggregate
//! execution state is well-defined only after `finish_batch`; native tracer
//! hook points are absent, so the dispatcher type is an empty placeholder
//! and `inspect` ignores it.

use vstd::prelude::*;
use crate::bytecode::{pending_codes, record_of, records_view, CompressedBytecodeInfo, RecordV};
use crate::engine::{
    clone_records, step_call_result, step_obs, run_all, BlockProperties, BootloaderJobType,
    EngineV, EntryV, VmInstance,
};
use crate::env::{L1BatchEnv, L2BlockEnv, SystemEnv, TxExecutionMode, VmExecutionMode};
use crate::errors::BytecodeCompressionError;
use crate::history::{HistoryEnabled, HistoryMode};
use crate::interface::{VmInterface, VmInterfaceHistoryEnabled};
use crate::outputs::{
    BootloaderMemory, CurrentExecutionState, FinishedL1Batch, VmExecutionResultAndLogs,
    VmExecutionResultV, VmMemoryMetrics,
};
use crate::storage::StorageOracle;
use crate::transaction::{Transaction, TxV};

verus! {

/// Placeholder dispatcher: this engine version has no native tracer hook
/// points, so the dispatcher carries nothing and is ignored.
#[derive(Clone, Copy, PartialEq, Eq, Structural, Debug)]
pub struct NoTracers;

impl Default for NoTracers {
    fn default() -> (d: Self)
        ensures
            d == NoTracers,
    {
        NoTracers
    }
}

/// The Vm instance of the oldest engine version: the native engine, the
/// immutable batch context, and the compression records of the most
/// recently executed transaction.
pub struct Vm<H: HistoryMode> {
    vm: VmInstance<H>,
    system_env: SystemEnv,
    batch_env: L1BatchEnv,
    last_tx_compressed_bytecodes: Vec<CompressedBytecodeInfo>,
}

/// Spec view of the adapter.
pub ghost struct VmV {
    pub engine: EngineV,
    pub snapshots: Seq<EngineV>,
    pub props: BlockProperties,
    pub system_env: SystemEnv,
    pub batch_env: L1BatchEnv,
    pub last_records: Seq<RecordV>,
}

impl<H: HistoryMode> View for Vm<H> {
    type V = VmV;

    closed spec fn view(&self) -> VmV {
        VmV {
            engine: self.vm@,
            snapshots: self.vm.snapshots_view(),
            props: self.vm.properties_spec(),
            system_env: self.system_env,
            batch_env: self.batch_env,
            last_records: records_view(self.last_tx_compressed_bytecodes@),
        }
    }
}

impl<H: HistoryMode> Vm<H> {
    /// Internal validity: the engine's invariants hold.
    pub closed spec fn wf_spec(&self) -> bool {
        self.vm.wf()
    }
}

/// The compression records planned for a transaction's dependencies
/// against a given cache state.
pub open spec fn planned_records(txv: TxV, known: Seq<u64>) -> Seq<RecordV> {
    pending_codes(txv.factory_deps, known.to_set()).map_values(|c: Seq<u8>| record_of(c))
}

/// What an `inspect` call of this version does: one verified transaction,
/// a run to end of job under a simulation policy, or a bootloader advance.
/// The tracer dispatcher plays no part: this version has no hook points.
pub open spec fn legacy_inspect_post(
    pre: VmV,
    mode: VmExecutionMode,
    post: VmV,
    r: VmExecutionResultV,
) -> bool {
    &&& post.snapshots == pre.snapshots
    &&& post.props == pre.props
    &&& post.system_env == pre.system_env
    &&& post.batch_env == pre.batch_env
    &&& post.last_records == Seq::<RecordV>::empty()
    &&& mode != VmExecutionMode::Batch
    &&& (mode == VmExecutionMode::OneTx && pre.system_env.execution_mode
        == TxExecutionMode::VerifyExecute ==> {
        &&& post.engine == step_obs(pre.engine)
        &&& r == step_call_result(pre.engine.pending[0])
    })
    &&& (mode == VmExecutionMode::OneTx && pre.system_env.execution_mode
        != TxExecutionMode::VerifyExecute ==> {
        &&& post.engine == (EngineV { finished: false, ..run_all(pre.engine) })
        &&& r.result.kind == crate::transaction::OutcomeKind::Succeed
        &&& r.events == post.engine.events.skip(pre.engine.events.len() as int)
        &&& r.statistics.cycles_used == pre.engine.pending.len()
    })
    &&& (mode == VmExecutionMode::Bootloader ==> {
        &&& post.engine == pre.engine
        &&& r.result.kind == crate::transaction::OutcomeKind::Succeed
        &&& r.events == Seq::<u64>::empty()
        &&& r.statistics.cycles_used == 0
    })
}

/// The records the compression protocol produces for a transaction: the
/// planned records when compression is requested, none otherwise.
pub open spec fn records_for(txv: TxV, known: Seq<u64>, with_compression: bool) -> Seq<RecordV> {
    if with_compression {
        planned_records(txv, known)
    } else {
        Seq::<RecordV>::empty()
    }
}

/// What executing a transaction through the compression protocol does for
/// this version: plan the records, submit the transaction with them,
/// execute the next queue slot, and demand that every planned hash is
/// known afterwards — else the whole call reports a compression failure.
pub open spec fn legacy_compression_post(
    pre: VmV,
    txv: TxV,
    with_compression: bool,
    post: VmV,
    r: Result<VmExecutionResultAndLogs, BytecodeCompressionError>,
) -> bool {
    let records = records_for(txv, pre.engine.known, with_compression);
    let submitted = EngineV {
        pending: pre.engine.pending.push(EntryV { tx: txv, records }),
        ..pre.engine
    };
    let executed = step_obs(submitted);
    &&& post.engine == executed
    &&& post.snapshots == pre.snapshots
    &&& post.props == pre.props
    &&& post.system_env == pre.system_env
    &&& post.batch_env == pre.batch_env
    &&& post.last_records == records
    &&& (r matches Ok(res) ==> {
        &&& forall|j: int|
            0 <= j < records.len() ==> executed.known.to_set().contains(
                (#[trigger] records[j]).hash,
            )
        &&& res@ == step_call_result(submitted.pending[0])
    })
    &&& (r matches Err(e) ==> {
        &&& e == BytecodeCompressionError::BytecodeCompressionFailed
        &&& exists|j: int|
            0 <= j < records.len() && !executed.known.to_set().contains(
                (#[trigger] records[j]).hash,
            )
    })
}

impl<H: HistoryMode> VmInterface<H> for Vm<H> {
    /// Tracers are not supported by this version, so the dispatcher is an
    /// empty placeholder.
    type TracerDispatcher = NoTracers;

    open spec fn wf(&self) -> bool {
        self.wf_spec()
    }

    open spec fn pending_txs(&self) -> Seq<TxV> {
        self@.engine.pending.map_values(|e: EntryV| e.tx)
    }

    open spec fn default_dispatcher_spec() -> NoTracers {
        NoTracers
    }

    open spec fn new_post(
        batch_env: L1BatchEnv,
        system_env: SystemEnv,
        storage_known: Seq<u64>,
        vm: Self,
    ) -> bool {
        vm@ == VmV {
            engine: EngineV {
                pending: Seq::<EntryV>::empty(),
                events: Seq::<u64>::empty(),
                known: storage_known,
                finished: false,
            },
            snapshots: Seq::<EngineV>::empty(),
            props: BlockProperties {
                default_aa_code_hash: system_env.base_system_smart_contracts.default_aa,
                porter_is_available: false,
            },
            system_env,
            batch_env,
            last_records: Seq::<RecordV>::empty(),
        }
    }

    open spec fn push_pre(&self) -> bool {
        !self@.engine.finished
    }

    open spec fn push_post(pre: Self, tx: Transaction, post: Self) -> bool {
        post@ == VmV {
            engine: EngineV {
                pending: pre@.engine.pending.push(
                    EntryV { tx: tx@, records: Seq::<RecordV>::empty() },
                ),
                ..pre@.engine
            },
            ..pre@
        }
    }

    open spec fn inspect_pre(&self, mode: VmExecutionMode) -> bool {
        &&& !self@.engine.finished
        &&& mode != VmExecutionMode::Batch
        &&& (mode == VmExecutionMode::OneTx && self@.system_env.execution_mode
            == TxExecutionMode::VerifyExecute ==> self@.engine.pending.len() > 0)
    }

    open spec fn inspect_post(
        pre: Self,
        dispatcher: NoTracers,
        mode: VmExecutionMode,
        post: Self,
        r: VmExecutionResultAndLogs,
    ) -> bool {
        legacy_inspect_post(pre@, mode, post@, r@)
    }

    open spec fn bootloader_memory_spec(&self) -> Seq<(usize, u64)> {
        Seq::empty()
    }

    open spec fn last_records_spec(&self) -> Seq<RecordV> {
        self@.last_records
    }

    open spec fn l2_block_post(pre: Self, l2_block_env: L2BlockEnv, post: Self) -> bool {
        post@ == pre@
    }

    open spec fn exec_state_pre(&self) -> bool {
        self@.engine.finished
    }

    open spec fn exec_state_post(&self, r: CurrentExecutionState) -> bool {
        &&& r@.events == self@.engine.events
        &&& r@.used_contract_hashes == self@.engine.known
    }

    open spec fn compression_exec_pre(&self, tx: Transaction, with_compression: bool) -> bool {
        !self@.engine.finished
    }

    open spec fn compression_exec_post(
        pre: Self,
        dispatcher: NoTracers,
        tx: Transaction,
        with_compression: bool,
        post: Self,
        r: Result<VmExecutionResultAndLogs, BytecodeCompressionError>,
    ) -> bool {
        legacy_compression_post(pre@, tx@, with_compression, post@, r)
    }

    open spec fn metrics_post(&self, r: VmMemoryMetrics) -> bool {
        &&& r.event_sink_inner == self@.engine.events.len()
        &&& r.memory_inner == self@.engine.pending.len()
        &&& r.decommittment_processor_inner == self@.engine.known.len()
        &&& r.storage_inner == self@.engine.known.len()
        &&& (H::enabled_spec() ==> r.event_sink_history == self@.engine.events.len()
            && r.memory_history == self@.engine.pending.len()
            && r.decommittment_processor_history == self@.engine.known.len()
            && r.storage_history == self@.engine.known.len())
        &&& (!H::enabled_spec() ==> r.event_sink_history == 0 && r.memory_history == 0
            && r.decommittment_processor_history == 0 && r.storage_history == 0)
    }

    open spec fn finish_pre(&self) -> bool {
        !self@.engine.finished
    }

    open spec fn finish_post(pre: Self, post: Self, r: FinishedL1Batch) -> bool {
        let done = run_all(pre@.engine);
        &&& post@.engine == (EngineV { finished: true, ..done })
        &&& post@.snapshots == pre@.snapshots
        &&& post@.props == pre@.props
        &&& post@.system_env == pre@.system_env
        &&& post@.batch_env == pre@.batch_env
        &&& post@.last_records == pre@.last_records
        &&& r@.block_tip_execution_result.result.kind == crate::transaction::OutcomeKind::Succeed
        &&& r@.block_tip_execution_result.events == done.events.skip(
            pre@.engine.events.len() as int,
        )
        &&& r@.block_tip_execution_result.statistics.cycles_used == pre@.engine.pending.len()
        &&& r@.final_execution_state.events == done.events
        &&& r@.final_execution_state.used_contract_hashes == done.known
    }

    fn new(batch_env: L1BatchEnv, system_env: SystemEnv, storage: StorageOracle) -> (vm: Self) {
        let properties = BlockProperties {
            default_aa_code_hash: system_env.base_system_smart_contracts.default_aa,
            porter_is_available: false,
        };
        let inner = VmInstance::new(properties, storage);
        let vm = Vm {
            vm: inner,
            system_env,
            batch_env,
            last_tx_compressed_bytecodes: Vec::new(),
        };
        proof {
            assert(records_view(Seq::<CompressedBytecodeInfo>::empty()) =~= Seq::<
                RecordV,
            >::empty());
            assert(vm.pending_txs() =~= Seq::<TxV>::empty());
        }
        vm
    }

    fn push_transaction(&mut self, tx: Transaction) {
        let ghost txv = tx@;
        self.vm.push_entry(tx, Vec::new());
        proof {
            assert(records_view(Seq::<CompressedBytecodeInfo>::empty()) =~= Seq::<
                RecordV,
            >::empty());
            let ghost m1 = self.pending_txs();
            let ghost m0 = old(self).pending_txs();
            assert forall|j: int| 0 <= j < m1.len() implies #[trigger] m1[j] == m0.push(txv)[j] by {
                assert(self@.engine.pending[j] == if j < m0.len() {
                    old(self)@.engine.pending[j]
                } else {
                    EntryV { tx: txv, records: Seq::<RecordV>::empty() }
                });
            }
            assert(m1 =~= m0.push(txv));
        }
    }

    fn execute(&mut self, execution_mode: VmExecutionMode) -> (r: VmExecutionResultAndLogs) {
        let dispatcher: NoTracers = Default::default();
        self.inspect(dispatcher, execution_mode)
    }

    fn inspect(&mut self, dispatcher: NoTracers, execution_mode: VmExecutionMode) -> (r:
        VmExecutionResultAndLogs) {
        self.last_tx_compressed_bytecodes = Vec::new();
        proof {
            assert(records_view(Seq::<CompressedBytecodeInfo>::empty()) =~= Seq::<
                RecordV,
            >::empty());
        }
        match execution_mode {
            VmExecutionMode::OneTx => {
                match self.system_env.execution_mode {
                    TxExecutionMode::VerifyExecute => self.vm.execute_next_tx(
                        self.system_env.default_validation_computational_gas_limit,
                        false,
                    ),
                    TxExecutionMode::EstimateFee | TxExecutionMode::EthCall => self.vm
                        .execute_till_block_end(BootloaderJobType::TransactionExecution),
                }
            },
            VmExecutionMode::Batch => vstd::pervasive::unreached(),
            VmExecutionMode::Bootloader => self.vm.execute_block_tip(),
        }
    }

    fn get_bootloader_memory(&self) -> (r: BootloaderMemory) {
        let r: BootloaderMemory = Vec::new();
        proof {
            assert(r@ =~= Seq::<(usize, u64)>::empty());
        }
        r
    }

    fn get_last_tx_compressed_bytecodes(&self) -> (r: Vec<CompressedBytecodeInfo>) {
        clone_records(&self.last_tx_compressed_bytecodes)
    }

    fn start_new_l2_block(&mut self, l2_block_env: L2BlockEnv) {
        // This version has no L2-block concept: a true no-op.
    }

    fn get_current_execution_state(&self) -> (r: CurrentExecutionState) {
        if self.vm.is_finished() {
            CurrentExecutionState {
                events: self.vm.events_snapshot(),
                used_contract_hashes: self.vm.known_snapshot(),
            }
        } else {
            vstd::pervasive::unreached()
        }
    }

    fn execute_transaction_with_bytecode_compression(
        &mut self,
        tx: Transaction,
        with_compression: bool,
    ) -> (r: Result<VmExecutionResultAndLogs, BytecodeCompressionError>) {
        let tracer: NoTracers = Default::default();
        self.inspect_transaction_with_bytecode_compression(tracer, tx, with_compression)
    }

    fn inspect_transaction_with_bytecode_compression(
        &mut self,
        tracer: NoTracers,
        tx: Transaction,
        with_compression: bool,
    ) -> (r: Result<VmExecutionResultAndLogs, BytecodeCompressionError>) {
        let ghost txv = tx@;
        let ghost pre = self@;
        let records = if with_compression {
            match &tx.factory_deps {
                Some(deps) => {
                    let planned = self.vm.plan_for(deps);
                    proof {
                        assert(txv.factory_deps == deps.deep_view());
                        assert(records_view(planned@) == planned_records(txv, pre.engine.known));
                    }
                    planned
                },
                None => {
                    let r: Vec<CompressedBytecodeInfo> = Vec::new();
                    proof {
                        assert(txv.factory_deps =~= Seq::<Seq<u8>>::empty());
                        assert(pending_codes(txv.factory_deps, pre.engine.known.to_set())
                            =~= Seq::<Seq<u8>>::empty());
                        assert(records_view(r@) =~= planned_records(txv, pre.engine.known));
                    }
                    r
                },
            }
        } else {
            let r: Vec<CompressedBytecodeInfo> = Vec::new();
            proof {
                assert(records_view(r@) =~= Seq::<RecordV>::empty());
            }
            r
        };
        let ghost records_v = records_view(records@);
        proof {
            assert(records_v == if with_compression {
                planned_records(txv, pre.engine.known)
            } else {
                Seq::<RecordV>::empty()
            });
        }
        self.last_tx_compressed_bytecodes = clone_records(&records);
        self.vm.push_entry(tx, records);
        proof {
            assert(self@.engine == (EngineV {
                pending: pre.engine.pending.push(EntryV { tx: txv, records: records_v }),
                ..pre.engine
            }));
        }
        let result = self.vm.execute_next_tx(
            self.system_env.default_validation_computational_gas_limit,
            false,
        );
        let ghost mid = self@;
        let mut failed = false;
        let mut j: usize = 0;
        while j < self.last_tx_compressed_bytecodes.len()
            invariant
                j <= self.last_tx_compressed_bytecodes@.len(),
                self@ == mid,
                self.wf_spec(),
                records_view(self.last_tx_compressed_bytecodes@) == records_v,
                records_v.len() == self.last_tx_compressed_bytecodes@.len(),
                failed == exists|k: int|
                    0 <= k < j && !mid.engine.known.to_set().contains(
                        (#[trigger] records_v[k]).hash,
                    ),
            decreases self.last_tx_compressed_bytecodes@.len() - j,
        {
            let known = self.vm.is_bytecode_known(
                self.last_tx_compressed_bytecodes[j].bytecode_hash,
            );
            proof {
                assert(records_view(self.last_tx_compressed_bytecodes@)[j as int]
                    == self.last_tx_compressed_bytecodes@[j as int]@);
            }
            if !known {
                failed = true;
            }
            j = j + 1;
            proof {
                if failed {
                    if !known {
                        assert(!mid.engine.known.to_set().contains(records_v[j - 1].hash));
                    }
                }
            }
        }
        let r: Result<VmExecutionResultAndLogs, BytecodeCompressionError> = if failed {
            Err(BytecodeCompressionError::BytecodeCompressionFailed)
        } else {
            Ok(result)
        };
        proof {
            let ghost records = records_for(txv, pre.engine.known, with_compression);
            let ghost executed = step_obs(EngineV {
                pending: pre.engine.pending.push(EntryV { tx: txv, records }),
                ..pre.engine
            });
            if !failed {
                assert forall|k: int| 0 <= k < records.len() implies executed.known.to_set()
                    .contains((#[trigger] records[k]).hash) by {
                    assert(records_v[k] == records[k]);
                    if !mid.engine.known.to_set().contains(records_v[k].hash) {
                        assert(false);
                    }
                }
            }
        }
        r
    }

    fn record_vm_memory_metrics(&self) -> (r: VmMemoryMetrics) {
        let hist = H::enabled();
        let ev = self.vm.event_sink_size();
        let mem = self.vm.memory_size();
        let dec = self.vm.decommitter_size();
        let sto = self.vm.storage_size();
        VmMemoryMetrics {
            event_sink_inner: ev,
            event_sink_history: if hist {
                ev
            } else {
                0
            },
            memory_inner: mem,
            memory_history: if hist {
                mem
            } else {
                0
            },
            decommittment_processor_inner: dec,
            decommittment_processor_history: if hist {
                dec
            } else {
                0
            },
            storage_inner: sto,
            storage_history: if hist {
                sto
            } else {
                0
            },
        }
    }

    fn finish_batch(&mut self) -> (r: FinishedL1Batch) {
        let result = self.vm.execute_till_block_end(BootloaderJobType::BlockPostprocessing);
        let state = CurrentExecutionState {
            events: self.vm.events_snapshot(),
            used_contract_hashes: self.vm.known_snapshot(),
        };
        FinishedL1Batch { block_tip_execution_result: result, final_execution_state: state }
    }
}

impl VmInterfaceHistoryEnabled for Vm<HistoryEnabled> {
    /// A snapshot of this version captures the engine's observable state.
    type StateModel = EngineV;

    open spec fn current_state(&self) -> EngineV {
        self@.engine
    }

    open spec fn snapshot_stack(&self) -> Seq<EngineV> {
        self@.snapshots
    }

    fn make_snapshot(&mut self)
        ensures
            final(self)@ == (VmV {
                snapshots: old(self)@.snapshots.push(old(self)@.engine),
                ..old(self)@
            }),
    {
        self.vm.save_current_vm_as_snapshot();
    }

    fn rollback_to_the_latest_snapshot(&mut self)
        ensures
            final(self)@ == (VmV {
                engine: old(self)@.snapshots.last(),
                snapshots: old(self)@.snapshots.drop_last(),
                ..old(self)@
            }),
    {
        self.vm.rollback_to_latest_snapshot_popping();
    }

    fn pop_snapshot_no_rollback(&mut self)
        ensures
            final(self)@ == (VmV {
                snapshots: old(self)@.snapshots.drop_last(),
                ..old(self)@
            }),
    {
        self.vm.pop_snapshot_no_rollback();
    }
}

} // verus!
