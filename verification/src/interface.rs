//! The unified execution contract.
//!
//! Every engine version implements [`VmInterface`] so that callers can drive
//! transaction execution through one stable surface. Per-version behavioral
//! divergences — what is supported, what is a no-op, what must fail loudly —
//! are encoded in each implementation's capability spec functions
//! (`inspect_pre`, `exec_state_pre`, ...): the single source of truth that
//! callers must satisfy rather than probe around.
//!
//! [`VmInterfaceHistoryEnabled`] is the capability-gated extension: the
//! snapshot method group exists only on history-enabled instances, and its
//! contracts state the strict-LIFO snapshot discipline once for every
//! implementation.

use vstd::prelude::*;
use crate::bytecode::{records_view, CompressedBytecodeInfo, RecordV};
use crate::env::{L1BatchEnv, L2BlockEnv, SystemEnv, VmExecutionMode};
use crate::errors::BytecodeCompressionError;
use crate::history::{HistoryEnabled, HistoryMode};
use crate::outputs::{
    BootloaderMemory, CurrentExecutionState, FinishedL1Batch, VmExecutionResultAndLogs,
    VmMemoryMetrics,
};
use crate::storage::StorageOracle;
use crate::transaction::{Transaction, TxV};

verus! {

/// The operation set every engine version must implement.
pub trait VmInterface<H: HistoryMode>: Sized {
    /// The tracer collection this version accepts. Versions without native
    /// tracer support use an empty placeholder.
    type TracerDispatcher: Default;

    /// Internal validity of the instance; established by `new` and
    /// preserved by every operation.
    spec fn wf(&self) -> bool;

    /// The pending transaction queue (FIFO), as views.
    spec fn pending_txs(&self) -> Seq<TxV>;

    /// The value `Default::default()` produces for this version's
    /// dispatcher type.
    spec fn default_dispatcher_spec() -> Self::TracerDispatcher;

    /// What construction produces from the batch inputs and the storage's
    /// known-bytecode registrations.
    spec fn new_post(
        batch_env: L1BatchEnv,
        system_env: SystemEnv,
        storage_known: Seq<u64>,
        vm: Self,
    ) -> bool;

    /// When a transaction may be pushed.
    spec fn push_pre(&self) -> bool;

    /// What pushing a transaction does.
    spec fn push_post(pre: Self, tx: Transaction, post: Self) -> bool;

    /// Capability table: when an `inspect`/`execute` call in this mode is
    /// permitted in the current state.
    spec fn inspect_pre(&self, mode: VmExecutionMode) -> bool;

    /// What an `inspect` call does and returns.
    spec fn inspect_post(
        pre: Self,
        dispatcher: Self::TracerDispatcher,
        mode: VmExecutionMode,
        post: Self,
        r: VmExecutionResultAndLogs,
    ) -> bool;

    /// The bootloader memory this version exposes for introspection.
    spec fn bootloader_memory_spec(&self) -> Seq<(usize, u64)>;

    /// The compression records of the most recently executed transaction.
    spec fn last_records_spec(&self) -> Seq<RecordV>;

    /// What an L2-block boundary signal does (for versions without the
    /// concept: nothing).
    spec fn l2_block_post(pre: Self, l2_block_env: L2BlockEnv, post: Self) -> bool;

    /// Capability table: when the aggregate execution state is
    /// well-defined. Calling earlier is a fatal caller error.
    spec fn exec_state_pre(&self) -> bool;

    /// What the aggregate execution state holds.
    spec fn exec_state_post(&self, r: CurrentExecutionState) -> bool;

    /// When a transaction may be executed through the compression protocol.
    spec fn compression_exec_pre(&self, tx: Transaction, with_compression: bool) -> bool;

    /// What executing a transaction through the compression protocol does:
    /// dependency dedup, submission, execution, and the post-execution
    /// verification whose failure is reported as a compression failure.
    spec fn compression_exec_post(
        pre: Self,
        dispatcher: Self::TracerDispatcher,
        tx: Transaction,
        with_compression: bool,
        post: Self,
        r: Result<VmExecutionResultAndLogs, BytecodeCompressionError>,
    ) -> bool;

    /// What the subsystem size report holds.
    spec fn metrics_post(&self, r: VmMemoryMetrics) -> bool;

    /// When the batch may be finished (once; finishing twice is a caller
    /// error).
    spec fn finish_pre(&self) -> bool;

    /// What finishing the batch does and returns.
    spec fn finish_post(pre: Self, post: Self, r: FinishedL1Batch) -> bool;

    /// Allocates a fresh instance bound to one batch. Does not mutate the
    /// storage beyond engine-internal bookkeeping.
    fn new(batch_env: L1BatchEnv, system_env: SystemEnv, storage: StorageOracle) -> (vm: Self)
        requires
            storage.wf(),
        ensures
            vm.wf(),
            Self::new_post(batch_env, system_env, storage@, vm),
            vm.pending_txs() == Seq::<TxV>::empty(),
    ;

    /// Appends to the pending queue (FIFO); no execution occurs.
    fn push_transaction(&mut self, tx: Transaction)
        requires
            old(self).wf(),
            old(self).push_pre(),
        ensures
            final(self).wf(),
            Self::push_post(*old(self), tx, *final(self)),
            final(self).pending_txs() == old(self).pending_txs().push(tx@),
    ;

    /// Convenience equal to `inspect` with the default dispatcher — an
    /// exact behavioral equivalence, for every mode and every version.
    fn execute(&mut self, execution_mode: VmExecutionMode) -> (r: VmExecutionResultAndLogs)
        requires
            old(self).wf(),
            old(self).inspect_pre(execution_mode),
        ensures
            final(self).wf(),
            Self::inspect_post(
                *old(self),
                Self::default_dispatcher_spec(),
                execution_mode,
                *final(self),
                r,
            ),
    ;

    /// The core execution primitive: drives the next transaction, the
    /// remaining batch, or the bootloader, with custom tracers.
    fn inspect(&mut self, dispatcher: Self::TracerDispatcher, execution_mode: VmExecutionMode) -> (r:
        VmExecutionResultAndLogs)
        requires
            old(self).wf(),
            old(self).inspect_pre(execution_mode),
        ensures
            final(self).wf(),
            Self::inspect_post(*old(self), dispatcher, execution_mode, *final(self), r),
    ;

    /// The current ordered queue of bootloader memory cells, for
    /// introspection only.
    fn get_bootloader_memory(&self) -> (r: BootloaderMemory)
        ensures
            r@ == self.bootloader_memory_spec(),
    ;

    /// Compression records from the most recently executed transaction
    /// only; empty before any transaction executes.
    fn get_last_tx_compressed_bytecodes(&self) -> (r: Vec<CompressedBytecodeInfo>)
        ensures
            records_view(r@) == self.last_records_spec(),
    ;

    /// Signals an L2-block boundary; versions without the concept treat it
    /// as a true no-op.
    fn start_new_l2_block(&mut self, l2_block_env: L2BlockEnv)
        requires
            old(self).wf(),
        ensures
            final(self).wf(),
            Self::l2_block_post(*old(self), l2_block_env, *final(self)),
    ;

    /// The aggregate execution state; only valid once `exec_state_pre`
    /// holds — calling earlier is a fatal caller error, never a silent
    /// default.
    fn get_current_execution_state(&self) -> (r: CurrentExecutionState)
        requires
            self.wf(),
            self.exec_state_pre(),
        ensures
            self.exec_state_post(r),
    ;

    /// Convenience equal to `inspect_transaction_with_bytecode_compression`
    /// with the default dispatcher.
    fn execute_transaction_with_bytecode_compression(
        &mut self,
        tx: Transaction,
        with_compression: bool,
    ) -> (r: Result<VmExecutionResultAndLogs, BytecodeCompressionError>)
        requires
            old(self).wf(),
            old(self).compression_exec_pre(tx, with_compression),
        ensures
            final(self).wf(),
            Self::compression_exec_post(
                *old(self),
                Self::default_dispatcher_spec(),
                tx,
                with_compression,
                *final(self),
                r,
            ),
    ;

    /// Pushes the transaction's dependencies through the compressor,
    /// submits and executes the transaction, and verifies afterwards that
    /// every pending dependency became known; reports a compression
    /// failure otherwise, with no partial success.
    fn inspect_transaction_with_bytecode_compression(
        &mut self,
        tracer: Self::TracerDispatcher,
        tx: Transaction,
        with_compression: bool,
    ) -> (r: Result<VmExecutionResultAndLogs, BytecodeCompressionError>)
        requires
            old(self).wf(),
            old(self).compression_exec_pre(tx, with_compression),
        ensures
            final(self).wf(),
            Self::compression_exec_post(
                *old(self),
                tracer,
                tx,
                with_compression,
                *final(self),
                r,
            ),
    ;

    /// Current-size and history-size figures for each major internal
    /// subsystem; history sizes are zero for a history-disabled instance.
    fn record_vm_memory_metrics(&self) -> (r: VmMemoryMetrics)
        ensures
            self.metrics_post(r),
            !H::enabled_spec() ==> r.event_sink_history == 0 && r.memory_history == 0
                && r.decommittment_processor_history == 0 && r.storage_history == 0,
    ;

    /// Terminal operation: finalizes and returns the aggregate batch
    /// result. Calling twice is a caller error.
    fn finish_batch(&mut self) -> (r: FinishedL1Batch)
        requires
            old(self).wf(),
            old(self).finish_pre(),
        ensures
            final(self).wf(),
            Self::finish_post(*old(self), *final(self), r),
    ;
}

/// The capability-gated snapshot extension: defined only for
/// history-enabled instances, so the method group does not exist on a
/// history-disabled type. Snapshots form a strict stack: only the most
/// recently pushed snapshot may ever be consumed.
pub trait VmInterfaceHistoryEnabled: VmInterface<HistoryEnabled> {
    /// The model of what one snapshot captures and a rollback restores.
    type StateModel;

    /// The current restorable state.
    spec fn current_state(&self) -> Self::StateModel;

    /// The snapshot stack, oldest first.
    spec fn snapshot_stack(&self) -> Seq<Self::StateModel>;

    /// Creates a snapshot of the current state and pushes it onto the
    /// stack; the current state is unchanged.
    fn make_snapshot(&mut self)
        requires
            old(self).wf(),
        ensures
            final(self).wf(),
            final(self).current_state() == old(self).current_state(),
            final(self).snapshot_stack() == old(self).snapshot_stack().push(
                old(self).current_state(),
            ),
            final(self).pending_txs() == old(self).pending_txs(),
    ;

    /// Rolls the state back to the latest snapshot and destroys exactly
    /// that snapshot.
    fn rollback_to_the_latest_snapshot(&mut self)
        requires
            old(self).wf(),
            old(self).snapshot_stack().len() > 0,
        ensures
            final(self).wf(),
            final(self).current_state() == old(self).snapshot_stack().last(),
            final(self).snapshot_stack() == old(self).snapshot_stack().drop_last(),
    ;

    /// Pops the latest snapshot and destroys it without restoring; the
    /// current state is unchanged.
    fn pop_snapshot_no_rollback(&mut self)
        requires
            old(self).wf(),
            old(self).snapshot_stack().len() > 0,
        ensures
            final(self).wf(),
            final(self).current_state() == old(self).current_state(),
            final(self).snapshot_stack() == old(self).snapshot_stack().drop_last(),
            final(self).pending_txs() == old(self).pending_txs(),
    ;
}

/// Snapshot LIFO law, first half: `make_snapshot(); push(tx);
/// rollback_to_latest_snapshot()` restores the state to exactly the
/// pre-push condition and leaves the snapshot stack as it was before the
/// snapshot was taken. The hypotheses are the contracts of the three calls.
pub proof fn lemma_snapshot_rollback_restores<V: VmInterfaceHistoryEnabled>(
    v0: V,
    v1: V,
    v2: V,
    v3: V,
    tx: Transaction,
)
    requires
        // make_snapshot: v0 -> v1
        v1.current_state() == v0.current_state(),
        v1.snapshot_stack() == v0.snapshot_stack().push(v0.current_state()),
        // push_transaction: v1 -> v2; pushing touches the queue, never the stack
        v2.snapshot_stack() == v1.snapshot_stack(),
        v2.pending_txs() == v1.pending_txs().push(tx@),
        // rollback_to_the_latest_snapshot: v2 -> v3
        v2.snapshot_stack().len() > 0,
        v3.current_state() == v2.snapshot_stack().last(),
        v3.snapshot_stack() == v2.snapshot_stack().drop_last(),
    ensures
        v3.current_state() == v0.current_state(),
        v3.snapshot_stack() == v0.snapshot_stack(),
{
    assert(v2.snapshot_stack().last() == v0.current_state());
    assert(v0.snapshot_stack().push(v0.current_state()).drop_last() =~= v0.snapshot_stack());
}

/// Snapshot LIFO law, second half: `make_snapshot(); make_snapshot();
/// pop_snapshot_no_rollback()` removes only the most recent snapshot,
/// leaving the earlier snapshot intact and the current state unchanged.
/// The hypotheses are the contracts of the three calls.
pub proof fn lemma_pop_discards_only_latest<V: VmInterfaceHistoryEnabled>(v0: V, v1: V, v2: V, v3: V)
    requires
        // make_snapshot: v0 -> v1
        v1.current_state() == v0.current_state(),
        v1.snapshot_stack() == v0.snapshot_stack().push(v0.current_state()),
        // make_snapshot: v1 -> v2
        v2.current_state() == v1.current_state(),
        v2.snapshot_stack() == v1.snapshot_stack().push(v1.current_state()),
        // pop_snapshot_no_rollback: v2 -> v3
        v2.snapshot_stack().len() > 0,
        v3.current_state() == v2.current_state(),
        v3.snapshot_stack() == v2.snapshot_stack().drop_last(),
    ensures
        v3.current_state() == v0.current_state(),
        v3.snapshot_stack() == v0.snapshot_stack().push(v0.current_state()),
        v3.snapshot_stack().len() > 0,
        v3.snapshot_stack().last() == v0.current_state(),
{
    assert(v1.snapshot_stack().push(v1.current_state()).drop_last() =~= v1.snapshot_stack());
}

} // verus!
