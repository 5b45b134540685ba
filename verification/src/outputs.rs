//! Output records of the execution contract.
//!
//! Each is populated exactly once per corresponding operation and is
//! immutable once returned to the caller.

use vstd::prelude::*;
use crate::errors::{Halt, RevertReasonV, VmRevertReason};
use crate::transaction::OutcomeKind;

verus! {

/// How one execution step ended: the transaction ran to completion,
/// reverted intentionally, or the interpreter halted abnormally.
#[derive(Clone, PartialEq, Eq, Debug)]
pub enum ExecutionResult {
    Success { output: Vec<u8> },
    Revert { output: VmRevertReason },
    Halt { reason: Halt },
}

/// Spec view of an execution result.
pub ghost struct ExecutionResultV {
    pub kind: OutcomeKind,
    pub output: Seq<u8>,
    pub revert: Option<RevertReasonV>,
    pub reason: Option<Halt>,
}

impl View for ExecutionResult {
    type V = ExecutionResultV;

    open spec fn view(&self) -> ExecutionResultV {
        match self {
            ExecutionResult::Success { output } => ExecutionResultV {
                kind: OutcomeKind::Succeed,
                output: output@,
                revert: None,
                reason: None,
            },
            ExecutionResult::Revert { output } => ExecutionResultV {
                kind: OutcomeKind::Revert,
                output: Seq::empty(),
                revert: Some(output@),
                reason: None,
            },
            ExecutionResult::Halt { reason } => ExecutionResultV {
                kind: OutcomeKind::Halt,
                output: Seq::empty(),
                revert: None,
                reason: Some(*reason),
            },
        }
    }
}

impl ExecutionResult {
    /// Did the step end in anything but success?
    pub open spec fn is_failed_spec(&self) -> bool {
        self@.kind != OutcomeKind::Succeed
    }

    /// Runtime check matching [`ExecutionResult::is_failed_spec`].
    pub fn is_failed(&self) -> (r: bool)
        ensures
            r == self.is_failed_spec(),
    {
        match self {
            ExecutionResult::Success { .. } => false,
            _ => true,
        }
    }
}

/// The logs one execution step produced: the hashes of the events emitted.
#[derive(Clone, PartialEq, Eq, Debug)]
pub struct VmExecutionLogs {
    pub events: Vec<u64>,
}

/// Size figures of one execution step.
#[derive(Clone, Copy, PartialEq, Eq, Structural, Debug)]
pub struct VmExecutionStatistics {
    pub cycles_used: usize,
    pub gas_used: u64,
    pub computational_gas_used: u32,
}

/// Refunds granted during one execution step.
#[derive(Clone, Copy, PartialEq, Eq, Structural, Debug)]
pub struct Refunds {
    pub gas_refunded: u64,
    pub operator_suggested_refund: u64,
}

/// The full outcome of one `inspect`/`execute` call.
#[derive(Clone, PartialEq, Eq, Debug)]
pub struct VmExecutionResultAndLogs {
    pub result: ExecutionResult,
    pub logs: VmExecutionLogs,
    pub statistics: VmExecutionStatistics,
    pub refunds: Refunds,
}

/// Spec view of a full call outcome.
pub ghost struct VmExecutionResultV {
    pub result: ExecutionResultV,
    pub events: Seq<u64>,
    pub statistics: VmExecutionStatistics,
    pub refunds: Refunds,
}

impl View for VmExecutionResultAndLogs {
    type V = VmExecutionResultV;

    open spec fn view(&self) -> VmExecutionResultV {
        VmExecutionResultV {
            result: self.result@,
            events: self.logs.events@,
            statistics: self.statistics,
            refunds: self.refunds,
        }
    }
}

/// Aggregate execution data of a batch, well-defined once the batch has
/// been driven far enough (in the oldest engine version, only after
/// `finish_batch`).
#[derive(Clone, PartialEq, Eq, Debug)]
pub struct CurrentExecutionState {
    pub events: Vec<u64>,
    pub used_contract_hashes: Vec<u64>,
}

/// Spec view of the aggregate execution state.
pub ghost struct CurrentExecutionStateV {
    pub events: Seq<u64>,
    pub used_contract_hashes: Seq<u64>,
}

impl View for CurrentExecutionState {
    type V = CurrentExecutionStateV;

    open spec fn view(&self) -> CurrentExecutionStateV {
        CurrentExecutionStateV {
            events: self.events@,
            used_contract_hashes: self.used_contract_hashes@,
        }
    }
}

/// The terminal result of a batch.
#[derive(Clone, PartialEq, Eq, Debug)]
pub struct FinishedL1Batch {
    pub block_tip_execution_result: VmExecutionResultAndLogs,
    pub final_execution_state: CurrentExecutionState,
}

/// Spec view of a finished batch.
pub ghost struct FinishedL1BatchV {
    pub block_tip_execution_result: VmExecutionResultV,
    pub final_execution_state: CurrentExecutionStateV,
}

impl View for FinishedL1Batch {
    type V = FinishedL1BatchV;

    open spec fn view(&self) -> FinishedL1BatchV {
        FinishedL1BatchV {
            block_tip_execution_result: self.block_tip_execution_result@,
            final_execution_state: self.final_execution_state@,
        }
    }
}

/// Current-size and history-size figures of the engine's major internal
/// subsystems. History sizes are zero for a history-disabled instance.
#[derive(Clone, Copy, PartialEq, Eq, Structural, Debug)]
pub struct VmMemoryMetrics {
    pub event_sink_inner: usize,
    pub event_sink_history: usize,
    pub memory_inner: usize,
    pub memory_history: usize,
    pub decommittment_processor_inner: usize,
    pub decommittment_processor_history: usize,
    pub storage_inner: usize,
    pub storage_history: usize,
}

/// The ordered bootloader memory cells representing pending or serialized
/// transactions, for introspection only.
pub type BootloaderMemory = Vec<(usize, u64)>;

} // verus!
