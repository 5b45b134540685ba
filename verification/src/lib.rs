//! Version-unification layer for a multi-version transaction execution engine.
//!
//! Callers drive transaction execution through one stable contract
//! ([`interface::VmInterface`]) regardless of which engine version is active
//! for a batch. The layer consists of the unified execution contract, the
//! composite tracer dispatcher that fans instrumentation hooks across an
//! interpretation loop, the cross-version tracer projection, one adapter per
//! engine version, and the bytecode-dependency compression protocol run
//! around each transaction.

pub mod bytecode;
pub mod engine;
pub mod env;
pub mod errors;
pub mod history;
pub mod interface;
pub mod legacy;
pub mod outputs;
pub mod storage;
pub mod tracers;
pub mod transaction;
pub mod virtual_blocks;

pub use bytecode::{hash_bytecode, CompressedBytecodeInfo};
pub use env::{L1BatchEnv, L2BlockEnv, SystemEnv, TxExecutionMode, VmExecutionMode};
pub use errors::{BytecodeCompressionError, Halt, TxRevertReason, VmRevertReason};
pub use history::{HistoryDisabled, HistoryEnabled, HistoryMode};
pub use interface::{VmInterface, VmInterfaceHistoryEnabled};
pub use outputs::{
    BootloaderMemory, CurrentExecutionState, ExecutionResult, FinishedL1Batch,
    VmExecutionResultAndLogs, VmExecutionStatistics, VmMemoryMetrics,
};
pub use storage::StorageOracle;
pub use tracers::{CallTracer, MultiVmTracer};
pub use transaction::{Transaction, TxOutcome};
