//! Immutable execution context for one batch.
//!
//! A `L1BatchEnv` / `SystemEnv` pair is handed to a Vm at construction and is
//! never mutated afterwards; it fixes block properties, gas limits and the
//! execution-mode policy for the whole batch.

use vstd::prelude::*;

verus! {

/// Execution-mode policy for the transactions of a batch: full verification
/// and execution, or one of the simulation policies with different gas
/// accounting and no validation path.
#[derive(Clone, Copy, PartialEq, Eq, Structural, Debug)]
pub enum TxExecutionMode {
    VerifyExecute,
    EstimateFee,
    EthCall,
}

/// Which unit of work one `inspect`/`execute` call drives.
#[derive(Clone, Copy, PartialEq, Eq, Structural, Debug)]
pub enum VmExecutionMode {
    /// Execute exactly the next pending transaction.
    OneTx,
    /// Execute all remaining pending work.
    Batch,
    /// Advance the bootloader program to its next natural boundary.
    Bootloader,
}

/// Block properties of the batch being executed.
#[derive(Clone, Copy, PartialEq, Eq, Structural, Debug)]
pub struct L1BatchEnv {
    pub number: u64,
    pub timestamp: u64,
    pub l1_gas_price: u64,
    pub fair_l2_gas_price: u64,
}

/// Content hashes of the base system contracts an engine boots with.
#[derive(Clone, Copy, PartialEq, Eq, Structural, Debug)]
pub struct BaseSystemContractHashes {
    pub bootloader: u64,
    pub default_aa: u64,
}

/// System-wide context for one batch: the execution-mode policy, gas limits
/// and the base system contracts.
#[derive(Clone, Copy, PartialEq, Eq, Structural, Debug)]
pub struct SystemEnv {
    pub execution_mode: TxExecutionMode,
    pub default_validation_computational_gas_limit: u32,
    pub gas_limit: u32,
    pub base_system_smart_contracts: BaseSystemContractHashes,
}

/// An L2-block boundary signal. Engine versions without the L2-block concept
/// treat it as a true no-op.
#[derive(Clone, Copy, PartialEq, Eq, Structural, Debug)]
pub struct L2BlockEnv {
    pub number: u64,
    pub timestamp: u64,
}

} // verus!
