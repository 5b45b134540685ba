use multivm::env::{
    BaseSystemContractHashes, L1BatchEnv, L2BlockEnv, SystemEnv, TxExecutionMode, VmExecutionMode,
};
use multivm::errors::{BytecodeCompressionError, Halt, VmRevertReason};
use multivm::hash_bytecode;
use multivm::history::{HistoryDisabled, HistoryEnabled};
use multivm::interface::{VmInterface, VmInterfaceHistoryEnabled};
use multivm::legacy::{NoTracers, Vm};
use multivm::outputs::ExecutionResult;
use multivm::storage::StorageOracle;
use multivm::transaction::{Transaction, TxOutcome};

fn batch_env() -> L1BatchEnv {
    L1BatchEnv { number: 7, timestamp: 1000, l1_gas_price: 10, fair_l2_gas_price: 2 }
}

fn system_env(mode: TxExecutionMode) -> SystemEnv {
    SystemEnv {
        execution_mode: mode,
        default_validation_computational_gas_limit: 300_000,
        gas_limit: 1_000_000,
        base_system_smart_contracts: BaseSystemContractHashes { bootloader: 11, default_aa: 22 },
    }
}

fn ok_tx(hash: u64) -> Transaction {
    Transaction { hash, factory_deps: None, outcome: TxOutcome::Succeed }
}

fn fresh_vm(mode: TxExecutionMode) -> Vm<HistoryEnabled> {
    Vm::new(batch_env(), system_env(mode), StorageOracle::new())
}

#[test]
fn three_transactions_one_by_one() {
    // push 3 transactions; OneTx three times: three distinct, non-empty
    // results; the pending queue is empty afterwards; the last-transaction
    // compression records reflect only the third call (which had none)
    let mut vm = fresh_vm(TxExecutionMode::VerifyExecute);
    vm.push_transaction(ok_tx(101));
    vm.push_transaction(ok_tx(102));
    vm.push_transaction(ok_tx(103));
    let r1 = vm.execute(VmExecutionMode::OneTx);
    let r2 = vm.execute(VmExecutionMode::OneTx);
    let r3 = vm.execute(VmExecutionMode::OneTx);
    assert_eq!(r1.logs.events, vec![101]);
    assert_eq!(r2.logs.events, vec![102]);
    assert_eq!(r3.logs.events, vec![103]);
    assert!(r1 != r2 && r2 != r3 && r1 != r3);
    assert!(matches!(r1.result, ExecutionResult::Success { .. }));
    let metrics = vm.record_vm_memory_metrics();
    assert_eq!(metrics.memory_inner, 0); // queue is empty
    assert_eq!(metrics.event_sink_inner, 3);
    assert_eq!(vm.get_last_tx_compressed_bytecodes().len(), 0);
}

#[test]
fn execute_equals_inspect_with_default_dispatcher() {
    // the convenience wrapper and the core primitive agree, mode by mode
    let mut vm1 = fresh_vm(TxExecutionMode::VerifyExecute);
    let mut vm2 = fresh_vm(TxExecutionMode::VerifyExecute);
    vm1.push_transaction(ok_tx(5));
    vm2.push_transaction(ok_tx(5));
    let r1 = vm1.execute(VmExecutionMode::OneTx);
    let r2 = vm2.inspect(NoTracers, VmExecutionMode::OneTx);
    assert_eq!(r1, r2);

    let mut vm3 = fresh_vm(TxExecutionMode::EthCall);
    let mut vm4 = fresh_vm(TxExecutionMode::EthCall);
    vm3.push_transaction(ok_tx(6));
    vm4.push_transaction(ok_tx(6));
    let r3 = vm3.execute(VmExecutionMode::OneTx);
    let r4 = vm4.inspect(NoTracers, VmExecutionMode::OneTx);
    assert_eq!(r3, r4);

    let mut vm5 = fresh_vm(TxExecutionMode::VerifyExecute);
    let mut vm6 = fresh_vm(TxExecutionMode::VerifyExecute);
    let r5 = vm5.execute(VmExecutionMode::Bootloader);
    let r6 = vm6.inspect(NoTracers, VmExecutionMode::Bootloader);
    assert_eq!(r5, r6);
}

#[test]
fn simulation_policy_runs_to_end_of_job() {
    let mut vm = fresh_vm(TxExecutionMode::EstimateFee);
    vm.push_transaction(ok_tx(1));
    vm.push_transaction(ok_tx(2));
    let r = vm.execute(VmExecutionMode::OneTx);
    assert!(matches!(r.result, ExecutionResult::Success { .. }));
    assert_eq!(r.logs.events, vec![1, 2]);
    assert_eq!(r.statistics.cycles_used, 2);
}

#[test]
fn halted_transaction_reports_its_reason() {
    let mut vm = fresh_vm(TxExecutionMode::VerifyExecute);
    vm.push_transaction(Transaction {
        hash: 9,
        factory_deps: None,
        outcome: TxOutcome::Halt { reason: Halt::BootloaderOutOfGas },
    });
    let r = vm.execute(VmExecutionMode::OneTx);
    assert!(matches!(r.result, ExecutionResult::Halt { reason: Halt::BootloaderOutOfGas }));
}

#[test]
fn reverted_transaction_decodes_its_payload() {
    // an encoded error with message "hi"
    let mut payload = vec![0x08u8, 0xc3, 0x79, 0xa0];
    let mut offset_word = vec![0u8; 32];
    offset_word[31] = 32;
    payload.extend_from_slice(&offset_word);
    let mut len_word = vec![0u8; 32];
    len_word[31] = 2;
    payload.extend_from_slice(&len_word);
    payload.extend_from_slice(b"hi");
    let mut vm = fresh_vm(TxExecutionMode::VerifyExecute);
    vm.push_transaction(Transaction {
        hash: 9,
        factory_deps: None,
        outcome: TxOutcome::Revert { payload },
    });
    let r = vm.execute(VmExecutionMode::OneTx);
    match r.result {
        ExecutionResult::Revert { output } => {
            assert_eq!(output, VmRevertReason::General { msg: b"hi".to_vec() });
        },
        other => panic!("expected a revert, got {:?}", other),
    }
}

#[test]
fn reverted_transaction_with_garbage_payload_degrades() {
    let payload = vec![0xde, 0xad, 0xbe, 0xef, 0x01];
    let mut vm = fresh_vm(TxExecutionMode::VerifyExecute);
    vm.push_transaction(Transaction {
        hash: 9,
        factory_deps: None,
        outcome: TxOutcome::Revert { payload: payload.clone() },
    });
    let r = vm.execute(VmExecutionMode::OneTx);
    match r.result {
        ExecutionResult::Revert { output } => {
            assert_eq!(
                output,
                VmRevertReason::Unknown {
                    function_selector: vec![0xde, 0xad, 0xbe, 0xef],
                    data: payload,
                },
            );
        },
        other => panic!("expected a revert, got {:?}", other),
    }
}

#[test]
fn compression_failure_is_reported_with_no_partial_success() {
    // dependency list [a, a, b], neither known: exactly 2 records; b cannot
    // be compressed, so it is never registered, and the call fails
    let a = vec![0u8; 32];
    let b = vec![1u8, 2, 3];
    let mut vm = fresh_vm(TxExecutionMode::VerifyExecute);
    let tx = Transaction {
        hash: 77,
        factory_deps: Some(vec![a.clone(), a.clone(), b.clone()]),
        outcome: TxOutcome::Succeed,
    };
    let r = vm.execute_transaction_with_bytecode_compression(tx, true);
    assert_eq!(r.unwrap_err(), BytecodeCompressionError::BytecodeCompressionFailed);
    let records = vm.get_last_tx_compressed_bytecodes();
    assert_eq!(records.len(), 2);
    assert_eq!(records[0].bytecode_hash, hash_bytecode(&a));
    assert!(records[0].compressed.is_some());
    assert_eq!(records[1].bytecode_hash, hash_bytecode(&b));
    assert!(records[1].compressed.is_none());
}

#[test]
fn compression_succeeds_when_every_dependency_registers() {
    let a = vec![0u8; 32];
    let mut vm = fresh_vm(TxExecutionMode::VerifyExecute);
    let tx = Transaction {
        hash: 78,
        factory_deps: Some(vec![a.clone(), a.clone()]),
        outcome: TxOutcome::Succeed,
    };
    let r = vm.execute_transaction_with_bytecode_compression(tx, true);
    let res = r.expect("all dependencies registered");
    assert_eq!(res.logs.events, vec![78]);
    assert_eq!(vm.get_last_tx_compressed_bytecodes().len(), 1);
}

#[test]
fn compression_not_requested_submits_verbatim() {
    let bad = vec![1u8, 2, 3];
    let mut vm = fresh_vm(TxExecutionMode::VerifyExecute);
    let tx = Transaction {
        hash: 79,
        factory_deps: Some(vec![bad]),
        outcome: TxOutcome::Succeed,
    };
    let r = vm.execute_transaction_with_bytecode_compression(tx, false);
    assert!(r.is_ok());
    assert_eq!(vm.get_last_tx_compressed_bytecodes().len(), 0);
}

#[test]
fn failed_transaction_registers_nothing() {
    let a = vec![0u8; 32];
    let mut vm = fresh_vm(TxExecutionMode::VerifyExecute);
    let tx = Transaction {
        hash: 80,
        factory_deps: Some(vec![a]),
        outcome: TxOutcome::Halt { reason: Halt::ValidationFailed },
    };
    let r = vm.execute_transaction_with_bytecode_compression(tx, true);
    assert_eq!(r.unwrap_err(), BytecodeCompressionError::BytecodeCompressionFailed);
}

#[test]
fn finish_batch_exposes_the_aggregate_state() {
    let mut vm = fresh_vm(TxExecutionMode::VerifyExecute);
    vm.push_transaction(ok_tx(1));
    vm.push_transaction(ok_tx(2));
    let finished = vm.finish_batch();
    assert_eq!(finished.final_execution_state.events, vec![1, 2]);
    assert!(matches!(
        finished.block_tip_execution_result.result,
        ExecutionResult::Success { .. }
    ));
    // after finish_batch the aggregate state is well-defined
    let state = vm.get_current_execution_state();
    assert_eq!(state.events, vec![1, 2]);
}

#[test]
fn l2_block_boundary_is_a_true_noop() {
    let mut vm = fresh_vm(TxExecutionMode::VerifyExecute);
    vm.push_transaction(ok_tx(1));
    let before = vm.record_vm_memory_metrics();
    vm.start_new_l2_block(L2BlockEnv { number: 3, timestamp: 2000 });
    let after = vm.record_vm_memory_metrics();
    assert_eq!(before, after);
}

#[test]
fn bootloader_memory_of_oldest_version_is_empty() {
    let vm = fresh_vm(TxExecutionMode::VerifyExecute);
    assert_eq!(vm.get_bootloader_memory().len(), 0);
}

#[test]
fn history_disabled_reports_zero_history() {
    let mut vm: Vm<HistoryDisabled> =
        Vm::new(batch_env(), system_env(TxExecutionMode::VerifyExecute), StorageOracle::new());
    vm.push_transaction(ok_tx(1));
    let m = vm.record_vm_memory_metrics();
    assert_eq!(m.memory_inner, 1);
    assert_eq!(m.event_sink_history, 0);
    assert_eq!(m.memory_history, 0);
    assert_eq!(m.decommittment_processor_history, 0);
    assert_eq!(m.storage_history, 0);
}

#[test]
fn snapshot_rollback_restores_the_pre_push_state() {
    // make_snapshot(); push(tx); rollback_to_the_latest_snapshot()
    let mut vm = fresh_vm(TxExecutionMode::VerifyExecute);
    vm.push_transaction(ok_tx(1));
    let before = vm.record_vm_memory_metrics();
    vm.make_snapshot();
    vm.push_transaction(ok_tx(2));
    assert_eq!(vm.record_vm_memory_metrics().memory_inner, 2);
    vm.rollback_to_the_latest_snapshot();
    let after = vm.record_vm_memory_metrics();
    assert_eq!(before, after);
    // the restored queue still executes the first transaction
    let r = vm.execute(VmExecutionMode::OneTx);
    assert_eq!(r.logs.events, vec![1]);
}

#[test]
fn pop_discards_only_the_latest_snapshot() {
    // make_snapshot(); make_snapshot(); pop_snapshot_no_rollback()
    let mut vm = fresh_vm(TxExecutionMode::VerifyExecute);
    vm.make_snapshot();
    vm.push_transaction(ok_tx(1));
    vm.make_snapshot();
    vm.push_transaction(ok_tx(2));
    let before = vm.record_vm_memory_metrics();
    vm.pop_snapshot_no_rollback();
    // current state unchanged by the pop
    assert_eq!(vm.record_vm_memory_metrics(), before);
    // the earlier snapshot is intact: rolling back restores the empty queue
    vm.rollback_to_the_latest_snapshot();
    assert_eq!(vm.record_vm_memory_metrics().memory_inner, 0);
}

#[test]
fn rollback_restores_registered_bytecodes_too() {
    let a = vec![0u8; 32];
    let mut vm = fresh_vm(TxExecutionMode::VerifyExecute);
    vm.make_snapshot();
    let tx = Transaction {
        hash: 5,
        factory_deps: Some(vec![a.clone()]),
        outcome: TxOutcome::Succeed,
    };
    vm.execute_transaction_with_bytecode_compression(tx, true).expect("registers");
    assert_eq!(vm.record_vm_memory_metrics().storage_inner, 1);
    vm.rollback_to_the_latest_snapshot();
    assert_eq!(vm.record_vm_memory_metrics().storage_inner, 0);
}

#[test]
fn history_enabled_reports_its_history_footprint() {
    let mut vm = fresh_vm(TxExecutionMode::VerifyExecute);
    vm.push_transaction(ok_tx(1));
    vm.push_transaction(ok_tx(2));
    let m = vm.record_vm_memory_metrics();
    assert_eq!(m.memory_inner, 2);
    assert_eq!(m.memory_history, m.memory_inner);
    assert_eq!(m.event_sink_history, m.event_sink_inner);
}

#[test]
fn bootloader_mode_advances_without_a_transaction() {
    let mut vm = fresh_vm(TxExecutionMode::VerifyExecute);
    vm.push_transaction(ok_tx(1));
    let r = vm.execute(VmExecutionMode::Bootloader);
    assert!(matches!(r.result, ExecutionResult::Success { .. }));
    assert_eq!(r.logs.events.len(), 0);
    // the pending transaction is untouched
    assert_eq!(vm.record_vm_memory_metrics().memory_inner, 1);
}
