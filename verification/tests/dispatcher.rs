use multivm::storage::StorageOracle;
use multivm::tracers::TracerDispatcher as MultiDispatcher;
use multivm::virtual_blocks::{
    AfterDecodingData, AfterExecutionData, BeforeExecutionData, BootloaderState, RecordingTracer,
    SimpleMemory, TraceEvent, TracerDispatcher, VmExecutionStopReason, VmLocalStateData, VmState,
    VmTracer,
};

fn local_state() -> VmLocalStateData {
    VmLocalStateData { cycle_number: 4, pc: 17 }
}

fn memory() -> SimpleMemory {
    SimpleMemory { cells_used: 128 }
}

#[test]
fn empty_dispatcher_behaves_like_no_instrumentation() {
    let mut d: TracerDispatcher<RecordingTracer> = Default::default();
    assert!(!d.should_stop_execution());
    // every hook is a no-op with no member to receive anything
    d.before_decoding(local_state(), &memory());
    let mut vm_state = VmState { cycles: 0, gas_left: 100 };
    d.initialize_tracer(&mut vm_state);
    assert_eq!(vm_state, VmState { cycles: 0, gas_left: 100 });
    assert!(!d.should_stop_execution());
    assert_eq!(d.into_members().len(), 0);
}

#[test]
fn every_hook_reaches_every_member_in_order() {
    let members = vec![RecordingTracer::new(), RecordingTracer::new()];
    let mut d = TracerDispatcher::new(members);
    let storage = StorageOracle::new();
    let mut vm_state = VmState { cycles: 0, gas_left: 100 };
    let mut bootloader = BootloaderState { tx_to_execute: 0 };

    d.before_decoding(local_state(), &memory());
    d.after_decoding(local_state(), AfterDecodingData { raw_opcode: 1 }, &memory());
    d.before_execution(local_state(), BeforeExecutionData { raw_opcode: 2 }, &memory(), &storage);
    d.after_execution(local_state(), AfterExecutionData { raw_opcode: 2 }, &memory(), &storage);
    d.initialize_tracer(&mut vm_state);
    d.after_cycle(&mut vm_state, &mut bootloader);
    d.after_vm_execution(&mut vm_state, &bootloader, VmExecutionStopReason::VmFinished);

    let members = d.into_members();
    assert_eq!(members.len(), 2);
    for m in &members {
        assert_eq!(m.hook_count, 7);
        assert_eq!(
            m.last_event,
            Some(TraceEvent::AfterVmExecution { reason: VmExecutionStopReason::VmFinished }),
        );
    }
}

#[test]
fn stop_is_the_or_of_all_members() {
    // all false => false
    let quiet = vec![RecordingTracer::new(), RecordingTracer::new()];
    let d = TracerDispatcher::new(quiet);
    assert!(!d.should_stop_execution());

    // a single true anywhere forces true
    let mut loud = RecordingTracer::new();
    loud.set_stop(true);
    let d2 = TracerDispatcher::new(vec![RecordingTracer::new(), loud]);
    assert!(d2.should_stop_execution());

    let mut first = RecordingTracer::new();
    first.set_stop(true);
    let d3 = TracerDispatcher::new(vec![first, RecordingTracer::new()]);
    assert!(d3.should_stop_execution());
}

#[test]
fn dispatchers_nest() {
    let mut inner_member = RecordingTracer::new();
    inner_member.set_stop(true);
    let inner = TracerDispatcher::new(vec![inner_member]);
    let outer = TracerDispatcher::new(vec![inner]);
    assert!(outer.should_stop_execution());

    let quiet_inner = TracerDispatcher::new(vec![RecordingTracer::new()]);
    let mut outer2 = TracerDispatcher::new(vec![quiet_inner]);
    assert!(!outer2.should_stop_execution());
    // a hook through the outer dispatcher reaches the nested member
    outer2.before_decoding(local_state(), &memory());
    let inners = outer2.into_members();
    let leaves = inners.into_iter().next().unwrap().into_members();
    assert_eq!(leaves[0].hook_count, 1);
    assert_eq!(leaves[0].last_event, Some(TraceEvent::BeforeDecoding { state: local_state() }));
}

#[test]
fn projection_preserves_member_order() {
    let mut stopper = RecordingTracer::new();
    stopper.set_stop(true);
    let handles = vec![stopper, RecordingTracer::new()];
    let multi: MultiDispatcher<RecordingTracer> = MultiDispatcher::from(handles);
    let native: TracerDispatcher<RecordingTracer> = TracerDispatcher::from(multi);
    assert!(native.should_stop_execution());
    let members = native.into_members();
    assert_eq!(members.len(), 2);
    // order preserved: the stop request travels with the first handle
    assert!(members[0].stop);
    assert!(!members[1].stop);
    // a projection starts with an empty observation log
    assert_eq!(members[0].hook_count, 0);
    assert_eq!(members[0].last_event, None);
}

#[test]
fn single_handle_dispatcher_from() {
    let one = RecordingTracer::new();
    let multi: MultiDispatcher<RecordingTracer> = MultiDispatcher::from(one);
    assert_eq!(multi.len(), 1);
    let empty: MultiDispatcher<RecordingTracer> = Default::default();
    assert_eq!(empty.len(), 0);
}
