//! The native tracer layer of the engine version with virtual blocks.
//!
//! The interpretation loop of that engine invokes, on every cycle, the hook
//! set below on whatever tracer it was given. [`TracerDispatcher`] is the
//! composite: it holds an ordered list of member tracers, forwards every
//! hook to every member in registration order with the identical arguments,
//! and answers the stop poll with the logical OR of its members' answers.
//! It implements the same tracer contract itself, so dispatchers nest.
//!
//! The hook delivery a tracer has received is modeled by its ghost
//! `observed` log: every hook appends exactly one [`TraceEvent`].

use vstd::prelude::*;
use crate::outputs::VmExecutionResultAndLogs;
use crate::storage::StorageOracle;

verus! {

/// Interpreter-local state visible to a hook: where the interpretation
/// loop stands.
#[derive(Clone, Copy, PartialEq, Eq, Structural, Debug)]
pub struct VmLocalStateData {
    pub cycle_number: u32,
    pub pc: u16,
}

/// What the decoder produced for the current instruction.
#[derive(Clone, Copy, PartialEq, Eq, Structural, Debug)]
pub struct AfterDecodingData {
    pub raw_opcode: u64,
}

/// What is about to be executed.
#[derive(Clone, Copy, PartialEq, Eq, Structural, Debug)]
pub struct BeforeExecutionData {
    pub raw_opcode: u64,
}

/// What was just executed.
#[derive(Clone, Copy, PartialEq, Eq, Structural, Debug)]
pub struct AfterExecutionData {
    pub raw_opcode: u64,
}

/// The interpreter's working memory, as hooks see it.
#[derive(Clone, Copy, PartialEq, Eq, Structural, Debug)]
pub struct SimpleMemory {
    pub cells_used: usize,
}

/// The full interpreter state handed mutably to lifecycle hooks.
#[derive(Clone, Copy, PartialEq, Eq, Structural, Debug)]
pub struct VmState {
    pub cycles: u64,
    pub gas_left: u64,
}

/// Where the bootloader stands between transactions.
#[derive(Clone, Copy, PartialEq, Eq, Structural, Debug)]
pub struct BootloaderState {
    pub tx_to_execute: usize,
}

/// Why interpretation halted.
#[derive(Clone, Copy, PartialEq, Eq, Structural, Debug)]
pub enum VmExecutionStopReason {
    VmFinished,
    TracerRequestedStop,
}

/// One hook delivery, as recorded in a tracer's observation log. Hooks
/// whose arguments are mutable handles record the delivery alone.
#[derive(Clone, Copy, PartialEq, Eq, Structural, Debug)]
pub enum TraceEvent {
    BeforeDecoding { state: VmLocalStateData },
    AfterDecoding { state: VmLocalStateData, data: AfterDecodingData },
    BeforeExecution { state: VmLocalStateData, data: BeforeExecutionData },
    AfterExecution { state: VmLocalStateData, data: AfterExecutionData },
    Initialize,
    AfterCycle,
    AfterVmExecution { reason: VmExecutionStopReason },
    SaveResults,
}

/// The fixed hook-method capability set a tracer implements. Every hook
/// appends its delivery to the tracer's observation log; the stop poll is
/// pure.
pub trait VmTracer: Sized {
    /// The hook deliveries this tracer has received, oldest first.
    spec fn observed(&self) -> Seq<TraceEvent>;

    /// The tracer's current answer to the stop poll.
    spec fn stop_requested(&self) -> bool;

    /// Called before the current instruction is decoded.
    fn before_decoding(&mut self, state: VmLocalStateData, memory: &SimpleMemory)
        ensures
            final(self).observed() == old(self).observed().push(
                TraceEvent::BeforeDecoding { state },
            ),
    ;

    /// Called after the current instruction is decoded.
    fn after_decoding(&mut self, state: VmLocalStateData, data: AfterDecodingData, memory: &SimpleMemory)
        ensures
            final(self).observed() == old(self).observed().push(
                TraceEvent::AfterDecoding { state, data },
            ),
    ;

    /// Called before the decoded instruction executes; the storage handle
    /// lets the tracer inspect writes as they occur.
    fn before_execution(
        &mut self,
        state: VmLocalStateData,
        data: BeforeExecutionData,
        memory: &SimpleMemory,
        storage: &StorageOracle,
    )
        ensures
            final(self).observed() == old(self).observed().push(
                TraceEvent::BeforeExecution { state, data },
            ),
    ;

    /// Called after the instruction executed; the storage handle lets the
    /// tracer inspect writes as they occur.
    fn after_execution(
        &mut self,
        state: VmLocalStateData,
        data: AfterExecutionData,
        memory: &SimpleMemory,
        storage: &StorageOracle,
    )
        ensures
            final(self).observed() == old(self).observed().push(
                TraceEvent::AfterExecution { state, data },
            ),
    ;

    /// Polled once per cycle; any tracer answering true forces an early
    /// stop.
    fn should_stop_execution(&self) -> (stop: bool)
        ensures
            stop == self.stop_requested(),
    ;

    /// Called once before interpretation begins, with mutable access to
    /// the full interpreter state.
    fn initialize_tracer(&mut self, state: &mut VmState)
        ensures
            final(self).observed() == old(self).observed().push(TraceEvent::Initialize),
    ;

    /// Called once per interpreter cycle.
    fn after_cycle(&mut self, state: &mut VmState, bootloader_state: &mut BootloaderState)
        ensures
            final(self).observed() == old(self).observed().push(TraceEvent::AfterCycle),
    ;

    /// Called once when interpretation halts, with the stop reason.
    fn after_vm_execution(
        &mut self,
        state: &mut VmState,
        bootloader_state: &BootloaderState,
        stop_reason: VmExecutionStopReason,
    )
        ensures
            final(self).observed() == old(self).observed().push(
                TraceEvent::AfterVmExecution { reason: stop_reason },
            ),
    ;

    /// Called once with the finalized result record, allowing annotation.
    fn save_results(&mut self, result: &mut VmExecutionResultAndLogs)
        ensures
            final(self).observed() == old(self).observed().push(TraceEvent::SaveResults),
    ;
}

/// A reference tracer: it records every delivery (the ghost log plus an
/// executable count and last event for callers to inspect) and can be told
/// to request a stop.
pub struct RecordingTracer {
    /// Ghost log of every delivery.
    pub observed: Ghost<Seq<TraceEvent>>,
    /// Whether this tracer answers the stop poll with true.
    pub stop: bool,
    /// How many deliveries arrived (saturating).
    pub hook_count: usize,
    /// The most recent delivery.
    pub last_event: Option<TraceEvent>,
}

impl RecordingTracer {
    /// A fresh tracer that has seen nothing and does not request a stop.
    pub fn new() -> (t: Self)
        ensures
            t.observed() == Seq::<TraceEvent>::empty(),
            !t.stop_requested(),
            t.hook_count == 0,
            t.last_event is None,
    {
        RecordingTracer { observed: Ghost(Seq::empty()), stop: false, hook_count: 0, last_event: None }
    }

    /// Configures the answer to the stop poll.
    pub fn set_stop(&mut self, stop: bool)
        ensures
            final(self).stop_requested() == stop,
            final(self).observed() == old(self).observed(),
            final(self).hook_count == old(self).hook_count,
            final(self).last_event == old(self).last_event,
    {
        self.stop = stop;
    }

    /// Records one delivery.
    fn record(&mut self, e: TraceEvent)
        ensures
            final(self).observed() == old(self).observed().push(e),
            final(self).stop_requested() == old(self).stop_requested(),
    {
        self.observed = Ghost(self.observed@.push(e));
        if self.hook_count < usize::MAX {
            self.hook_count = self.hook_count + 1;
        }
        self.last_event = Some(e);
    }
}

impl VmTracer for RecordingTracer {
    open spec fn observed(&self) -> Seq<TraceEvent> {
        self.observed@
    }

    open spec fn stop_requested(&self) -> bool {
        self.stop
    }

    fn before_decoding(&mut self, state: VmLocalStateData, memory: &SimpleMemory) {
        self.record(TraceEvent::BeforeDecoding { state });
    }

    fn after_decoding(&mut self, state: VmLocalStateData, data: AfterDecodingData, memory: &SimpleMemory) {
        self.record(TraceEvent::AfterDecoding { state, data });
    }

    fn before_execution(
        &mut self,
        state: VmLocalStateData,
        data: BeforeExecutionData,
        memory: &SimpleMemory,
        storage: &StorageOracle,
    ) {
        self.record(TraceEvent::BeforeExecution { state, data });
    }

    fn after_execution(
        &mut self,
        state: VmLocalStateData,
        data: AfterExecutionData,
        memory: &SimpleMemory,
        storage: &StorageOracle,
    ) {
        self.record(TraceEvent::AfterExecution { state, data });
    }

    fn should_stop_execution(&self) -> (stop: bool) {
        self.stop
    }

    fn initialize_tracer(&mut self, state: &mut VmState) {
        self.record(TraceEvent::Initialize);
    }

    fn after_cycle(&mut self, state: &mut VmState, bootloader_state: &mut BootloaderState) {
        self.record(TraceEvent::AfterCycle);
    }

    fn after_vm_execution(
        &mut self,
        state: &mut VmState,
        bootloader_state: &BootloaderState,
        stop_reason: VmExecutionStopReason,
    ) {
        self.record(TraceEvent::AfterVmExecution { reason: stop_reason });
    }

    fn save_results(&mut self, result: &mut VmExecutionResultAndLogs) {
        self.record(TraceEvent::SaveResults);
    }
}

/// One hook delivery was fanned out to every member, in place: same member
/// count, and each member's log extended by exactly that event.
pub open spec fn fanned_out<T: VmTracer>(pre: Seq<T>, post: Seq<T>, e: TraceEvent) -> bool {
    &&& post.len() == pre.len()
    &&& forall|j: int|
        0 <= j < pre.len() ==> (#[trigger] post[j]).observed() == pre[j].observed().push(e)
}

/// The composite tracer: an ordered list of member tracers. Purely a
/// fan-out relay — it never reorders, batches, or drops a call.
pub struct TracerDispatcher<T: VmTracer> {
    tracers: Vec<T>,
    observed: Ghost<Seq<TraceEvent>>,
}

impl<T: VmTracer> TracerDispatcher<T> {
    /// The member tracers, in registration order.
    pub closed spec fn members(&self) -> Seq<T> {
        self.tracers@
    }

    /// The dispatcher's own delivery log.
    pub closed spec fn observed_log(&self) -> Seq<TraceEvent> {
        self.observed@
    }

    /// A dispatcher over the given members, in order.
    pub fn new(tracers: Vec<T>) -> (d: Self)
        ensures
            d.members() == tracers@,
            d.observed() == Seq::<TraceEvent>::empty(),
    {
        TracerDispatcher { tracers, observed: Ghost(Seq::empty()) }
    }

    /// How many members the dispatcher holds.
    pub fn len(&self) -> (n: usize)
        ensures
            n == self.members().len(),
    {
        self.tracers.len()
    }

    /// Consumes the dispatcher and hands back its members, in order.
    pub fn into_members(self) -> (r: Vec<T>)
        ensures
            r@ == self.members(),
    {
        self.tracers
    }
}

impl<T: VmTracer> Default for TracerDispatcher<T> {
    /// The empty dispatcher: no instrumentation at all.
    fn default() -> (d: Self)
        ensures
            d.members() == Seq::<T>::empty(),
            d.observed() == Seq::<TraceEvent>::empty(),
    {
        TracerDispatcher { tracers: Vec::new(), observed: Ghost(Seq::empty()) }
    }
}

impl<T: VmTracer> VmTracer for TracerDispatcher<T> {
    /// The dispatcher's own delivery log.
    open spec fn observed(&self) -> Seq<TraceEvent> {
        self.observed_log()
    }

    /// The logical OR of all members' answers.
    open spec fn stop_requested(&self) -> bool {
        exists|j: int| 0 <= j < self.members().len() && (#[trigger] self.members()[j]).stop_requested()
    }

    fn before_decoding(&mut self, state: VmLocalStateData, memory: &SimpleMemory)
        ensures
            fanned_out(old(self).members(), final(self).members(), TraceEvent::BeforeDecoding { state }),
    {
        let ghost e = TraceEvent::BeforeDecoding { state };
        let n = self.tracers.len();
        let mut i: usize = 0;
        while i < n
            invariant
                i <= n,
                e == (TraceEvent::BeforeDecoding { state }),
                n == self.tracers@.len(),
                self.tracers@.len() == old(self).tracers@.len(),
                forall|j: int|
                    0 <= j < i ==> (#[trigger] self.tracers@[j]).observed() == old(
                        self,
                    ).tracers@[j].observed().push(e),
                forall|j: int| i <= j < n ==> self.tracers@[j] == old(self).tracers@[j],
                self.observed@ == old(self).observed@,
            decreases n - i,
        {
            let ghost prev = self.tracers@;
            self.tracers[i].before_decoding(state, memory);
            proof {
                assert(self.tracers@[i as int].observed() == old(self).tracers@[i as int]
                    .observed().push(e));
                assert forall|j: int| 0 <= j < i + 1 implies (#[trigger] self.tracers@[j])
                    .observed() == old(self).tracers@[j].observed().push(e) by {
                    if j < i {
                        assert(self.tracers@[j] == prev[j]);
                    }
                }
            }
            i = i + 1;
        }
        self.observed = Ghost(self.observed@.push(e));
    }

    fn after_decoding(&mut self, state: VmLocalStateData, data: AfterDecodingData, memory: &SimpleMemory)
        ensures
            fanned_out(
                old(self).members(),
                final(self).members(),
                TraceEvent::AfterDecoding { state, data },
            ),
    {
        let ghost e = TraceEvent::AfterDecoding { state, data };
        let n = self.tracers.len();
        let mut i: usize = 0;
        while i < n
            invariant
                i <= n,
                e == (TraceEvent::AfterDecoding { state, data }),
                n == self.tracers@.len(),
                self.tracers@.len() == old(self).tracers@.len(),
                forall|j: int|
                    0 <= j < i ==> (#[trigger] self.tracers@[j]).observed() == old(
                        self,
                    ).tracers@[j].observed().push(e),
                forall|j: int| i <= j < n ==> self.tracers@[j] == old(self).tracers@[j],
                self.observed@ == old(self).observed@,
            decreases n - i,
        {
            let ghost prev = self.tracers@;
            self.tracers[i].after_decoding(state, data, memory);
            proof {
                assert(self.tracers@[i as int].observed() == old(self).tracers@[i as int]
                    .observed().push(e));
                assert forall|j: int| 0 <= j < i + 1 implies (#[trigger] self.tracers@[j])
                    .observed() == old(self).tracers@[j].observed().push(e) by {
                    if j < i {
                        assert(self.tracers@[j] == prev[j]);
                    }
                }
            }
            i = i + 1;
        }
        self.observed = Ghost(self.observed@.push(e));
    }

    fn before_execution(
        &mut self,
        state: VmLocalStateData,
        data: BeforeExecutionData,
        memory: &SimpleMemory,
        storage: &StorageOracle,
    )
        ensures
            fanned_out(
                old(self).members(),
                final(self).members(),
                TraceEvent::BeforeExecution { state, data },
            ),
    {
        let ghost e = TraceEvent::BeforeExecution { state, data };
        let n = self.tracers.len();
        let mut i: usize = 0;
        while i < n
            invariant
                i <= n,
                e == (TraceEvent::BeforeExecution { state, data }),
                n == self.tracers@.len(),
                self.tracers@.len() == old(self).tracers@.len(),
                forall|j: int|
                    0 <= j < i ==> (#[trigger] self.tracers@[j]).observed() == old(
                        self,
                    ).tracers@[j].observed().push(e),
                forall|j: int| i <= j < n ==> self.tracers@[j] == old(self).tracers@[j],
                self.observed@ == old(self).observed@,
            decreases n - i,
        {
            let ghost prev = self.tracers@;
            self.tracers[i].before_execution(state, data, memory, storage);
            proof {
                assert(self.tracers@[i as int].observed() == old(self).tracers@[i as int]
                    .observed().push(e));
                assert forall|j: int| 0 <= j < i + 1 implies (#[trigger] self.tracers@[j])
                    .observed() == old(self).tracers@[j].observed().push(e) by {
                    if j < i {
                        assert(self.tracers@[j] == prev[j]);
                    }
                }
            }
            i = i + 1;
        }
        self.observed = Ghost(self.observed@.push(e));
    }

    fn after_execution(
        &mut self,
        state: VmLocalStateData,
        data: AfterExecutionData,
        memory: &SimpleMemory,
        storage: &StorageOracle,
    )
        ensures
            fanned_out(
                old(self).members(),
                final(self).members(),
                TraceEvent::AfterExecution { state, data },
            ),
    {
        let ghost e = TraceEvent::AfterExecution { state, data };
        let n = self.tracers.len();
        let mut i: usize = 0;
        while i < n
            invariant
                i <= n,
                e == (TraceEvent::AfterExecution { state, data }),
                n == self.tracers@.len(),
                self.tracers@.len() == old(self).tracers@.len(),
                forall|j: int|
                    0 <= j < i ==> (#[trigger] self.tracers@[j]).observed() == old(
                        self,
                    ).tracers@[j].observed().push(e),
                forall|j: int| i <= j < n ==> self.tracers@[j] == old(self).tracers@[j],
                self.observed@ == old(self).observed@,
            decreases n - i,
        {
            let ghost prev = self.tracers@;
            self.tracers[i].after_execution(state, data, memory, storage);
            proof {
                assert(self.tracers@[i as int].observed() == old(self).tracers@[i as int]
                    .observed().push(e));
                assert forall|j: int| 0 <= j < i + 1 implies (#[trigger] self.tracers@[j])
                    .observed() == old(self).tracers@[j].observed().push(e) by {
                    if j < i {
                        assert(self.tracers@[j] == prev[j]);
                    }
                }
            }
            i = i + 1;
        }
        self.observed = Ghost(self.observed@.push(e));
    }

    /// Polls every member, in order, with no short-circuit, and answers
    /// the OR of the answers: a single true anywhere forces true.
    fn should_stop_execution(&self) -> (stop: bool) {
        let mut result = false;
        let n = self.tracers.len();
        let mut i: usize = 0;
        while i < n
            invariant
                i <= n,
                n == self.tracers@.len(),
                result == exists|k: int|
                    0 <= k < i && (#[trigger] self.tracers@[k]).stop_requested(),
            decreases n - i,
        {
            let s = self.tracers[i].should_stop_execution();
            proof {
                if s {
                    assert(self.tracers@[i as int].stop_requested());
                }
            }
            if s {
                result = true;
            }
            i = i + 1;
        }
        proof {
            if result {
                let k = choose|k: int| 0 <= k < n && (#[trigger] self.tracers@[k]).stop_requested();
                assert(self.members()[k].stop_requested());
            }
            if self.stop_requested() {
                let j = choose|j: int|
                    0 <= j < self.members().len() && (#[trigger] self.members()[j]).stop_requested();
                assert(self.tracers@[j].stop_requested());
            }
        }
        result
    }

    fn initialize_tracer(&mut self, state: &mut VmState)
        ensures
            fanned_out(old(self).members(), final(self).members(), TraceEvent::Initialize),
    {
        let ghost e = TraceEvent::Initialize;
        let n = self.tracers.len();
        let mut i: usize = 0;
        while i < n
            invariant
                i <= n,
                e == (TraceEvent::Initialize),
                n == self.tracers@.len(),
                self.tracers@.len() == old(self).tracers@.len(),
                forall|j: int|
                    0 <= j < i ==> (#[trigger] self.tracers@[j]).observed() == old(
                        self,
                    ).tracers@[j].observed().push(e),
                forall|j: int| i <= j < n ==> self.tracers@[j] == old(self).tracers@[j],
                self.observed@ == old(self).observed@,
            decreases n - i,
        {
            let ghost prev = self.tracers@;
            self.tracers[i].initialize_tracer(state);
            proof {
                assert(self.tracers@[i as int].observed() == old(self).tracers@[i as int]
                    .observed().push(e));
                assert forall|j: int| 0 <= j < i + 1 implies (#[trigger] self.tracers@[j])
                    .observed() == old(self).tracers@[j].observed().push(e) by {
                    if j < i {
                        assert(self.tracers@[j] == prev[j]);
                    }
                }
            }
            i = i + 1;
        }
        self.observed = Ghost(self.observed@.push(e));
    }

    fn after_cycle(&mut self, state: &mut VmState, bootloader_state: &mut BootloaderState)
        ensures
            fanned_out(old(self).members(), final(self).members(), TraceEvent::AfterCycle),
    {
        let ghost e = TraceEvent::AfterCycle;
        let n = self.tracers.len();
        let mut i: usize = 0;
        while i < n
            invariant
                i <= n,
                e == (TraceEvent::AfterCycle),
                n == self.tracers@.len(),
                self.tracers@.len() == old(self).tracers@.len(),
                forall|j: int|
                    0 <= j < i ==> (#[trigger] self.tracers@[j]).observed() == old(
                        self,
                    ).tracers@[j].observed().push(e),
                forall|j: int| i <= j < n ==> self.tracers@[j] == old(self).tracers@[j],
                self.observed@ == old(self).observed@,
            decreases n - i,
        {
            let ghost prev = self.tracers@;
            self.tracers[i].after_cycle(state, bootloader_state);
            proof {
                assert(self.tracers@[i as int].observed() == old(self).tracers@[i as int]
                    .observed().push(e));
                assert forall|j: int| 0 <= j < i + 1 implies (#[trigger] self.tracers@[j])
                    .observed() == old(self).tracers@[j].observed().push(e) by {
                    if j < i {
                        assert(self.tracers@[j] == prev[j]);
                    }
                }
            }
            i = i + 1;
        }
        self.observed = Ghost(self.observed@.push(e));
    }

    fn after_vm_execution(
        &mut self,
        state: &mut VmState,
        bootloader_state: &BootloaderState,
        stop_reason: VmExecutionStopReason,
    )
        ensures
            fanned_out(
                old(self).members(),
                final(self).members(),
                TraceEvent::AfterVmExecution { reason: stop_reason },
            ),
    {
        let ghost e = TraceEvent::AfterVmExecution { reason: stop_reason };
        let n = self.tracers.len();
        let mut i: usize = 0;
        while i < n
            invariant
                i <= n,
                e == (TraceEvent::AfterVmExecution { reason: stop_reason }),
                n == self.tracers@.len(),
                self.tracers@.len() == old(self).tracers@.len(),
                forall|j: int|
                    0 <= j < i ==> (#[trigger] self.tracers@[j]).observed() == old(
                        self,
                    ).tracers@[j].observed().push(e),
                forall|j: int| i <= j < n ==> self.tracers@[j] == old(self).tracers@[j],
                self.observed@ == old(self).observed@,
            decreases n - i,
        {
            let ghost prev = self.tracers@;
            self.tracers[i].after_vm_execution(state, bootloader_state, stop_reason);
            proof {
                assert(self.tracers@[i as int].observed() == old(self).tracers@[i as int]
                    .observed().push(e));
                assert forall|j: int| 0 <= j < i + 1 implies (#[trigger] self.tracers@[j])
                    .observed() == old(self).tracers@[j].observed().push(e) by {
                    if j < i {
                        assert(self.tracers@[j] == prev[j]);
                    }
                }
            }
            i = i + 1;
        }
        self.observed = Ghost(self.observed@.push(e));
    }

    fn save_results(&mut self, result: &mut VmExecutionResultAndLogs)
        ensures
            fanned_out(old(self).members(), final(self).members(), TraceEvent::SaveResults),
    {
        let ghost e = TraceEvent::SaveResults;
        let n = self.tracers.len();
        let mut i: usize = 0;
        while i < n
            invariant
                i <= n,
                e == (TraceEvent::SaveResults),
                n == self.tracers@.len(),
                self.tracers@.len() == old(self).tracers@.len(),
                forall|j: int|
                    0 <= j < i ==> (#[trigger] self.tracers@[j]).observed() == old(
                        self,
                    ).tracers@[j].observed().push(e),
                forall|j: int| i <= j < n ==> self.tracers@[j] == old(self).tracers@[j],
                self.observed@ == old(self).observed@,
            decreases n - i,
        {
            let ghost prev = self.tracers@;
            self.tracers[i].save_results(result);
            proof {
                assert(self.tracers@[i as int].observed() == old(self).tracers@[i as int]
                    .observed().push(e));
                assert forall|j: int| 0 <= j < i + 1 implies (#[trigger] self.tracers@[j])
                    .observed() == old(self).tracers@[j].observed().push(e) by {
                    if j < i {
                        assert(self.tracers@[j] == prev[j]);
                    }
                }
            }
            i = i + 1;
        }
        self.observed = Ghost(self.observed@.push(e));
    }
}

/// A dispatcher with zero members behaves identically to no
/// instrumentation at all: its stop poll is false, and every hook's
/// fan-out obligation is vacuous, leaving no member to receive anything.
pub proof fn lemma_empty_dispatcher_inert<T: VmTracer>(d: TracerDispatcher<T>)
    requires
        d.members().len() == 0,
    ensures
        !d.stop_requested(),
        forall|post: Seq<T>, e: TraceEvent|
            #[trigger] fanned_out(d.members(), post, e) <==> post.len() == 0,
{
    assert forall|post: Seq<T>, e: TraceEvent| #[trigger] fanned_out(d.members(), post, e) implies post.len()
        == 0 by {}
    assert forall|post: Seq<T>, e: TraceEvent| post.len() == 0 implies #[trigger] fanned_out(
        d.members(),
        post,
        e,
    ) by {}
}

/// The dispatcher's stop answer is the logical OR across its members: one
/// true answer anywhere forces dispatcher-level true, and with no true
/// answer the dispatcher answers false.
pub proof fn lemma_stop_is_or<T: VmTracer>(d: TracerDispatcher<T>)
    ensures
        forall|j: int|
            0 <= j < d.members().len() && (#[trigger] d.members()[j]).stop_requested()
                ==> d.stop_requested(),
        (forall|j: int|
            0 <= j < d.members().len() ==> !(#[trigger] d.members()[j]).stop_requested())
            ==> !d.stop_requested(),
{
}

} // verus!
