//! The version-agnostic tracer dispatcher and the cross-version
//! projection.
//!
//! A tracer written once against the version-agnostic contract is
//! projected, lazily at the point a caller assembles a dispatcher for a
//! specific engine, into that version's native tracer shape. A multi-tracer
//! composite projects every member independently and preserves their
//! relative order in the resulting version-native list.

use vstd::prelude::*;
use crate::virtual_blocks;
use crate::virtual_blocks::{RecordingTracer, TraceEvent, VmTracer};

verus! {

/// A version-agnostic tracer handle: one operation per supported engine
/// version produces the native representation for that version. A freshly
/// projected tracer has observed nothing; its initial stop answer is fixed
/// by the handle it came from.
pub trait MultiVmTracer: Sized {
    /// The native tracer shape for the version with virtual blocks.
    type VirtualBlocks: VmTracer;

    /// The stop answer a projection of this handle starts with.
    spec fn projected_stop(&self) -> bool;

    /// Produces this tracer's native representation for the version with
    /// virtual blocks.
    fn vm_virtual_blocks(self) -> (t: Self::VirtualBlocks)
        ensures
            t.observed() == Seq::<TraceEvent>::empty(),
            t.stop_requested() == self.projected_stop(),
    ;
}

impl MultiVmTracer for RecordingTracer {
    type VirtualBlocks = RecordingTracer;

    open spec fn projected_stop(&self) -> bool {
        self.stop
    }

    fn vm_virtual_blocks(self) -> (t: RecordingTracer) {
        let mut t = RecordingTracer::new();
        t.set_stop(self.stop);
        t
    }
}

/// An ordered list of version-agnostic tracer handles; insertion order is
/// call-order-significant and preserved. Empty by default.
pub struct TracerDispatcher<T: MultiVmTracer> {
    tracers: Vec<T>,
}

impl<T: MultiVmTracer> TracerDispatcher<T> {
    /// The member handles, in registration order.
    pub closed spec fn members(&self) -> Seq<T> {
        self.tracers@
    }

    /// A dispatcher over the given handles, in order.
    pub fn new(tracers: Vec<T>) -> (d: Self)
        ensures
            d.members() == tracers@,
    {
        TracerDispatcher { tracers }
    }

    /// How many handles the dispatcher holds.
    pub fn len(&self) -> (n: usize)
        ensures
            n == self.members().len(),
    {
        self.tracers.len()
    }

    /// Projects every member into the native shape of the version with
    /// virtual blocks, preserving relative order: the native dispatcher's
    /// member at each position is the projection of the handle that stood
    /// at that position here.
    pub fn into_vm_virtual_blocks(self) -> (d: virtual_blocks::TracerDispatcher<T::VirtualBlocks>)
        ensures
            d.members().len() == self.members().len(),
            forall|i: int|
                0 <= i < self.members().len() ==> (#[trigger] d.members()[i]).observed() == Seq::<
                    TraceEvent,
                >::empty(),
            forall|i: int|
                0 <= i < self.members().len() ==> (#[trigger] d.members()[i]).stop_requested()
                    == self.members()[i].projected_stop(),
            d.observed_log() == Seq::<TraceEvent>::empty(),
    {
        let ghost src = self.tracers@;
        let mut rest = self.tracers;
        let mut native: Vec<T::VirtualBlocks> = Vec::new();
        while rest.len() > 0
            invariant
                native@.len() + rest@.len() == src.len(),
                rest@ == src.skip(native@.len() as int),
                forall|i: int|
                    0 <= i < native@.len() ==> (#[trigger] native@[i]).observed() == Seq::<
                        TraceEvent,
                    >::empty(),
                forall|i: int|
                    0 <= i < native@.len() ==> (#[trigger] native@[i]).stop_requested()
                        == src[i].projected_stop(),
            decreases rest@.len(),
        {
            let ghost k = native@.len();
            let t = rest.remove(0);
            proof {
                assert(t == src[k as int]);
                assert(rest@ =~= src.skip(k as int + 1));
            }
            let projected = t.vm_virtual_blocks();
            native.push(projected);
        }
        proof {
            assert(native@.len() == src.len());
        }
        virtual_blocks::TracerDispatcher::new(native)
    }
}

impl<T: MultiVmTracer> Default for TracerDispatcher<T> {
    /// The empty dispatcher: no instrumentation.
    fn default() -> (d: Self)
        ensures
            d.members() == Seq::<T>::empty(),
    {
        TracerDispatcher { tracers: Vec::new() }
    }
}

impl<T: MultiVmTracer> From<T> for TracerDispatcher<T> {
    /// A dispatcher over a single tracer handle.
    fn from(value: T) -> (d: Self) {
        let mut tracers: Vec<T> = Vec::new();
        tracers.push(value);
        TracerDispatcher::new(tracers)
    }
}

impl<T: MultiVmTracer> vstd::std_specs::convert::FromSpecImpl<T> for TracerDispatcher<T> {
    open spec fn obeys_from_spec() -> bool {
        false
    }

    open spec fn from_spec(v: T) -> Self {
        vstd::pervasive::arbitrary()
    }
}

impl<T: MultiVmTracer> From<Vec<T>> for TracerDispatcher<T> {
    /// A dispatcher over an ordered list of tracer handles.
    fn from(value: Vec<T>) -> (d: Self) {
        TracerDispatcher::new(value)
    }
}

impl<T: MultiVmTracer> vstd::std_specs::convert::FromSpecImpl<Vec<T>> for TracerDispatcher<T> {
    open spec fn obeys_from_spec() -> bool {
        false
    }

    open spec fn from_spec(v: Vec<T>) -> Self {
        vstd::pervasive::arbitrary()
    }
}

impl<T: MultiVmTracer> From<TracerDispatcher<T>> for virtual_blocks::TracerDispatcher<T::VirtualBlocks> {
    /// The native dispatcher of the version with virtual blocks, with
    /// every member projected in order.
    fn from(value: TracerDispatcher<T>) -> (d: Self) {
        value.into_vm_virtual_blocks()
    }
}

impl<T: MultiVmTracer> vstd::std_specs::convert::FromSpecImpl<TracerDispatcher<T>> for virtual_blocks::TracerDispatcher<T::VirtualBlocks> {
    open spec fn obeys_from_spec() -> bool {
        false
    }

    open spec fn from_spec(v: TracerDispatcher<T>) -> Self {
        vstd::pervasive::arbitrary()
    }
}

} // verus!
