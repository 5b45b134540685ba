//! A tracer that collects the far calls a transaction made.
//!
//! The recorded calls are published once, after interpretation, into a
//! single-assignment shared cell: written exactly once, readable by every
//! owner afterwards, and refusing (never silently overwriting) a second
//! write. The per-version hook adapters feed the stack as interpretation
//! proceeds.

use vstd::prelude::*;
use std::sync::Arc;
use once_cell::sync::OnceCell;

verus! {

/// One completed far call.
#[derive(Clone, Copy, PartialEq, Eq, Structural, Debug)]
pub struct Call {
    pub from: u64,
    pub to: u64,
    pub gas_used: u64,
}

/// A far call together with the number of near calls that followed it.
#[derive(Clone, Copy, PartialEq, Eq, Structural, Debug)]
pub struct FarcallAndNearCallCount {
    pub farcall: Call,
    pub near_calls_after: usize,
}

#[verifier::external_type_specification]
#[verifier::external_body]
#[verifier::reject_recursive_types(T)]
pub struct ExOnceCell<T>(OnceCell<T>);

/// Relies on once_cell's OnceCell::set: the first write stores the value
/// and returns Ok; a later write is refused, handing the rejected value
/// back in Err. Whether this call is the first write depends on the cell's
/// hidden shared state, so only the Err payload is stated.
#[verifier::external_body]
fn cell_set(cell: &Arc<OnceCell<Vec<Call>>>, value: Vec<Call>) -> (r: Result<(), Vec<Call>>)
    ensures
        r matches Err(v) ==> v == value,
{
    cell.set(value)
}

/// Collects the far calls of one transaction and publishes them into a
/// shared result cell.
pub struct CallTracer {
    stack: Vec<FarcallAndNearCallCount>,
    result: Option<Arc<OnceCell<Vec<Call>>>>,
}

impl CallTracer {
    /// The recorded far calls, oldest first.
    pub closed spec fn stack_view(&self) -> Seq<FarcallAndNearCallCount> {
        self.stack@
    }

    /// Whether this tracer was given a result cell to publish into.
    pub closed spec fn has_result_cell(&self) -> bool {
        self.result is Some
    }

    /// A tracer that will publish its calls into the given shared cell.
    pub fn new(result: Arc<OnceCell<Vec<Call>>>) -> (t: Self)
        ensures
            t.stack_view() == Seq::<FarcallAndNearCallCount>::empty(),
            t.has_result_cell(),
    {
        CallTracer { stack: Vec::new(), result: Some(result) }
    }

    /// Records one completed far call.
    pub fn push_call(&mut self, farcall: Call)
        ensures
            final(self).stack_view() == old(self).stack_view().push(
                FarcallAndNearCallCount { farcall, near_calls_after: 0 },
            ),
            final(self).has_result_cell() == old(self).has_result_cell(),
    {
        self.stack.push(FarcallAndNearCallCount { farcall, near_calls_after: 0 });
    }

    /// Counts a near call under the most recently recorded far call.
    pub fn count_near_call(&mut self)
        requires
            old(self).stack_view().len() > 0,
            old(self).stack_view().last().near_calls_after < usize::MAX,
        ensures
            final(self).stack_view() == old(self).stack_view().update(
                old(self).stack_view().len() - 1,
                FarcallAndNearCallCount {
                    farcall: old(self).stack_view().last().farcall,
                    near_calls_after: (old(self).stack_view().last().near_calls_after + 1) as usize,
                },
            ),
            final(self).has_result_cell() == old(self).has_result_cell(),
    {
        let i = self.stack.len() - 1;
        let top = self.stack[i];
        self.stack[i] = FarcallAndNearCallCount {
            farcall: top.farcall,
            near_calls_after: top.near_calls_after + 1,
        };
    }

    /// Drains the recorded stack into the list of far calls, in order.
    pub fn extract_result(&mut self) -> (r: Vec<Call>)
        ensures
            r@ == old(self).stack_view().map_values(|f: FarcallAndNearCallCount| f.farcall),
            final(self).stack_view() == Seq::<FarcallAndNearCallCount>::empty(),
            final(self).has_result_cell() == old(self).has_result_cell(),
    {
        let mut r: Vec<Call> = Vec::new();
        let n = self.stack.len();
        let mut i: usize = 0;
        while i < n
            invariant
                i <= n,
                n == self.stack@.len(),
                self.stack@ == old(self).stack@,
                self.result == old(self).result,
                r@.len() == i,
                forall|j: int| 0 <= j < i ==> #[trigger] r@[j] == self.stack@[j].farcall,
            decreases n - i,
        {
            r.push(self.stack[i].farcall);
            i = i + 1;
        }
        self.stack = Vec::new();
        proof {
            assert(r@ =~= old(self).stack_view().map_values(
                |f: FarcallAndNearCallCount| f.farcall,
            ));
            assert(self.stack_view() =~= Seq::<FarcallAndNearCallCount>::empty());
        }
        r
    }

    /// Publishes the recorded calls: drains the stack and attempts the
    /// single assignment into the shared cell. Returns whether this call
    /// performed the first (and only possible) write; a tracer without a
    /// cell changes nothing and reports false.
    pub fn store_result(&mut self) -> (stored: bool)
        ensures
            old(self).has_result_cell() ==> final(self).stack_view() == Seq::<
                FarcallAndNearCallCount,
            >::empty() && final(self).has_result_cell(),
            !old(self).has_result_cell() ==> *final(self) == *old(self) && !stored,
    {
        if self.result.is_none() {
            return false;
        }
        let calls = self.extract_result();
        match &self.result {
            Some(cell) => cell_set(cell, calls).is_ok(),
            None => false,
        }
    }
}

impl Default for CallTracer {
    /// A tracer with no result cell: it records, but cannot publish.
    fn default() -> (t: Self)
        ensures
            t.stack_view() == Seq::<FarcallAndNearCallCount>::empty(),
            !t.has_result_cell(),
    {
        CallTracer { stack: Vec::new(), result: None }
    }
}

} // verus!
