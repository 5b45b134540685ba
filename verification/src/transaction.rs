//! The externally supplied unit of work.
//!
//! The interpreter loop itself is an external collaborator of this layer: how
//! it decides a transaction's fate is out of scope here. A transaction
//! therefore carries that decision as data ([`TxOutcome`]), together with the
//! dependency bytecodes it declares.

use vstd::prelude::*;

verus! {

/// What the interpreter will decide about a transaction: run it to
/// completion, revert with a payload, or halt with a reason.
#[derive(Clone, PartialEq, Eq, Debug)]
pub enum TxOutcome {
    Succeed,
    Revert { payload: Vec<u8> },
    Halt { reason: crate::errors::Halt },
}

/// A transaction: its hash, the dependency bytecodes it declares it may
/// deploy or reference, and the interpreter's decision about it. Ownership
/// transfers into the Vm's pending queue on push; it is consumed exactly
/// once by the execution step that processes it.
#[derive(Clone, PartialEq, Eq, Debug)]
pub struct Transaction {
    pub hash: u64,
    pub factory_deps: Option<Vec<Vec<u8>>>,
    pub outcome: TxOutcome,
}

/// Which variant a [`TxOutcome`] is.
#[derive(Clone, Copy, PartialEq, Eq, Structural, Debug)]
pub enum OutcomeKind {
    Succeed,
    Revert,
    Halt,
}

/// Spec view of a transaction outcome, flattened over byte sequences.
pub ghost struct OutcomeV {
    pub kind: OutcomeKind,
    pub payload: Seq<u8>,
    pub reason: Option<crate::errors::Halt>,
}

/// Spec view of a transaction.
pub ghost struct TxV {
    pub hash: u64,
    pub factory_deps: Seq<Seq<u8>>,
    pub outcome: OutcomeV,
}

impl View for TxOutcome {
    type V = OutcomeV;

    open spec fn view(&self) -> OutcomeV {
        match self {
            TxOutcome::Succeed => OutcomeV {
                kind: OutcomeKind::Succeed,
                payload: Seq::empty(),
                reason: None,
            },
            TxOutcome::Revert { payload } => OutcomeV {
                kind: OutcomeKind::Revert,
                payload: payload@,
                reason: None,
            },
            TxOutcome::Halt { reason } => OutcomeV {
                kind: OutcomeKind::Halt,
                payload: Seq::empty(),
                reason: Some(*reason),
            },
        }
    }
}

impl View for Transaction {
    type V = TxV;

    open spec fn view(&self) -> TxV {
        TxV {
            hash: self.hash,
            factory_deps: self.deps_view(),
            outcome: self.outcome@,
        }
    }
}

impl Transaction {
    /// The declared dependency bytecodes, an absent list reading as empty.
    pub open spec fn deps_view(&self) -> Seq<Seq<u8>> {
        match self.factory_deps {
            Some(deps) => deps.deep_view(),
            None => Seq::empty(),
        }
    }
}

} // verus!
