//! The history capability tag.
//!
//! A compile-time marker distinguishing "snapshot/rollback available" from
//! "not available". The tag carries no data and does not exist at run time;
//! it gates the whole snapshot method group at the type level: those methods
//! are defined only for history-enabled instances.

use vstd::prelude::*;

verus! {

/// The capability tag: one of the two marker types below.
pub trait HistoryMode: Sized {
    /// Whether instances under this tag keep history.
    spec fn enabled_spec() -> bool;

    /// Runtime reflection of the tag, for sizing history reports.
    fn enabled() -> (b: bool)
        ensures
            b == Self::enabled_spec(),
    ;
}

/// Snapshot and rollback are available.
#[derive(Clone, Copy, PartialEq, Eq, Structural, Debug)]
pub struct HistoryEnabled;

/// Snapshot and rollback are not available; history sizes report as zero.
#[derive(Clone, Copy, PartialEq, Eq, Structural, Debug)]
pub struct HistoryDisabled;

impl HistoryMode for HistoryEnabled {
    open spec fn enabled_spec() -> bool {
        true
    }

    fn enabled() -> bool {
        true
    }
}

impl HistoryMode for HistoryDisabled {
    open spec fn enabled_spec() -> bool {
        false
    }

    fn enabled() -> bool {
        false
    }
}

} // verus!
