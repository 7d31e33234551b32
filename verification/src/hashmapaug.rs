use vstd::prelude::*;

verus! {

/// How to continue a traversal of a dictionary.
#[derive(Clone, Copy, Debug, PartialEq, Eq)]
pub enum TraverseNextStep<R> {
    /// Continue to the "0" branch.
    VisitZero,
    /// Continue to the "1" branch.
    VisitOne,
    /// Continue to both branches, "0" first.
    VisitZeroOne,
    /// Continue to both branches, "1" first.
    VisitOneZero,
    /// Stop traversing the current branch.
    Stop,
    /// End the traversal with the given result.
    End(R),
}

} // verus!
