use vstd::prelude::*;

verus! {

/// What one attempt to advance the shared source reported, as handed back
/// to the coordinator by the host scheduler.
///
/// The flag on `Item` is the classifying predicate's verdict for that item:
/// `true` routes it to the left side, `false` to the right side. The
/// predicate is evaluated by the caller, once, at the moment the item is
/// pulled; an item is never reclassified.
#[derive(Debug, PartialEq)]
pub enum SourceEvent<T> {
    /// The source was not ready; the driving side must suspend.
    Pending,
    /// The source is exhausted: normal termination for both sides.
    Finished,
    /// The source reported a failure, which terminates both sides.
    Failed,
    /// The source yielded an item together with its classification.
    Item(T, bool),
}

/// What one poll of a side observes.
#[derive(Debug, PartialEq)]
pub enum PollOutcome<T> {
    /// The next item belonging to this side.
    Item(T),
    /// End of stream: the source is exhausted and nothing is pending for
    /// this side.
    Finished,
    /// The sticky source failure.
    Failed,
    /// Not ready: the caller must suspend until its wake handle is invoked.
    Pending,
}

/// Either a finished poll, or a demand that the caller poll the source once
/// and hand the observation back through the coordinator's resume entry.
#[derive(Debug, PartialEq)]
pub enum PollStep<T> {
    Done(PollOutcome<T>),
    NeedSource,
}

/// The result of one coordinator operation: the step taken, and whether the
/// other side's registered wake handle must now be invoked by the caller.
#[derive(Debug, PartialEq)]
pub struct StepResult<T> {
    pub step: PollStep<T>,
    pub wake_other: bool,
}

} // verus!
