use vstd::prelude::*;

use crate::event::{PollOutcome, PollStep, SourceEvent, StepResult};
use crate::side::Side;

verus! {

/// The sequence a pending slot contributes: empty, or the one held item.
pub open spec fn opt_seq<T>(o: Option<T>) -> Seq<T> {
    match o {
        Option::Some(t) => seq![t],
        Option::None => Seq::empty(),
    }
}

/// Of the items pulled from the source so far (each paired with its
/// classification), the subsequence routed to one side: the items whose
/// flag equals `to_left`, in source order.
pub open spec fn routed<T>(h: Seq<(T, bool)>, to_left: bool) -> Seq<T>
    decreases h.len(),
{
    if h.len() == 0 {
        Seq::empty()
    } else {
        routed(h.drop_last(), to_left) + (if h.last().1 == to_left {
            seq![h.last().0]
        } else {
            Seq::empty()
        })
    }
}

/// The abstract state of a partition coordinator.
///
/// The first eight fields mirror the executable bookkeeping; the sequences
/// are the history the contracts speak of: everything pulled from the
/// source (with its classification), everything each side has observed,
/// and everything drained on behalf of a closed side.
#[verifier::ext_equal]
pub struct CoordState<T> {
    /// The pending item parked for the left side, if any.
    pub left_buf: Option<T>,
    /// The pending item parked for the right side, if any.
    pub right_buf: Option<T>,
    /// Whether the left handle has been destroyed.
    pub left_closed: bool,
    /// Whether the right handle has been destroyed.
    pub right_closed: bool,
    /// Whether the left side holds a wake registration.
    pub left_waiting: bool,
    /// Whether the right side holds a wake registration.
    pub right_waiting: bool,
    /// Whether the source has signalled exhaustion. Irreversible.
    pub done: bool,
    /// Whether the source has signalled a failure. Irreversible and sticky.
    pub failed: bool,
    /// Every item pulled from the source, in order, with its classification.
    pub history: Seq<(T, bool)>,
    /// The items the left side has observed, in order.
    pub out_left: Seq<T>,
    /// The items the right side has observed, in order.
    pub out_right: Seq<T>,
    /// The items drained for the left side after it closed.
    pub dropped_left: Seq<T>,
    /// The items drained for the right side after it closed.
    pub dropped_right: Seq<T>,
}

impl<T> CoordState<T> {
    /// The state of a freshly constructed partition.
    pub open spec fn initial() -> CoordState<T> {
        CoordState {
            left_buf: None,
            right_buf: None,
            left_closed: false,
            right_closed: false,
            left_waiting: false,
            right_waiting: false,
            done: false,
            failed: false,
            history: Seq::empty(),
            out_left: Seq::empty(),
            out_right: Seq::empty(),
            dropped_left: Seq::empty(),
            dropped_right: Seq::empty(),
        }
    }

    /// The pending slot of one side.
    pub open spec fn buf(self, side: Side) -> Option<T> {
        if side == Side::Left {
            self.left_buf
        } else {
            self.right_buf
        }
    }

    /// The closed flag of one side.
    pub open spec fn closed(self, side: Side) -> bool {
        if side == Side::Left {
            self.left_closed
        } else {
            self.right_closed
        }
    }

    /// The wake-registration flag of one side.
    pub open spec fn waiting(self, side: Side) -> bool {
        if side == Side::Left {
            self.left_waiting
        } else {
            self.right_waiting
        }
    }

    /// The items one side has observed, in order.
    pub open spec fn out(self, side: Side) -> Seq<T> {
        if side == Side::Left {
            self.out_left
        } else {
            self.out_right
        }
    }

    /// The items drained for one side after it closed.
    pub open spec fn dropped(self, side: Side) -> Seq<T> {
        if side == Side::Left {
            self.dropped_left
        } else {
            self.dropped_right
        }
    }

    /// This state with one side's pending slot replaced.
    pub open spec fn with_buf(self, side: Side, v: Option<T>) -> CoordState<T> {
        if side == Side::Left {
            CoordState { left_buf: v, ..self }
        } else {
            CoordState { right_buf: v, ..self }
        }
    }

    /// This state with one side's closed flag replaced.
    pub open spec fn with_closed(self, side: Side, v: bool) -> CoordState<T> {
        if side == Side::Left {
            CoordState { left_closed: v, ..self }
        } else {
            CoordState { right_closed: v, ..self }
        }
    }

    /// This state with one side's wake-registration flag replaced.
    pub open spec fn with_waiting(self, side: Side, v: bool) -> CoordState<T> {
        if side == Side::Left {
            CoordState { left_waiting: v, ..self }
        } else {
            CoordState { right_waiting: v, ..self }
        }
    }

    /// This state with one side's observed sequence replaced.
    pub open spec fn with_out(self, side: Side, v: Seq<T>) -> CoordState<T> {
        if side == Side::Left {
            CoordState { out_left: v, ..self }
        } else {
            CoordState { out_right: v, ..self }
        }
    }

    /// This state with one side's drained sequence replaced.
    pub open spec fn with_dropped(self, side: Side, v: Seq<T>) -> CoordState<T> {
        if side == Side::Left {
            CoordState { dropped_left: v, ..self }
        } else {
            CoordState { dropped_right: v, ..self }
        }
    }

    /// The per-side accounting invariant: everything ever routed to a side
    /// is exactly what it has observed, then what is parked in its slot,
    /// then what was drained for it after it closed. A closed side's slot
    /// stays empty, and nothing is drained for an open side.
    pub open spec fn side_inv(self, side: Side) -> bool {
        &&& routed(self.history, side == Side::Left) == self.out(side) + opt_seq(self.buf(side))
            + self.dropped(side)
        &&& self.closed(side) ==> self.buf(side) is None
        &&& !self.closed(side) ==> self.dropped(side) == Seq::<T>::empty()
    }

    /// The coordinator invariant: both sides' accounting holds. Under it no
    /// pulled item is ever lost, duplicated, reordered, or routed to both
    /// sides, whatever the interleaving of poll calls.
    pub open spec fn inv(self) -> bool {
        &&& self.side_inv(Side::Left)
        &&& self.side_inv(Side::Right)
    }

    /// Whether `side` may act as driver: nothing is pending for it, the
    /// source is live, and the other side can absorb a wrong-side item
    /// (its slot is free, or it is closed and drains unconditionally).
    pub open spec fn driving(self, side: Side) -> bool {
        &&& !self.failed
        &&& !self.done
        &&& !self.closed(side)
        &&& self.buf(side) is None
        &&& self.closed(side.spec_other()) || self.buf(side.spec_other()) is None
    }
}

/// The poll entry for one side, before any source poll is attempted:
/// surface the sticky failure, satisfy backlog from the side's own slot,
/// surface end-of-stream, stall under backpressure (the other, open side's
/// slot is full), or demand one source poll (`NeedSource`).
///
/// Returns the successor state and the step handed to the caller.
pub open spec fn spec_start<T>(s: CoordState<T>, side: Side) -> (CoordState<T>, StepResult<T>) {
    if s.failed {
        (
            s.with_waiting(side, false),
            StepResult { step: PollStep::Done(PollOutcome::Failed), wake_other: false },
        )
    } else if s.buf(side) is Some {
        let t = s.buf(side)->Some_0;
        (
            s.with_buf(side, None).with_out(side, s.out(side).push(t)).with_waiting(side, false)
                .with_waiting(side.spec_other(), false),
            StepResult {
                step: PollStep::Done(PollOutcome::Item(t)),
                wake_other: s.waiting(side.spec_other()),
            },
        )
    } else if s.done {
        (
            s.with_waiting(side, false),
            StepResult { step: PollStep::Done(PollOutcome::Finished), wake_other: false },
        )
    } else if s.buf(side.spec_other()) is Some && !s.closed(side.spec_other()) {
        (
            s.with_waiting(side, true),
            StepResult { step: PollStep::Done(PollOutcome::Pending), wake_other: false },
        )
    } else {
        (s.with_waiting(side, false), StepResult { step: PollStep::NeedSource, wake_other: false })
    }
}

/// The driver's reaction to one source observation: suspend on a source
/// that is not ready, record exhaustion or failure (waking the other side
/// so it re-polls and observes it), return an own-side item directly, drain
/// a wrong-side item for a closed peer and keep pulling (`NeedSource`), or
/// park a wrong-side item in the open peer's slot, wake that peer, and
/// stall until the slot is free again.
pub open spec fn spec_resume<T>(s: CoordState<T>, side: Side, ev: SourceEvent<T>) -> (
    CoordState<T>,
    StepResult<T>,
) {
    match ev {
        SourceEvent::Pending => (
            s.with_waiting(side, true),
            StepResult { step: PollStep::Done(PollOutcome::Pending), wake_other: false },
        ),
        SourceEvent::Finished => (
            (CoordState { done: true, ..s }).with_waiting(side, false).with_waiting(
                side.spec_other(),
                false,
            ),
            StepResult {
                step: PollStep::Done(PollOutcome::Finished),
                wake_other: s.waiting(side.spec_other()),
            },
        ),
        SourceEvent::Failed => (
            (CoordState { failed: true, ..s }).with_waiting(side, false).with_waiting(
                side.spec_other(),
                false,
            ),
            StepResult {
                step: PollStep::Done(PollOutcome::Failed),
                wake_other: s.waiting(side.spec_other()),
            },
        ),
        SourceEvent::Item(t, to_left) => {
            let pulled = CoordState { history: s.history.push((t, to_left)), ..s };
            if side.spec_accepts(to_left) {
                (
                    pulled.with_out(side, s.out(side).push(t)).with_waiting(side, false),
                    StepResult { step: PollStep::Done(PollOutcome::Item(t)), wake_other: false },
                )
            } else if s.closed(side.spec_other()) {
                (
                    pulled.with_dropped(
                        side.spec_other(),
                        s.dropped(side.spec_other()).push(t),
                    ),
                    StepResult { step: PollStep::NeedSource, wake_other: false },
                )
            } else {
                (
                    pulled.with_buf(side.spec_other(), Some(t)).with_waiting(
                        side.spec_other(),
                        false,
                    ).with_waiting(side, true),
                    StepResult {
                        step: PollStep::Done(PollOutcome::Pending),
                        wake_other: s.waiting(side.spec_other()),
                    },
                )
            }
        },
    }
}

/// Closing one side, fired once when its handle is destroyed: the side is
/// marked closed, anything parked for it is drained, and the other side is
/// woken if suspended (it may be stalled on this side's slot capacity).
///
/// Returns the successor state and whether the other side's wake handle
/// must be invoked.
pub open spec fn spec_close<T>(s: CoordState<T>, side: Side) -> (CoordState<T>, bool) {
    (
        s.with_closed(side, true).with_buf(side, None).with_dropped(
            side,
            s.dropped(side) + opt_seq(s.buf(side)),
        ).with_waiting(side, false).with_waiting(side.spec_other(), false),
        s.waiting(side.spec_other()),
    )
}

/// The items pulled from the source, in order, without their
/// classifications.
pub open spec fn items_of<T>(h: Seq<(T, bool)>) -> Seq<T> {
    h.map_values(|p: (T, bool)| p.0)
}

/// The classification verdicts of the pulled items, in order.
pub open spec fn verdicts_of<T>(h: Seq<(T, bool)>) -> Seq<bool> {
    h.map_values(|p: (T, bool)| p.1)
}

/// The interleaving of `l` and `r` dictated by the verdict sequence `cls`:
/// at each position a `true` verdict takes the next item of `l`, a `false`
/// verdict the next item of `r`. `l` and `r` must hold exactly as many
/// items as `cls` demands of each.
pub open spec fn merge_back<T>(cls: Seq<bool>, l: Seq<T>, r: Seq<T>) -> Seq<T>
    decreases cls.len(),
{
    if cls.len() == 0 {
        Seq::empty()
    } else if cls.last() {
        merge_back(cls.drop_last(), l.drop_last(), r).push(l.last())
    } else {
        merge_back(cls.drop_last(), l, r.drop_last()).push(r.last())
    }
}

/// Interleaving the two routed subsequences back by original position
/// reconstructs exactly the pulled sequence.
pub proof fn lemma_merge_back_reconstructs<T>(h: Seq<(T, bool)>)
    ensures
        merge_back(verdicts_of(h), routed(h, true), routed(h, false)) == items_of(h),
    decreases h.len(),
{
    if h.len() == 0 {
        assert(merge_back(verdicts_of(h), routed(h, true), routed(h, false)) =~= items_of(h));
    } else {
        let h0 = h.drop_last();
        let t = h.last().0;
        let b = h.last().1;
        lemma_merge_back_reconstructs(h0);
        assert(h0.push((t, b)) =~= h);
        lemma_routed_push(h0, t, b, true);
        lemma_routed_push(h0, t, b, false);
        assert(verdicts_of(h).drop_last() =~= verdicts_of(h0));
        assert(items_of(h) =~= items_of(h0).push(t));
        assert(verdicts_of(h).last() == b);
        if b {
            assert(routed(h, true).drop_last() =~= routed(h0, true));
            assert(routed(h, true).last() == t);
        } else {
            assert(routed(h, false).drop_last() =~= routed(h0, false));
            assert(routed(h, false).last() == t);
        }
    }
}

/// Appending one classified item to the history extends exactly the
/// matching side's routed subsequence, by that item.
pub proof fn lemma_routed_push<T>(h: Seq<(T, bool)>, t: T, b: bool, to_left: bool)
    ensures
        routed(h.push((t, b)), to_left) == if b == to_left {
            routed(h, to_left).push(t)
        } else {
            routed(h, to_left)
        },
{
    let h2 = h.push((t, b));
    assert(h2.drop_last() =~= h);
    assert(h2.last() == (t, b));
    if b == to_left {
        assert(routed(h2, to_left) =~= routed(h, to_left).push(t));
    } else {
        assert(routed(h2, to_left) =~= routed(h, to_left));
    }
}

/// Both routed subsequences together account for every pulled item: no
/// item is skipped, and none is counted for both sides.
pub proof fn lemma_routed_complete<T>(h: Seq<(T, bool)>)
    ensures
        routed(h, true).len() + routed(h, false).len() == h.len(),
    decreases h.len(),
{
    if h.len() > 0 {
        lemma_routed_complete(h.drop_last());
    }
}

} // verus!
