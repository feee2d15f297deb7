use vstd::prelude::*;

use crate::event::{PollOutcome, PollStep, SourceEvent};
use crate::side::Side;
use crate::state::{
    items_of, lemma_merge_back_reconstructs, lemma_routed_complete, lemma_routed_push, merge_back,
    opt_seq, routed, spec_close, spec_resume, spec_start, verdicts_of, CoordState,
};

verus! {

/// The freshly constructed state satisfies the coordinator invariant.
pub proof fn lemma_initial_inv<T>()
    ensures
        CoordState::<T>::initial().inv(),
{
    let s = CoordState::<T>::initial();
    assert(routed(s.history, true) =~= s.out(Side::Left) + opt_seq(s.buf(Side::Left)) + s.dropped(
        Side::Left,
    ));
    assert(routed(s.history, false) =~= s.out(Side::Right) + opt_seq(s.buf(Side::Right))
        + s.dropped(Side::Right));
}

/// The poll entry preserves the invariant, whatever side polls and
/// whatever the state.
pub proof fn lemma_start_preserves_inv<T>(s: CoordState<T>, side: Side)
    requires
        s.inv(),
        !s.closed(side),
    ensures
        spec_start(s, side).0.inv(),
{
    let s1 = spec_start(s, side).0;
    let other = side.spec_other();
    if !s.failed && s.buf(side) is Some {
        let t = s.buf(side)->Some_0;
        assert(s.out(side) + opt_seq(s.buf(side)) + s.dropped(side) =~= s.out(side).push(t)
            + opt_seq::<T>(None) + s.dropped(side));
        assert(s1.side_inv(side));
        assert(s1.out(other) + opt_seq(s1.buf(other)) + s1.dropped(other) =~= s.out(other)
            + opt_seq(s.buf(other)) + s.dropped(other));
        assert(s1.side_inv(other));
    } else {
        assert(s1.side_inv(side));
        assert(s1.side_inv(other));
    }
}

/// The driver's reaction to any source event preserves the invariant.
pub proof fn lemma_resume_preserves_inv<T>(s: CoordState<T>, side: Side, ev: SourceEvent<T>)
    requires
        s.inv(),
        s.driving(side),
    ensures
        spec_resume(s, side, ev).0.inv(),
{
    let s1 = spec_resume(s, side, ev).0;
    let other = side.spec_other();
    match ev {
        SourceEvent::Pending | SourceEvent::Finished | SourceEvent::Failed => {
            assert(s1.side_inv(side));
            assert(s1.side_inv(other));
        },
        SourceEvent::Item(t, to_left) => {
            lemma_routed_push(s.history, t, to_left, true);
            lemma_routed_push(s.history, t, to_left, false);
            if side.spec_accepts(to_left) {
                assert(routed(s1.history, side == Side::Left) =~= routed(
                    s.history,
                    side == Side::Left,
                ).push(t));
                assert(s.out(side) + opt_seq(s.buf(side)) + s.dropped(side) =~= s.out(side));
                assert(s1.out(side) + opt_seq(s1.buf(side)) + s1.dropped(side) =~= s.out(
                    side,
                ).push(t));
                assert(s1.side_inv(side));
                assert(routed(s1.history, other == Side::Left) == routed(
                    s.history,
                    other == Side::Left,
                ));
                assert(s1.out(other) + opt_seq(s1.buf(other)) + s1.dropped(other) =~= s.out(other)
                    + opt_seq(s.buf(other)) + s.dropped(other));
                assert(s1.side_inv(other));
            } else if s.closed(other) {
                assert(routed(s1.history, other == Side::Left) =~= routed(
                    s.history,
                    other == Side::Left,
                ).push(t));
                assert(s1.out(other) + opt_seq(s1.buf(other)) + s1.dropped(other) =~= (s.out(other)
                    + opt_seq(s.buf(other)) + s.dropped(other)).push(t));
                assert(s1.side_inv(other));
                assert(routed(s1.history, side == Side::Left) == routed(
                    s.history,
                    side == Side::Left,
                ));
                assert(s1.out(side) + opt_seq(s1.buf(side)) + s1.dropped(side) =~= s.out(side)
                    + opt_seq(s.buf(side)) + s.dropped(side));
                assert(s1.side_inv(side));
            } else {
                assert(routed(s1.history, other == Side::Left) =~= routed(
                    s.history,
                    other == Side::Left,
                ).push(t));
                assert(s.out(other) + opt_seq(s.buf(other)) + s.dropped(other) =~= s.out(other));
                assert(s1.out(other) + opt_seq(s1.buf(other)) + s1.dropped(other) =~= s.out(
                    other,
                ) + seq![t]);
                assert(routed(s.history, other == Side::Left).push(t) =~= s.out(other) + seq![t]);
                assert(s1.side_inv(other));
                assert(routed(s1.history, side == Side::Left) == routed(
                    s.history,
                    side == Side::Left,
                ));
                assert(s1.out(side) + opt_seq(s1.buf(side)) + s1.dropped(side) =~= s.out(side)
                    + opt_seq(s.buf(side)) + s.dropped(side));
                assert(s1.side_inv(side));
            }
        },
    }
}

/// Closing a side preserves the invariant: whatever was parked for it
/// moves, in order, into its drained sequence.
pub proof fn lemma_close_preserves_inv<T>(s: CoordState<T>, side: Side)
    requires
        s.inv(),
        !s.closed(side),
    ensures
        spec_close(s, side).0.inv(),
{
    let s1 = spec_close(s, side).0;
    let other = side.spec_other();
    assert(s1.out(side) + opt_seq(s1.buf(side)) + s1.dropped(side) =~= s.out(side) + opt_seq(
        s.buf(side),
    ) + s.dropped(side));
    assert(s1.side_inv(side));
    assert(s1.out(other) + opt_seq(s1.buf(other)) + s1.dropped(other) =~= s.out(other) + opt_seq(
        s.buf(other),
    ) + s.dropped(other));
    assert(s1.side_inv(other));
}

/// Once both slots are drained and neither side has closed, what the two
/// sides have observed is exactly the two routed subsequences of the pulled
/// items: merging them back by original position reconstructs the source
/// sequence, with nothing dropped, duplicated, or reordered.
pub proof fn lemma_outputs_partition_input<T>(s: CoordState<T>)
    requires
        s.inv(),
        s.left_buf is None,
        s.right_buf is None,
        !s.left_closed,
        !s.right_closed,
    ensures
        s.out_left == routed(s.history, true),
        s.out_right == routed(s.history, false),
        s.out_left.len() + s.out_right.len() == s.history.len(),
        merge_back(verdicts_of(s.history), s.out_left, s.out_right) == items_of(s.history),
{
    lemma_merge_back_reconstructs(s.history);
    assert(s.out(Side::Left) + opt_seq(s.buf(Side::Left)) + s.dropped(Side::Left) =~= s.out_left);
    assert(s.out(Side::Right) + opt_seq(s.buf(Side::Right)) + s.dropped(Side::Right)
        =~= s.out_right);
    lemma_routed_complete(s.history);
}

/// No pulled item is ever lost: at every reachable state, the items the two
/// sides have observed, the items parked in the two slots, and the items
/// drained for a closed side together account for every item pulled from
/// the source.
pub proof fn lemma_no_item_lost<T>(s: CoordState<T>)
    requires
        s.inv(),
    ensures
        s.out_left.len() + s.out_right.len() + opt_seq(s.left_buf).len() + opt_seq(
            s.right_buf,
        ).len() + s.dropped_left.len() + s.dropped_right.len() == s.history.len(),
{
    lemma_routed_complete(s.history);
    assert(routed(s.history, true).len() == s.out(Side::Left).len() + opt_seq(
        s.buf(Side::Left),
    ).len() + s.dropped(Side::Left).len());
    assert(routed(s.history, false).len() == s.out(Side::Right).len() + opt_seq(
        s.buf(Side::Right),
    ).len() + s.dropped(Side::Right).len());
}

/// A side whose peer has closed never stalls: its poll entry never answers
/// `Pending`, and while the source stays ready (any event but a
/// not-ready) the driver's resume never answers `Pending` either. A closed
/// peer acts as an unconditional drain.
pub proof fn lemma_closed_peer_never_stalls<T>(s: CoordState<T>, side: Side, ev: SourceEvent<T>)
    requires
        s.closed(side.spec_other()),
    ensures
        spec_start(s, side).1.step != PollStep::<T>::Done(PollOutcome::Pending),
        !(ev is Pending) ==> spec_resume(s, side, ev).1.step != PollStep::<T>::Done(
            PollOutcome::Pending,
        ),
{
}

/// End-of-stream propagates: once exhaustion is recorded and a side's slot
/// is empty, that side's very next poll observes end-of-stream, no matter
/// which side drove the source to exhaustion.
pub proof fn lemma_completion_propagates<T>(s: CoordState<T>, side: Side)
    requires
        s.done,
        !s.failed,
        s.buf(side) is None,
    ensures
        spec_start(s, side).1.step == PollStep::<T>::Done(PollOutcome::Finished),
{
}

/// End-of-stream after a drain: with exhaustion recorded and an item still
/// parked for a side, that side's next poll observes the parked item, and
/// the poll after that observes end-of-stream.
pub proof fn lemma_completion_after_drain<T>(s: CoordState<T>, side: Side)
    requires
        s.done,
        !s.failed,
        s.buf(side) is Some,
    ensures
        spec_start(s, side).1.step == PollStep::<T>::Done(
            PollOutcome::Item(s.buf(side)->Some_0),
        ),
        spec_start(spec_start(s, side).0, side).1.step == PollStep::<T>::Done(
            PollOutcome::Finished,
        ),
{
}

/// The failure is sticky: once recorded, every poll of either side answers
/// the failure, and neither side ever observes a further item — the
/// observed sequences never change again.
pub proof fn lemma_failure_is_sticky<T>(s: CoordState<T>, side: Side)
    requires
        s.failed,
    ensures
        spec_start(s, side).1.step == PollStep::<T>::Done(PollOutcome::Failed),
        spec_start(s, side).0.out_left == s.out_left,
        spec_start(s, side).0.out_right == s.out_right,
        spec_start(s, side).0.failed,
{
}

/// Backpressure: while an item is parked for the open peer, the would-be
/// driver stalls with a wake registration instead of advancing the source.
/// When the peer then polls, it observes the parked item at once and the
/// stalled side's wake handle fires; re-polled, the stalled side may drive
/// the source again.
pub proof fn lemma_backpressure_stall_and_release<T>(s: CoordState<T>, side: Side)
    requires
        !s.failed,
        !s.done,
        s.buf(side) is None,
        s.buf(side.spec_other()) is Some,
        !s.closed(side.spec_other()),
    ensures
        spec_start(s, side).1.step == PollStep::<T>::Done(PollOutcome::Pending),
        spec_start(s, side).0.waiting(side),
        spec_start(spec_start(s, side).0, side.spec_other()).1.step == PollStep::<T>::Done(
            PollOutcome::Item(s.buf(side.spec_other())->Some_0),
        ),
        spec_start(spec_start(s, side).0, side.spec_other()).1.wake_other,
        spec_start(
            spec_start(spec_start(s, side).0, side.spec_other()).0,
            side,
        ).1.step == PollStep::<T>::NeedSource,
{
}

} // verus!
