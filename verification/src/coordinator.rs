use vstd::prelude::*;

use crate::event::{PollOutcome, PollStep, SourceEvent, StepResult};
use crate::laws::{
    lemma_close_preserves_inv, lemma_initial_inv, lemma_resume_preserves_inv,
    lemma_start_preserves_inv,
};
use crate::side::Side;
use crate::slot::SideSlot;
use crate::state::{opt_seq, spec_close, spec_resume, spec_start, CoordState};

verus! {

/// The single authoritative reader of the shared source. It owns one
/// hand-off slot and one wake registration per side, the end-of-stream
/// flag, and the sticky failure flag, and it takes every routing decision;
/// the host scheduler merely performs the source polls it demands and
/// invokes the wake handles it points at.
///
/// The host must let only one side execute a poll or close at a time (a
/// critical section around the calls); the `&mut` receiver makes that
/// exclusivity explicit here.
pub struct Coordinator<T> {
    left_slot: SideSlot<T>,
    right_slot: SideSlot<T>,
    left_closed: bool,
    right_closed: bool,
    left_waiting: bool,
    right_waiting: bool,
    done: bool,
    failed: bool,
    history: Ghost<Seq<(T, bool)>>,
    out_left: Ghost<Seq<T>>,
    out_right: Ghost<Seq<T>>,
    dropped_left: Ghost<Seq<T>>,
    dropped_right: Ghost<Seq<T>>,
}

impl<T> View for Coordinator<T> {
    type V = CoordState<T>;

    closed spec fn view(&self) -> CoordState<T> {
        CoordState {
            left_buf: self.left_slot@,
            right_buf: self.right_slot@,
            left_closed: self.left_closed,
            right_closed: self.right_closed,
            left_waiting: self.left_waiting,
            right_waiting: self.right_waiting,
            done: self.done,
            failed: self.failed,
            history: self.history@,
            out_left: self.out_left@,
            out_right: self.out_right@,
            dropped_left: self.dropped_left@,
            dropped_right: self.dropped_right@,
        }
    }
}

impl<T> Coordinator<T> {
    /// The coordinator invariant, stated over the abstract state.
    pub open spec fn inv(&self) -> bool {
        self@.inv()
    }

    /// A fresh coordinator: both slots free, both sides open, nothing
    /// pulled yet.
    pub fn new() -> (r: Coordinator<T>)
        ensures
            r.inv(),
            r@ == CoordState::<T>::initial(),
    {
        let r = Coordinator {
            left_slot: SideSlot::new(),
            right_slot: SideSlot::new(),
            left_closed: false,
            right_closed: false,
            left_waiting: false,
            right_waiting: false,
            done: false,
            failed: false,
            history: Ghost(Seq::empty()),
            out_left: Ghost(Seq::empty()),
            out_right: Ghost(Seq::empty()),
            dropped_left: Ghost(Seq::empty()),
            dropped_right: Ghost(Seq::empty()),
        };
        proof {
            lemma_initial_inv::<T>();
            assert(r@ =~= CoordState::<T>::initial());
        }
        r
    }

    /// Whether one side's handle has been destroyed.
    pub fn is_closed(&self, side: Side) -> (r: bool)
        ensures
            r == self@.closed(side),
    {
        match side {
            Side::Left => self.left_closed,
            Side::Right => self.right_closed,
        }
    }

    /// Whether `side` would act as driver: nothing parked for it, the
    /// source still live, and the other side able to absorb a wrong-side
    /// item.
    pub fn is_driving(&self, side: Side) -> (r: bool)
        ensures
            r == self@.driving(side),
    {
        !self.failed && !self.done && !self.is_closed(side) && !self.occupied(side) && (
        self.is_closed(side.other()) || !self.occupied(side.other()))
    }

    /// The poll entry for one side: surface the sticky failure, satisfy
    /// backlog from this side's own slot, surface end-of-stream, stall
    /// under backpressure, or demand one source poll (`NeedSource`), in
    /// that order. Behaves exactly as [`spec_start`] describes.
    pub fn start_poll(&mut self, side: Side) -> (r: StepResult<T>)
        requires
            old(self).inv(),
            !old(self)@.closed(side),
        ensures
            final(self).inv(),
            final(self)@ == spec_start(old(self)@, side).0,
            r == spec_start(old(self)@, side).1,
    {
        proof {
            lemma_start_preserves_inv(old(self)@, side);
        }
        if self.failed {
            self.set_waiting(side, false);
            proof {
                assert(self@ =~= spec_start(old(self)@, side).0);
            }
            StepResult { step: PollStep::Done(PollOutcome::Failed), wake_other: false }
        } else {
            let taken = self.take_buffered(side);
            match taken {
                Some(t) => {
                    match side {
                        Side::Left => {
                            self.out_left = Ghost(self.out_left@.push(t));
                        },
                        Side::Right => {
                            self.out_right = Ghost(self.out_right@.push(t));
                        },
                    }
                    self.set_waiting(side, false);
                    let wake = self.get_waiting(side.other());
                    self.set_waiting(side.other(), false);
                    proof {
                        assert(self@ =~= spec_start(old(self)@, side).0);
                    }
                    StepResult { step: PollStep::Done(PollOutcome::Item(t)), wake_other: wake }
                },
                None => {
                    if self.done {
                        self.set_waiting(side, false);
                        proof {
                            assert(self@ =~= spec_start(old(self)@, side).0);
                        }
                        StepResult { step: PollStep::Done(PollOutcome::Finished), wake_other: false }
                    } else if self.occupied(side.other()) && !self.is_closed(side.other()) {
                        self.set_waiting(side, true);
                        proof {
                            assert(self@ =~= spec_start(old(self)@, side).0);
                        }
                        StepResult { step: PollStep::Done(PollOutcome::Pending), wake_other: false }
                    } else {
                        self.set_waiting(side, false);
                        proof {
                            assert(self@ =~= spec_start(old(self)@, side).0);
                        }
                        StepResult { step: PollStep::NeedSource, wake_other: false }
                    }
                },
            }
        }
    }

    /// The driver's reaction to the one source observation the caller was
    /// asked for. Behaves exactly as [`spec_resume`] describes: an
    /// own-side item is returned directly; a wrong-side item is drained for
    /// a closed peer (and the pull continues) or parked in the open peer's
    /// free slot (and the driver stalls); exhaustion and failure are
    /// recorded irreversibly, waking the suspended peer so it re-polls and
    /// observes them.
    pub fn resume_with_event(&mut self, side: Side, ev: SourceEvent<T>) -> (r: StepResult<T>)
        requires
            old(self).inv(),
            old(self)@.driving(side),
        ensures
            final(self).inv(),
            final(self)@ == spec_resume(old(self)@, side, ev).0,
            r == spec_resume(old(self)@, side, ev).1,
    {
        proof {
            lemma_resume_preserves_inv(old(self)@, side, ev);
        }
        match ev {
            SourceEvent::Pending => {
                self.set_waiting(side, true);
                proof {
                    assert(self@ =~= spec_resume(old(self)@, side, ev).0);
                }
                StepResult { step: PollStep::Done(PollOutcome::Pending), wake_other: false }
            },
            SourceEvent::Finished => {
                self.done = true;
                self.set_waiting(side, false);
                let wake = self.get_waiting(side.other());
                self.set_waiting(side.other(), false);
                proof {
                    assert(self@ =~= spec_resume(old(self)@, side, ev).0);
                }
                StepResult { step: PollStep::Done(PollOutcome::Finished), wake_other: wake }
            },
            SourceEvent::Failed => {
                self.failed = true;
                self.set_waiting(side, false);
                let wake = self.get_waiting(side.other());
                self.set_waiting(side.other(), false);
                proof {
                    assert(self@ =~= spec_resume(old(self)@, side, ev).0);
                }
                StepResult { step: PollStep::Done(PollOutcome::Failed), wake_other: wake }
            },
            SourceEvent::Item(t, to_left) => {
                self.history = Ghost(self.history@.push((t, to_left)));
                if side.accepts(to_left) {
                    match side {
                        Side::Left => {
                            self.out_left = Ghost(self.out_left@.push(t));
                        },
                        Side::Right => {
                            self.out_right = Ghost(self.out_right@.push(t));
                        },
                    }
                    self.set_waiting(side, false);
                    proof {
                        assert(self@ =~= spec_resume(old(self)@, side, ev).0);
                    }
                    StepResult { step: PollStep::Done(PollOutcome::Item(t)), wake_other: false }
                } else if self.is_closed(side.other()) {
                    match side.other() {
                        Side::Left => {
                            self.dropped_left = Ghost(self.dropped_left@.push(t));
                        },
                        Side::Right => {
                            self.dropped_right = Ghost(self.dropped_right@.push(t));
                        },
                    }
                    proof {
                        assert(self@ =~= spec_resume(old(self)@, side, ev).0);
                    }
                    StepResult { step: PollStep::NeedSource, wake_other: false }
                } else {
                    let wake = self.get_waiting(side.other());
                    self.put_buffered(side.other(), t);
                    self.set_waiting(side.other(), false);
                    self.set_waiting(side, true);
                    proof {
                        assert(self@ =~= spec_resume(old(self)@, side, ev).0);
                    }
                    StepResult { step: PollStep::Done(PollOutcome::Pending), wake_other: wake }
                }
            },
        }
    }

    /// Closing one side, fired once when its handle is destroyed: the side
    /// is marked closed (irreversibly), anything parked for it is drained,
    /// and the returned flag tells the caller to invoke the other side's
    /// wake handle, since that side may be stalled on this side's slot
    /// capacity. Behaves exactly as [`spec_close`] describes.
    pub fn close_side(&mut self, side: Side) -> (wake_other: bool)
        requires
            old(self).inv(),
            !old(self)@.closed(side),
        ensures
            final(self).inv(),
            final(self)@ == spec_close(old(self)@, side).0,
            wake_other == spec_close(old(self)@, side).1,
    {
        proof {
            lemma_close_preserves_inv(old(self)@, side);
        }
        let taken = self.take_buffered(side);
        match side {
            Side::Left => {
                self.dropped_left = Ghost(self.dropped_left@ + opt_seq(taken));
                self.left_closed = true;
            },
            Side::Right => {
                self.dropped_right = Ghost(self.dropped_right@ + opt_seq(taken));
                self.right_closed = true;
            },
        }
        self.set_waiting(side, false);
        let wake = self.get_waiting(side.other());
        self.set_waiting(side.other(), false);
        proof {
            assert(self@ =~= spec_close(old(self)@, side).0);
        }
        wake
    }

    /// Whether an item is parked in one side's slot.
    fn occupied(&self, side: Side) -> (r: bool)
        ensures
            r == (self@.buf(side) is Some),
    {
        match side {
            Side::Left => self.left_slot.is_occupied(),
            Side::Right => self.right_slot.is_occupied(),
        }
    }

    /// Take-if-present on one side's slot.
    fn take_buffered(&mut self, side: Side) -> (r: Option<T>)
        ensures
            r == old(self)@.buf(side),
            final(self)@ == old(self)@.with_buf(side, None),
    {
        let r = match side {
            Side::Left => self.left_slot.take(),
            Side::Right => self.right_slot.take(),
        };
        proof {
            assert(self@ =~= old(self)@.with_buf(side, None));
        }
        r
    }

    /// Put-if-empty on one side's slot.
    fn put_buffered(&mut self, side: Side, t: T)
        requires
            old(self)@.buf(side) is None,
        ensures
            final(self)@ == old(self)@.with_buf(side, Some(t)),
    {
        match side {
            Side::Left => self.left_slot.put(t),
            Side::Right => self.right_slot.put(t),
        }
        proof {
            assert(self@ =~= old(self)@.with_buf(side, Some(t)));
        }
    }

    /// One side's wake-registration flag.
    fn get_waiting(&self, side: Side) -> (r: bool)
        ensures
            r == self@.waiting(side),
    {
        match side {
            Side::Left => self.left_waiting,
            Side::Right => self.right_waiting,
        }
    }

    /// Overwrite one side's wake-registration flag.
    fn set_waiting(&mut self, side: Side, w: bool)
        ensures
            final(self)@ == old(self)@.with_waiting(side, w),
    {
        match side {
            Side::Left => self.left_waiting = w,
            Side::Right => self.right_waiting = w,
        }
        proof {
            assert(self@ =~= old(self)@.with_waiting(side, w));
        }
    }
}

/// The externally visible face of one side: a capability token carrying a
/// fixed side identity. Every call delegates to the coordinator, tagged
/// with that identity; a host wrapper calls [`PartitionHandle::close`]
/// exactly once, when the handle's owner destroys it.
pub struct PartitionHandle {
    pub side: Side,
}

impl PartitionHandle {
    /// Begin one poll of this side. See [`Coordinator::start_poll`].
    pub fn poll<T>(&self, coordinator: &mut Coordinator<T>) -> (r: StepResult<T>)
        requires
            old(coordinator).inv(),
            !old(coordinator)@.closed(self.side),
        ensures
            final(coordinator).inv(),
            final(coordinator)@ == spec_start(old(coordinator)@, self.side).0,
            r == spec_start(old(coordinator)@, self.side).1,
    {
        coordinator.start_poll(self.side)
    }

    /// Hand a source observation back to the coordinator while this side
    /// drives. See [`Coordinator::resume_with_event`].
    pub fn resume<T>(&self, coordinator: &mut Coordinator<T>, ev: SourceEvent<T>) -> (r:
        StepResult<T>)
        requires
            old(coordinator).inv(),
            old(coordinator)@.driving(self.side),
        ensures
            final(coordinator).inv(),
            final(coordinator)@ == spec_resume(old(coordinator)@, self.side, ev).0,
            r == spec_resume(old(coordinator)@, self.side, ev).1,
    {
        coordinator.resume_with_event(self.side, ev)
    }

    /// Mark this side closed, on destruction of the handle. See
    /// [`Coordinator::close_side`].
    pub fn close<T>(&self, coordinator: &mut Coordinator<T>) -> (wake_other: bool)
        requires
            old(coordinator).inv(),
            !old(coordinator)@.closed(self.side),
        ensures
            final(coordinator).inv(),
            final(coordinator)@ == spec_close(old(coordinator)@, self.side).0,
            wake_other == spec_close(old(coordinator)@, self.side).1,
    {
        coordinator.close_side(self.side)
    }
}

/// Construct a partition: one coordinator and its two consumer-facing
/// handles, created together. The source itself and the classifying
/// predicate stay with the host scheduler, which evaluates the predicate
/// once per pulled item and reports the verdict on each
/// [`SourceEvent::Item`].
pub fn partition<T>() -> (r: (Coordinator<T>, PartitionHandle, PartitionHandle))
    ensures
        r.0.inv(),
        r.0@ == CoordState::<T>::initial(),
        r.1.side == Side::Left,
        r.2.side == Side::Right,
{
    (Coordinator::new(), PartitionHandle { side: Side::Left }, PartitionHandle {
        side: Side::Right,
    })
}

} // verus!
