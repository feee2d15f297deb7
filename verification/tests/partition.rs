use partition_stream::coordinator::{partition, Coordinator, PartitionHandle};
use partition_stream::event::{PollOutcome, PollStep, SourceEvent, StepResult};
use partition_stream::side::Side;
use partition_stream::slot::SideSlot;

/// The next event of an always-ready source over `items`, classifying even
/// items to the left side.
fn next_event(items: &[usize], pos: &mut usize) -> SourceEvent<usize> {
    if *pos < items.len() {
        let t = items[*pos];
        *pos += 1;
        SourceEvent::Item(t, t % 2 == 0)
    } else {
        SourceEvent::Finished
    }
}

/// One complete poll of `h` against an always-ready source: feeds source
/// events until the coordinator settles on an outcome.
fn poll_once(
    c: &mut Coordinator<usize>,
    h: &PartitionHandle,
    items: &[usize],
    pos: &mut usize,
) -> (PollOutcome<usize>, bool) {
    let mut r: StepResult<usize> = h.poll(c);
    loop {
        match r.step {
            PollStep::Done(out) => return (out, r.wake_other),
            PollStep::NeedSource => {
                let ev = next_event(items, pos);
                r = h.resume(c, ev);
            }
        }
    }
}

/// Polls `h` to completion, panicking if it ever stalls or fails.
fn drain_side(
    c: &mut Coordinator<usize>,
    h: &PartitionHandle,
    items: &[usize],
    pos: &mut usize,
) -> Vec<usize> {
    let mut got: Vec<usize> = Vec::new();
    loop {
        match poll_once(c, h, items, pos).0 {
            PollOutcome::Item(t) => got.push(t),
            PollOutcome::Finished => return got,
            PollOutcome::Failed => panic!("unexpected failure"),
            PollOutcome::Pending => panic!("unexpected stall"),
        }
    }
}

#[test]
fn it_receives_things_on_the_left() {
    let items: Vec<usize> = vec![1, 2, 3, 4];
    let (mut c, a, b) = partition::<usize>();
    let mut pos: usize = 0;
    // The left side polls first; the odd leading item is parked for the
    // right side, so the driver stalls until the right side drains it.
    let (first_left, _) = poll_once(&mut c, &a, &items, &mut pos);
    assert_eq!(first_left, PollOutcome::Pending);
    let (first_right, _) = poll_once(&mut c, &b, &items, &mut pos);
    assert_eq!(first_right, PollOutcome::Item(1));
    let (second_left, _) = poll_once(&mut c, &a, &items, &mut pos);
    assert_eq!(second_left, PollOutcome::Item(2));
}

#[test]
fn even_items_go_left_odd_items_go_right() {
    let items: Vec<usize> = vec![1, 2, 3, 4];
    let (mut c, left, right) = partition::<usize>();
    let mut pos: usize = 0;
    let mut got_left: Vec<usize> = Vec::new();
    let mut got_right: Vec<usize> = Vec::new();
    let mut left_done = false;
    let mut right_done = false;
    let mut turn_left = true;
    while !left_done || !right_done {
        if turn_left && !left_done {
            match poll_once(&mut c, &left, &items, &mut pos).0 {
                PollOutcome::Item(t) => got_left.push(t),
                PollOutcome::Finished => left_done = true,
                PollOutcome::Pending => {}
                PollOutcome::Failed => panic!("unexpected failure"),
            }
        } else if !turn_left && !right_done {
            match poll_once(&mut c, &right, &items, &mut pos).0 {
                PollOutcome::Item(t) => got_right.push(t),
                PollOutcome::Finished => right_done = true,
                PollOutcome::Pending => {}
                PollOutcome::Failed => panic!("unexpected failure"),
            }
        }
        turn_left = !turn_left;
    }
    assert_eq!(got_left, vec![2, 4]);
    assert_eq!(got_right, vec![1, 3]);
}

#[test]
fn even_items_go_left_when_right_leads() {
    let items: Vec<usize> = vec![1, 2, 3, 4];
    let (mut c, left, right) = partition::<usize>();
    let mut pos: usize = 0;
    let mut got_left: Vec<usize> = Vec::new();
    let mut got_right: Vec<usize> = Vec::new();
    let mut left_done = false;
    let mut right_done = false;
    let mut turn_left = false;
    while !left_done || !right_done {
        if turn_left && !left_done {
            match poll_once(&mut c, &left, &items, &mut pos).0 {
                PollOutcome::Item(t) => got_left.push(t),
                PollOutcome::Finished => left_done = true,
                PollOutcome::Pending => {}
                PollOutcome::Failed => panic!("unexpected failure"),
            }
        } else if !turn_left && !right_done {
            match poll_once(&mut c, &right, &items, &mut pos).0 {
                PollOutcome::Item(t) => got_right.push(t),
                PollOutcome::Finished => right_done = true,
                PollOutcome::Pending => {}
                PollOutcome::Failed => panic!("unexpected failure"),
            }
        }
        turn_left = !turn_left;
    }
    assert_eq!(got_left, vec![2, 4]);
    assert_eq!(got_right, vec![1, 3]);
}

#[test]
fn dropped_right_side_never_stalls_left() {
    let items: Vec<usize> = vec![1, 2, 3, 4];
    let (mut c, left, right) = partition::<usize>();
    let mut pos: usize = 0;
    // The right handle is destroyed before ever polling: its side becomes
    // an unconditional drain and the left side runs to completion without
    // a single stall (drain_side panics on any Pending).
    let woke = right.close(&mut c);
    assert!(!woke);
    let got_left = drain_side(&mut c, &left, &items, &mut pos);
    assert_eq!(got_left, vec![2, 4]);
}

#[test]
fn backpressure_stalls_driver_until_slot_frees() {
    let items: Vec<usize> = vec![2, 2, 1, 1, 1];
    let (mut c, left, right) = partition::<usize>();
    let mut pos: usize = 0;
    // The left side takes the first even item directly, then stops.
    let (l1, _) = poll_once(&mut c, &left, &items, &mut pos);
    assert_eq!(l1, PollOutcome::Item(2));
    // Driving for the right side pulls the second even item, parks it for
    // the left side, and stalls; polled again it must still stall, even
    // though only right-bound items remain in the source.
    let (r1, _) = poll_once(&mut c, &right, &items, &mut pos);
    assert_eq!(r1, PollOutcome::Pending);
    let (r2, _) = poll_once(&mut c, &right, &items, &mut pos);
    assert_eq!(r2, PollOutcome::Pending);
    // The left side polls, immediately observes the deferred item, and
    // frees its slot; the stalled right side's wake handle must fire.
    let (l2, woke_right) = poll_once(&mut c, &left, &items, &mut pos);
    assert_eq!(l2, PollOutcome::Item(2));
    assert!(woke_right);
    // Re-polled, the right side drives again and gets its item at once.
    let (r3, _) = poll_once(&mut c, &right, &items, &mut pos);
    assert_eq!(r3, PollOutcome::Item(1));
}

#[test]
fn completion_reaches_the_side_that_never_drove() {
    let items: Vec<usize> = vec![2, 4];
    let (mut c, left, right) = partition::<usize>();
    let mut pos: usize = 0;
    // The left side alone polls the source to exhaustion.
    let got_left = drain_side(&mut c, &left, &items, &mut pos);
    assert_eq!(got_left, vec![2, 4]);
    // The right side's very next poll observes end-of-stream without ever
    // having driven the source.
    let (r1, _) = poll_once(&mut c, &right, &items, &mut pos);
    assert_eq!(r1, PollOutcome::Finished);
}

#[test]
fn completion_wakes_the_suspended_peer() {
    let (mut c, left, right) = partition::<usize>();
    // The right side finds the source not ready and suspends.
    let step = right.poll(&mut c);
    assert_eq!(step.step, PollStep::NeedSource);
    let step = right.resume(&mut c, SourceEvent::Pending);
    assert_eq!(step.step, PollStep::Done(PollOutcome::Pending));
    // The left side then drives and observes exhaustion: the suspended
    // right side must be woken so it re-polls and sees end-of-stream.
    let step = left.poll(&mut c);
    assert_eq!(step.step, PollStep::NeedSource);
    let step = left.resume(&mut c, SourceEvent::Finished);
    assert_eq!(step.step, PollStep::Done(PollOutcome::Finished));
    assert!(step.wake_other);
    let step = right.poll(&mut c);
    assert_eq!(step.step, PollStep::Done(PollOutcome::Finished));
}

#[test]
fn failure_while_serving_left_surfaces_on_right() {
    let (mut c, left, right) = partition::<usize>();
    // The left side is served one item, then observes a source failure.
    let step = left.poll(&mut c);
    assert_eq!(step.step, PollStep::NeedSource);
    let step = left.resume(&mut c, SourceEvent::Item(2, true));
    assert_eq!(step.step, PollStep::Done(PollOutcome::Item(2)));
    let step = left.poll(&mut c);
    assert_eq!(step.step, PollStep::NeedSource);
    let step = left.resume(&mut c, SourceEvent::Failed);
    assert_eq!(step.step, PollStep::Done(PollOutcome::Failed));
    // The right side's next poll reports the same failure and never
    // produces an item; the failure is sticky on both sides.
    let step = right.poll(&mut c);
    assert_eq!(step.step, PollStep::Done(PollOutcome::Failed));
    let step = left.poll(&mut c);
    assert_eq!(step.step, PollStep::Done(PollOutcome::Failed));
}

#[test]
fn empty_source_finishes_both_sides() {
    let items: Vec<usize> = vec![];
    let (mut c, left, right) = partition::<usize>();
    let mut pos: usize = 0;
    let (l1, _) = poll_once(&mut c, &left, &items, &mut pos);
    assert_eq!(l1, PollOutcome::Finished);
    let (r1, _) = poll_once(&mut c, &right, &items, &mut pos);
    assert_eq!(r1, PollOutcome::Finished);
}

#[test]
fn parking_an_item_wakes_the_waiting_side() {
    let (mut c, left, right) = partition::<usize>();
    // The left side suspends on a source that is not ready.
    let step = left.poll(&mut c);
    assert_eq!(step.step, PollStep::NeedSource);
    let step = left.resume(&mut c, SourceEvent::Pending);
    assert_eq!(step.step, PollStep::Done(PollOutcome::Pending));
    // The right side drives, pulls a left-bound item, and parks it: the
    // suspended left side must be woken.
    let step = right.poll(&mut c);
    assert_eq!(step.step, PollStep::NeedSource);
    let step = right.resume(&mut c, SourceEvent::Item(2, true));
    assert_eq!(step.step, PollStep::Done(PollOutcome::Pending));
    assert!(step.wake_other);
    // Re-polled, the left side observes the parked item immediately.
    let step = left.poll(&mut c);
    assert_eq!(step.step, PollStep::Done(PollOutcome::Item(2)));
}

#[test]
fn closing_a_side_drains_its_slot_and_wakes_the_driver() {
    let (mut c, left, right) = partition::<usize>();
    // The left side drives, pulls a right-bound item, parks it, stalls.
    let step = left.poll(&mut c);
    assert_eq!(step.step, PollStep::NeedSource);
    let step = left.resume(&mut c, SourceEvent::Item(1, false));
    assert_eq!(step.step, PollStep::Done(PollOutcome::Pending));
    // Destroying the right handle drains the parked item and must wake the
    // stalled left side.
    let woke = right.close(&mut c);
    assert!(woke);
    // The left side can now drive again to its own next item.
    let step = left.poll(&mut c);
    assert_eq!(step.step, PollStep::NeedSource);
    let step = left.resume(&mut c, SourceEvent::Item(2, true));
    assert_eq!(step.step, PollStep::Done(PollOutcome::Item(2)));
}

#[test]
fn side_identities_are_fixed() {
    let (_c, left, right) = partition::<usize>();
    assert_eq!(left.side, Side::Left);
    assert_eq!(right.side, Side::Right);
}

#[test]
fn slot_holds_at_most_one_item() {
    let mut slot: SideSlot<usize> = SideSlot::new();
    assert!(!slot.is_occupied());
    slot.put(7);
    assert!(slot.is_occupied());
    assert_eq!(slot.take(), Some(7));
    assert!(!slot.is_occupied());
    assert_eq!(slot.take(), None);
}
