use cliq::BoardEvent;
use cliq::EventWrapper;
use cliq::Processor;

fn make_event(board_id: usize, trigger_id: u32) -> BoardEvent {
    let mut event = EventWrapper::new(1, 4);
    event.trigger_id = trigger_id;
    event.event_size = 8;
    BoardEvent { board_id, event }
}

fn feed(p: &mut Processor, board_id: usize, trigger_id: u32) -> Option<Vec<BoardEvent>> {
    p.push_event(make_event(board_id, trigger_id));
    p.try_emit()
}

#[test]
fn two_boards_in_step_align_without_drops() {
    let mut p = Processor::new(2);
    assert!(feed(&mut p, 0, 0).is_none());
    let g0 = feed(&mut p, 1, 0).expect("both fronts at 0");
    assert_eq!(g0.len(), 2);
    assert_eq!(g0[0].event.trigger_id, 0);
    assert_eq!(g0[1].event.trigger_id, 0);
    assert_eq!(g0[0].board_id, 0);
    assert_eq!(g0[1].board_id, 1);
    assert!(feed(&mut p, 0, 1).is_none());
    let g1 = feed(&mut p, 1, 1).expect("both fronts at 1");
    assert_eq!(g1[0].event.trigger_id, 1);
    assert_eq!(g1[1].event.trigger_id, 1);
    assert_eq!(p.misaligned_count, 0);
    assert_eq!(p.dropped_count, 0);
}

#[test]
fn stale_front_is_dropped_and_counted() {
    let mut p = Processor::new(2);
    assert!(feed(&mut p, 0, 0).is_none());
    // board 1 starts at 1: board 0's event 0 can never align and is dropped
    assert!(feed(&mut p, 1, 1).is_none());
    assert_eq!(p.misaligned_count, 1);
    // intermediate state: board 0 empty, board 1 still holding its event
    assert_eq!(p.queues[0].len(), 0);
    assert_eq!(p.queues[1].len(), 1);
    let g = feed(&mut p, 0, 1).expect("fronts agree at 1");
    assert_eq!(g[0].event.trigger_id, 1);
    assert_eq!(g[1].event.trigger_id, 1);
    assert_eq!(p.dropped_count, 0);
    // board 1 runs one ahead again
    assert!(feed(&mut p, 1, 2).is_none());
    assert_eq!(p.queues[0].len(), 0);
    assert_eq!(p.queues[1].len(), 1);
    assert_eq!(p.misaligned_count, 1);
    // the trailing event aligns as soon as board 0 catches up
    let g2 = feed(&mut p, 0, 2).expect("fronts agree at 2");
    assert_eq!(g2[0].event.trigger_id, 2);
    assert_eq!(p.misaligned_count, 1);
    assert_eq!(p.dropped_count, 0);
    assert_eq!(p.queues[0].len(), 0);
    assert_eq!(p.queues[1].len(), 0);
}

#[test]
fn skipped_identifiers_are_counted_as_dropped() {
    let mut p = Processor::new(2);
    assert!(feed(&mut p, 0, 0).is_none());
    let g0 = feed(&mut p, 1, 0).expect("group at 0");
    assert_eq!(g0[0].event.trigger_id, 0);
    assert_eq!(p.dropped_count, 0);
    // both boards jump to 3: identifiers 1 and 2 were skipped
    assert!(feed(&mut p, 0, 3).is_none());
    let g1 = feed(&mut p, 1, 3).expect("group at 3");
    assert_eq!(g1[0].event.trigger_id, 3);
    assert_eq!(p.dropped_count, 2);
    assert_eq!(p.misaligned_count, 0);
}

#[test]
fn first_group_sets_the_expected_identifier() {
    let mut p = Processor::new(2);
    // the run's first aligned group is at 5: nothing counts as dropped yet
    assert!(feed(&mut p, 0, 5).is_none());
    let g = feed(&mut p, 1, 5).expect("group at 5");
    assert_eq!(g[0].event.trigger_id, 5);
    assert_eq!(p.dropped_count, 0);
    // the next group at 6 is exactly the expected one
    assert!(feed(&mut p, 0, 6).is_none());
    feed(&mut p, 1, 6).expect("group at 6");
    assert_eq!(p.dropped_count, 0);
}

#[test]
fn burst_interleaving_drops_only_unmatchable_events() {
    let mut p = Processor::new(3);
    assert!(feed(&mut p, 0, 0).is_none());
    assert!(feed(&mut p, 0, 1).is_none());
    assert!(feed(&mut p, 1, 1).is_none());
    // board 2 arrives at 1: 0 on board 0 is stale and goes
    let g = feed(&mut p, 2, 1).expect("all fronts at 1");
    assert_eq!(g.len(), 3);
    assert_eq!(g[0].event.trigger_id, 1);
    assert_eq!(g[1].event.trigger_id, 1);
    assert_eq!(g[2].event.trigger_id, 1);
    assert_eq!(p.misaligned_count, 1);
    assert_eq!(p.dropped_count, 0);
}

#[test]
fn group_carries_event_payloads_through() {
    let mut p = Processor::new(1);
    let mut event = EventWrapper::new(2, 3);
    event.trigger_id = 7;
    event.timestamp = 42;
    event.flags = 3;
    event.board_fail = true;
    event.waveform_data.set(1, 2, 999);
    p.push_event(BoardEvent { board_id: 0, event });
    let g = p.try_emit().expect("single board aligns alone");
    assert_eq!(g[0].event.timestamp, 42);
    assert_eq!(g[0].event.flags, 3);
    assert!(g[0].event.board_fail);
    assert_eq!(g[0].event.waveform_data.get(1, 2), 999);
}
