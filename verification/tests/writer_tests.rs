use cliq::BoardData;
use cliq::HDF5Writer;
use cliq::Waveform;
use cliq::WriteError;
use cliq::WriterOutcome;

fn wave(n_channels: usize, n_samples: usize, fill: u16) -> Waveform {
    let mut w = Waveform::new(n_channels, n_samples);
    let mut c = 0;
    while c < n_channels {
        let mut i = 0;
        while i < n_samples {
            w.set(c, i, fill);
            i += 1;
        }
        c += 1;
    }
    w
}

#[test]
fn events_flush_in_whole_chunks_and_roll_over() {
    // two channels, four samples, two boards, two events per file, chunks of two
    let mut w = HDF5Writer::new(String::from("run0"), 2, 4, 2, 2, 2, 5, 2);
    assert_eq!(w.current_file_name(), "run0_00.h5");

    // first event per board is only staged
    match w.append_event(0, 10, wave(2, 4, 1), 0, 0, false).unwrap() {
        WriterOutcome::Staged => {}
        _ => panic!("first event should stage"),
    }
    match w.append_event(1, 11, wave(2, 4, 2), 0, 0, false).unwrap() {
        WriterOutcome::Staged => {}
        _ => panic!("first event should stage"),
    }

    // the second fills the chunk: a flush at ordinals [0, 2)
    match w.append_event(0, 20, wave(2, 4, 3), 1, 0, false).unwrap() {
        WriterOutcome::Flushed(wb) => {
            assert_eq!(wb.board, 0);
            assert_eq!(wb.start, 0);
            assert_eq!(wb.events.len(), 2);
            assert_eq!(wb.events[0].timestamp, 10);
            assert_eq!(wb.events[0].trigger_id, 0);
            assert_eq!(wb.events[1].timestamp, 20);
            assert_eq!(wb.events[1].trigger_id, 1);
        }
        _ => panic!("second event should flush the chunk"),
    }
    match w.append_event(1, 21, wave(2, 4, 4), 1, 0, false).unwrap() {
        WriterOutcome::Flushed(wb) => {
            assert_eq!(wb.board, 1);
            assert_eq!(wb.start, 0);
            assert_eq!(wb.events.len(), 2);
        }
        _ => panic!("second event should flush the chunk"),
    }

    // a third event exceeds the per-file cap: rollover into subrun 01
    match w.append_event(0, 30, wave(2, 4, 5), 2, 0, false).unwrap() {
        WriterOutcome::RolledOver(plan) => {
            assert_eq!(plan.subrun, 1);
            assert_eq!(plan.filename, "run0_01.h5");
            // everything was flushed, so nothing is carried over
            assert_eq!(plan.carried.len(), 2);
            assert_eq!(plan.carried[0].events.len(), 0);
            assert_eq!(plan.carried[1].events.len(), 0);
            assert_eq!(plan.saved_events, 0);
            assert!(plan.post_flush.is_none());
        }
        _ => panic!("third event should roll the file over"),
    }
    assert_eq!(w.subrun, 1);
    assert_eq!(w.current_file_name(), "run0_01.h5");

    // the matching event on board 1 lands in the new file without rollover
    match w.append_event(1, 31, wave(2, 4, 6), 2, 0, false).unwrap() {
        WriterOutcome::Staged => {}
        _ => panic!("the new file has room"),
    }

    // flushing writes the one staged event per board and records the total
    let (batches, saved) = w.flush_all();
    assert_eq!(saved, 2);
    assert_eq!(w.saved_events, 2);
    assert_eq!(batches.len(), 2);
    assert_eq!(batches[0].board, 0);
    assert_eq!(batches[0].start, 0);
    assert_eq!(batches[0].events.len(), 1);
    assert_eq!(batches[0].events[0].timestamp, 30);
    assert_eq!(batches[1].events[0].timestamp, 31);
}

#[test]
fn rollover_carries_staged_events_into_the_new_file() {
    // one board, cap of three events per file, chunks of three
    let mut w = HDF5Writer::new(String::from("run4"), 1, 2, 1, 3, 3, 5, 2);
    match w.append_event(0, 1, wave(1, 2, 1), 0, 0, false).unwrap() {
        WriterOutcome::Staged => {}
        _ => panic!("staged"),
    }
    match w.append_event(0, 2, wave(1, 2, 2), 1, 0, false).unwrap() {
        WriterOutcome::Staged => {}
        _ => panic!("staged"),
    }
    // two staged, one more would fit, but force the boundary by hand
    let plan = w.rollover();
    assert_eq!(plan.subrun, 1);
    assert_eq!(plan.filename, "run4_01.h5");
    assert_eq!(plan.carried.len(), 1);
    assert_eq!(plan.carried[0].board, 0);
    assert_eq!(plan.carried[0].start, 0);
    assert_eq!(plan.carried[0].events.len(), 2);
    assert_eq!(plan.carried[0].events[0].timestamp, 1);
    assert_eq!(plan.carried[0].events[1].timestamp, 2);
    assert_eq!(plan.saved_events, 2);
    // the carried events count against the new file's cap
    let (_, saved) = w.flush_all();
    assert_eq!(saved, 2);
}

#[test]
fn mismatched_dimensions_are_refused() {
    let mut w = HDF5Writer::new(String::from("run1"), 2, 4, 1, 8, 2, 5, 2);
    let r = w.append_event(0, 0, wave(2, 3, 0), 0, 0, false);
    assert_eq!(r.unwrap_err(), WriteError::DimensionMismatch);
    let r = w.append_event(0, 0, wave(1, 4, 0), 0, 0, false);
    assert_eq!(r.unwrap_err(), WriteError::DimensionMismatch);
    // the right shape is accepted
    assert!(w.append_event(0, 0, wave(2, 4, 0), 0, 0, false).is_ok());
}

#[test]
fn capacity_of_one_flushes_every_event() {
    let mut w = HDF5Writer::new(String::from("run2"), 1, 1, 1, 2, 1, 5, 2);
    match w.append_event(0, 5, wave(1, 1, 9), 0, 0, true).unwrap() {
        WriterOutcome::Flushed(wb) => {
            assert_eq!(wb.start, 0);
            assert_eq!(wb.events.len(), 1);
            assert!(wb.events[0].fail);
        }
        _ => panic!("chunk of one flushes at once"),
    }
    match w.append_event(0, 6, wave(1, 1, 9), 1, 0, false).unwrap() {
        WriterOutcome::Flushed(wb) => assert_eq!(wb.start, 1),
        _ => panic!("chunk of one flushes at once"),
    }
    // the file is full: the next append rolls over and flushes in the new file
    match w.append_event(0, 7, wave(1, 1, 9), 2, 0, false).unwrap() {
        WriterOutcome::RolledOver(plan) => {
            assert_eq!(plan.subrun, 1);
            let wb = plan.post_flush.expect("chunk of one flushes after rollover");
            assert_eq!(wb.board, 0);
            assert_eq!(wb.start, 0);
            assert_eq!(wb.events.len(), 1);
            assert_eq!(wb.events[0].timestamp, 7);
        }
        _ => panic!("full file must roll over"),
    }
}

#[test]
fn board_staging_refuses_appends_past_the_cap() {
    let mut b = BoardData::new(1, 1, 1, 1);
    // the single slot flushes at once
    let fs = b.append_event(1, wave(1, 1, 0), 0, 0, false).unwrap().unwrap();
    assert_eq!(fs.start, 0);
    assert_eq!(b.current_event, 1);
    // the file is full
    let r = b.append_event(2, wave(1, 1, 0), 1, 0, false);
    assert_eq!(r.unwrap_err(), WriteError::CapacityReached);
    // a fresh file cannot take a buffer larger than its cap either
    let mut fresh = BoardData::new(1, 1, 1, 1);
    let big = vec![
        cliq::StagedEvent { timestamp: 1, waveform: wave(1, 1, 0), trigger_id: 0, flag: 0, fail: false },
        cliq::StagedEvent { timestamp: 2, waveform: wave(1, 1, 0), trigger_id: 1, flag: 0, fail: false },
    ];
    assert_eq!(fresh.append_buffer(big).unwrap_err(), WriteError::CapacityReached);
}

#[test]
fn what_reaches_the_files_is_what_was_appended_in_order() {
    // drive a stream of events through flushes and a rollover boundary and
    // reassemble, per board, everything handed out for writing
    let mut w = HDF5Writer::new(String::from("run9"), 1, 1, 1, 3, 2, 5, 2);
    let mut written: Vec<(String, usize, u64)> = Vec::new();
    let mut record = |file: &str, wb: &cliq::WriteBatch, written: &mut Vec<(String, usize, u64)>| {
        for (k, e) in wb.events.iter().enumerate() {
            written.push((file.to_string(), wb.start + k, e.timestamp));
        }
    };
    let appended: Vec<u64> = vec![10, 20, 30, 40, 50];
    for (n, &ts) in appended.iter().enumerate() {
        let file = w.current_file_name();
        match w.append_event(0, ts, wave(1, 1, 0), n as u32, 0, false).unwrap() {
            WriterOutcome::Staged => {}
            WriterOutcome::Flushed(wb) => record(&file, &wb, &mut written),
            WriterOutcome::RolledOver(plan) => {
                for wb in &plan.carried {
                    record(&plan.filename, wb, &mut written);
                }
                if let Some(wb) = &plan.post_flush {
                    record(&plan.filename, wb, &mut written);
                }
            }
        }
    }
    let file = w.current_file_name();
    let (batches, _) = w.flush_all();
    for wb in &batches {
        record(&file, wb, &mut written);
    }
    // ordinals are contiguous from zero within each file, and the
    // concatenation in (file, ordinal) order is the appended sequence
    written.sort();
    let replay: Vec<u64> = written.iter().map(|&(_, _, ts)| ts).collect();
    assert_eq!(replay, appended);
    assert_eq!(written[0].0, "run9_00.h5");
    assert_eq!(written[0].1, 0);
    assert_eq!(written.last().unwrap().0, "run9_01.h5");
}

#[test]
fn subrun_names_are_zero_padded() {
    assert_eq!(cliq::subrun_file_name("d/run3", 0), "d/run3_00.h5");
    assert_eq!(cliq::subrun_file_name("d/run3", 7), "d/run3_07.h5");
    assert_eq!(cliq::subrun_file_name("d/run3", 12), "d/run3_12.h5");
    assert_eq!(cliq::subrun_file_name("d/run3", 100), "d/run3_100.h5");
}
