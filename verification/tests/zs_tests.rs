use cliq::BoardEvent;
use cliq::EventWrapper;
use cliq::ZeroSuppressionEdge;
use cliq::zero_suppress;
use cliq::zs_gate;

fn event_with_channel(samples: &[u16]) -> BoardEvent {
    let mut event = EventWrapper::new(1, samples.len());
    for (i, &s) in samples.iter().enumerate() {
        event.waveform_data.set(0, i, s);
    }
    BoardEvent { board_id: 0, event }
}

fn channel_of(be: &BoardEvent) -> Vec<u16> {
    let mut out = Vec::new();
    let n = be.event.waveform_data.n_samples;
    for i in 0..n {
        out.push(be.event.waveform_data.get(0, i));
    }
    out
}

#[test]
fn rising_edge_zeroes_samples_under_threshold() {
    // baseline over the first four samples is 100
    let mut be = event_with_channel(&[100, 100, 100, 100, 120, 180, 200, 100]);
    zero_suppress(&mut be, 50, ZeroSuppressionEdge::Rise, 4);
    assert_eq!(channel_of(&be), vec![0, 0, 0, 0, 0, 180, 200, 0]);
}

#[test]
fn falling_edge_zeroes_samples_over_threshold() {
    // baseline 100; falling suppression zeroes excursions above it
    let mut be = event_with_channel(&[100, 100, 100, 100, 160, 40]);
    zero_suppress(&mut be, 50, ZeroSuppressionEdge::Fall, 4);
    assert_eq!(channel_of(&be), vec![100, 100, 100, 100, 0, 40]);
}

#[test]
fn fractional_baseline_is_exact() {
    // baseline is 401/4 = 100.25: sample 150 clears a threshold of 49,
    // sample 149 does not
    let mut be = event_with_channel(&[101, 100, 100, 100, 150, 149]);
    zero_suppress(&mut be, 49, ZeroSuppressionEdge::Rise, 4);
    assert_eq!(channel_of(&be), vec![0, 0, 0, 0, 150, 0]);
}

#[test]
fn rising_suppression_is_idempotent() {
    let samples = [100, 100, 100, 100, 120, 180, 200, 100];
    let mut once = event_with_channel(&samples);
    zero_suppress(&mut once, 50, ZeroSuppressionEdge::Rise, 4);
    let first = channel_of(&once);
    zero_suppress(&mut once, 50, ZeroSuppressionEdge::Rise, 4);
    assert_eq!(channel_of(&once), first);
}

#[test]
fn metadata_survives_suppression() {
    let mut be = event_with_channel(&[10, 10, 10, 10]);
    be.event.timestamp = 77;
    be.event.trigger_id = 9;
    be.event.flags = 2;
    zero_suppress(&mut be, 1, ZeroSuppressionEdge::Rise, 2);
    assert_eq!(be.event.timestamp, 77);
    assert_eq!(be.event.trigger_id, 9);
    assert_eq!(be.event.flags, 2);
    assert_eq!(be.board_id, 0);
}

#[test]
fn every_channel_is_suppressed_independently() {
    let mut event = EventWrapper::new(2, 4);
    // channel 0: flat at 10, one spike; channel 1: flat at 200
    for (i, &s) in [10u16, 10, 10, 90].iter().enumerate() {
        event.waveform_data.set(0, i, s);
    }
    for (i, &s) in [200u16, 200, 200, 200].iter().enumerate() {
        event.waveform_data.set(1, i, s);
    }
    let mut be = BoardEvent { board_id: 1, event };
    zero_suppress(&mut be, 50, ZeroSuppressionEdge::Rise, 2);
    // channel 0 baseline 10: only the 90 survives
    assert_eq!(be.event.waveform_data.get(0, 0), 0);
    assert_eq!(be.event.waveform_data.get(0, 3), 90);
    // channel 1 baseline 200: nothing clears the threshold
    for i in 0..4 {
        assert_eq!(be.event.waveform_data.get(1, i), 0);
    }
}

#[test]
fn the_gate_compares_strictly() {
    assert!(zs_gate(5, 4));
    assert!(!zs_gate(4, 4));
    assert!(!zs_gate(3, 4));
    assert!(zs_gate(1, 0));
    assert!(!zs_gate(u64::MAX, u64::MAX));
}
