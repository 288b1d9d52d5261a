use cliq::Counter;
use cliq::RunInfo;
use cliq::acquisition_status_bits;
use cliq::camp_dir_name;
use cliq::next_run_number;
use cliq::param_report;
use cliq::run_file_prefix;

#[test]
fn a_fresh_campaign_starts_at_run_zero() {
    assert_eq!(next_run_number(&vec![]), 0);
    assert_eq!(next_run_number(&vec![String::from("notes.txt")]), 0);
}

#[test]
fn the_next_run_is_one_past_the_largest() {
    let names = vec![
        String::from("run0_00.h5"),
        String::from("run3_00.h5"),
        String::from("run3_01.h5"),
        String::from("notes.txt"),
        String::from("run12_01.h5"),
    ];
    assert_eq!(next_run_number(&names), 13);
}

#[test]
fn malformed_names_are_ignored() {
    assert_eq!(next_run_number(&vec![String::from("runx_00.h5")]), 0);
    assert_eq!(next_run_number(&vec![String::from("run_00.h5")]), 0);
    assert_eq!(next_run_number(&vec![String::from("run")]), 0);
    assert_eq!(next_run_number(&vec![String::from("ru")]), 0);
    // digits running to the end of the name still count
    assert_eq!(next_run_number(&vec![String::from("run7")]), 8);
    // a huge number that no file count reaches is ignored, not misread
    assert_eq!(
        next_run_number(&vec![String::from("run99999999999999999999_00.h5")]),
        0
    );
}

#[test]
fn paths_compose_from_directory_campaign_and_run() {
    assert_eq!(camp_dir_name("/data", 3), "/data/camp3");
    assert_eq!(camp_dir_name("out", 0), "out/camp0");
    assert_eq!(run_file_prefix("/data/camp3", 12), "/data/camp3/run12");
    assert_eq!(
        cliq::subrun_file_name(&run_file_prefix("/data/camp3", 12), 0),
        "/data/camp3/run12_00.h5"
    );
}

#[test]
fn the_parameter_report_joins_lines() {
    let entries = vec![
        (String::from("ModelName"), String::from("VX2740")),
        (String::from("NumCh"), String::from("64")),
    ];
    assert_eq!(param_report(&entries), "ModelName: VX2740\nNumCh: 64");
    assert_eq!(param_report(&vec![]), "");
    assert_eq!(
        param_report(&vec![(String::from("A"), String::from("1"))]),
        "A: 1"
    );
}

#[test]
fn status_bits_render_most_significant_first() {
    assert_eq!(acquisition_status_bits(0), vec![false]);
    assert_eq!(acquisition_status_bits(1), vec![true]);
    assert_eq!(acquisition_status_bits(5), vec![true, false, true]);
    assert_eq!(
        acquisition_status_bits(0b1100_0000),
        vec![true, true, false, false, false, false, false, false]
    );
}

#[test]
fn counters_accumulate_and_reset() {
    let mut c = Counter::new();
    assert_eq!(c.total_size, 0);
    assert_eq!(c.n_events, 0);
    c.increment(1000);
    c.increment(24);
    assert_eq!(c.total_size, 1024);
    assert_eq!(c.n_events, 2);
    let copy = Counter::from(&c);
    assert_eq!(copy.total_size, 1024);
    assert_eq!(copy.n_events, 2);
    c.reset();
    assert_eq!(c.total_size, 0);
    assert_eq!(c.n_events, 0);
    assert_eq!(copy.total_size, 1024);
}

#[test]
fn a_run_snapshot_sums_its_group_sizes() {
    let info = RunInfo {
        event_sizes: vec![100, 250, 3],
        event_channel_buf: 7,
        misaligned_events: 1,
        dropped_events: 2,
    };
    assert_eq!(info.event_size(), 353);
    let empty = RunInfo {
        event_sizes: vec![],
        event_channel_buf: 0,
        misaligned_events: 0,
        dropped_events: 0,
    };
    assert_eq!(empty.event_size(), 0);
}
