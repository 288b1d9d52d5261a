use cliq::BoardSettings;
use cliq::ChannelConfig;
use cliq::CommonSettings;
use cliq::Conf;
use cliq::DCOffsetConfig;
use cliq::ITLConnect;
use cliq::PerBoardSettings;
use cliq::PerBoardSync;
use cliq::RunSettings;
use cliq::SamplesOverThr;
use cliq::SyncSettings;
use cliq::TriggerEdge;
use cliq::TriggerThr;
use cliq::TriggerThrMode;
use cliq::ZeroSuppressionEdge;
use cliq::configure_board;
use cliq::configure_sync;
use cliq::get_clock_out_delay;
use cliq::get_run_delay;

fn sample_conf() -> Conf {
    Conf {
        run_settings: RunSettings {
            boards: vec![String::from("dig2://b0"), String::from("dig2://b1")],
            run_duration: 60,
            output_dir: String::from("/data"),
            campaign_num: 1,
            blosc_threads: 5,
            compression_level: 2,
            zs_level: 0,
            zs_threshold: 50,
            zs_edge: ZeroSuppressionEdge::Rise,
            zs_samples: 4,
        },
        board_settings: BoardSettings {
            common: CommonSettings { record_len: 1024, pre_trig_len: 100 },
            boards: vec![
                PerBoardSettings {
                    en_chans: ChannelConfig::List(vec![0, 63]),
                    trig_source: String::from("SwTrg"),
                    dc_offset: DCOffsetConfig::Global(String::from("20")),
                    io_level: String::from("NIM"),
                    test_pulse_period: 1000,
                    test_pulse_width: 16,
                    test_pulse_low: 0,
                    test_pulse_high: 10000,
                    trig_thr: TriggerThr::Global(-300),
                    trig_thr_mode: TriggerThrMode::Global(String::from("Relative")),
                    trig_edge: TriggerEdge::Fall,
                    samples_over_thr: SamplesOverThr::Global(8),
                    itl_logic: String::from("OR"),
                    itl_majority_level: 2,
                    itl_pair_logic: String::from("NONE"),
                    itl_polarity: String::from("Direct"),
                    itl_gatewidth: 0,
                    itl_connect: ITLConnect::PerChannel(vec![
                        (String::from("0"), String::from("ITLA")),
                        (String::from("1"), String::from("Disabled")),
                    ]),
                    itl_retrig: String::from("False"),
                },
            ],
        },
        sync_settings: SyncSettings {
            boards: vec![
                PerBoardSync {
                    clock_src: String::from("Internal"),
                    sync_out: String::from("SyncIn"),
                    start_source: String::from("EncodedClkIn"),
                    clock_out_fp: String::from("True"),
                    trig_out: String::from("Disabled"),
                    auto_disarm: String::from("True"),
                },
                PerBoardSync {
                    clock_src: String::from("FPClkIn"),
                    sync_out: String::from("SyncIn"),
                    start_source: String::from("EncodedClkIn"),
                    clock_out_fp: String::from("True"),
                    trig_out: String::from("Disabled"),
                    auto_disarm: String::from("True"),
                },
            ],
        },
    }
}

#[test]
fn board_commands_follow_the_configuration_in_order() {
    let conf = sample_conf();
    let cmds = configure_board(0, &conf);
    // two listed channels, eight board scalars, four trigger settings,
    // six internal-trigger scalars, two per-channel connects, one offset
    assert_eq!(cmds.len(), 2 + 1 + 8 + 4 + 6 + 2);
    assert_eq!(cmds[0].path, "/ch/0/par/ChEnable");
    assert_eq!(cmds[0].value, "true");
    assert_eq!(cmds[1].path, "/ch/63/par/ChEnable");
    assert_eq!(cmds[1].value, "true");
    assert_eq!(cmds[2].path, "/ch/0..63/par/DCOffset");
    assert_eq!(cmds[2].value, "20");
    assert_eq!(cmds[3].path, "/par/RecordLengthS");
    assert_eq!(cmds[3].value, "1024");
    assert_eq!(cmds[4].path, "/par/PreTriggerS");
    assert_eq!(cmds[4].value, "100");
    assert_eq!(cmds[5].path, "/par/AcqTriggerSource");
    assert_eq!(cmds[5].value, "SwTrg");
    assert_eq!(cmds[6].path, "/par/IOlevel");
    assert_eq!(cmds[6].value, "NIM");
    assert_eq!(cmds[7].path, "/par/TestPulsePeriod");
    assert_eq!(cmds[7].value, "1000");
    assert_eq!(cmds[10].path, "/par/TestPulseHighLevel");
    assert_eq!(cmds[10].value, "10000");
    assert_eq!(cmds[11].path, "/ch/0..63/par/TriggerThr");
    assert_eq!(cmds[11].value, "-300");
    assert_eq!(cmds[12].path, "/ch/0..63/par/TriggerThrMode");
    assert_eq!(cmds[12].value, "Relative");
    assert_eq!(cmds[13].path, "/ch/0..63/par/SelfTriggerEdge");
    assert_eq!(cmds[13].value, "Fall");
    assert_eq!(cmds[14].path, "/ch/0..63/par/SamplesOverThreshold");
    assert_eq!(cmds[14].value, "8");
    assert_eq!(cmds[15].path, "/par/ITLAMainLogic");
    assert_eq!(cmds[15].value, "OR");
    assert_eq!(cmds[16].path, "/par/ITLAMajorityLev");
    assert_eq!(cmds[16].value, "2");
    assert_eq!(cmds[20].path, "/par/ITLAEnRetrigger");
    assert_eq!(cmds[20].value, "False");
    assert_eq!(cmds[21].path, "/ch/0/par/ITLConnect");
    assert_eq!(cmds[21].value, "ITLA");
    assert_eq!(cmds[22].path, "/ch/1/par/ITLConnect");
    assert_eq!(cmds[22].value, "Disabled");
}

#[test]
fn sync_commands_carry_the_derived_delays() {
    let conf = sample_conf();
    let cmds = configure_sync(0, 2, &conf);
    assert_eq!(cmds.len(), 8);
    assert_eq!(cmds[0].path, "/par/ClockSource");
    assert_eq!(cmds[0].value, "Internal");
    assert_eq!(cmds[5].path, "/par/TrgOutMode");
    assert_eq!(cmds[5].value, "Disabled");
    // first of two boards: run delay 8*(2*1 + 4) = 48, clock-out -2148
    assert_eq!(cmds[6].path, "/par/RunDelay");
    assert_eq!(cmds[6].value, "48");
    assert_eq!(cmds[7].path, "/par/VolatileClockOutDelay");
    assert_eq!(cmds[7].value, "-2148");
    // last of two boards: run delay 0, clock-out 0
    let cmds1 = configure_sync(1, 2, &conf);
    assert_eq!(cmds1[6].value, "0");
    assert_eq!(cmds1[7].value, "0");
}

#[test]
fn delays_match_the_position_table_for_three_boards() {
    assert_eq!(get_clock_out_delay(0, 3), -2148);
    assert_eq!(get_clock_out_delay(1, 3), -3111);
    assert_eq!(get_clock_out_delay(2, 3), 0);
    assert_eq!(get_run_delay(0, 3), 64);
    assert_eq!(get_run_delay(1, 3), 16);
    assert_eq!(get_run_delay(2, 3), 0);
}

#[test]
fn a_single_board_is_both_first_and_last() {
    assert_eq!(get_clock_out_delay(0, 1), 0);
    assert_eq!(get_run_delay(0, 1), 32);
}

#[test]
fn numbers_render_in_plain_decimal() {
    assert_eq!(cliq::u64_to_string(0), "0");
    assert_eq!(cliq::u64_to_string(7), "7");
    assert_eq!(cliq::u64_to_string(12345), "12345");
    assert_eq!(cliq::u64_to_string(u64::MAX), "18446744073709551615");
    assert_eq!(cliq::isize_to_string(-2148), "-2148");
    assert_eq!(cliq::isize_to_string(0), "0");
    assert_eq!(cliq::isize_to_string(isize::MIN), "-9223372036854775808");
    assert_eq!(cliq::pad2_string(0), "00");
    assert_eq!(cliq::pad2_string(9), "09");
    assert_eq!(cliq::pad2_string(10), "10");
    assert_eq!(cliq::pad2_string(123), "123");
}
