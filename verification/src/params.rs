//! Generation of the front-end parameter commands that configure a board and
//! its inter-board synchronization, together with the delay derivations that
//! depend on the board's position in the chain.
//!
//! Each function returns the ordered list of (path, value) pairs to send; the
//! embedder performs the actual set-value calls.
use vstd::prelude::*;

verus! {

use vstd::string::StringExecFns;
use crate::config::ChannelConfig;
use crate::config::CommonSettings;
use crate::config::Conf;
use crate::config::DCOffsetConfig;
use crate::config::ITLConnect;
use crate::config::PerBoardSettings;
use crate::config::SamplesOverThr;
use crate::config::TriggerEdge;
use crate::config::TriggerThr;
use crate::config::TriggerThrMode;
use crate::text::isize_to_string;
use crate::text::spec_dec;
use crate::text::spec_dec_int;
use crate::text::u64_to_string;

/// One set-value command: a dotted parameter path and the value text.
pub struct SetCmd {
    pub path: String,
    pub value: String,
}

impl View for SetCmd {
    type V = (Seq<char>, Seq<char>);

    open spec fn view(&self) -> (Seq<char>, Seq<char>) {
        (self.path@, self.value@)
    }
}

/// The (path, value) character sequences of a command list.
pub open spec fn cmds_view(s: Seq<SetCmd>) -> Seq<(Seq<char>, Seq<char>)> {
    s.map_values(|c: SetCmd| c@)
}

/// The character sequences of a (channel, value) pair list.
pub open spec fn pairs_view(s: Seq<(String, String)>) -> Seq<(Seq<char>, Seq<char>)> {
    s.map_values(|p: (String, String)| (p.0@, p.1@))
}

/// The path of a channel-level parameter of one channel.
pub open spec fn spec_ch_path(chan: Seq<char>, param: Seq<char>) -> Seq<char> {
    "/ch/"@ + chan + "/par/"@ + param
}

/// The path of a channel-level parameter applied to every channel.
pub open spec fn spec_all_ch_path(param: Seq<char>) -> Seq<char> {
    "/ch/0..63/par/"@ + param
}

/// The path of a board-level parameter.
pub open spec fn spec_par_path(param: Seq<char>) -> Seq<char> {
    "/par/"@ + param
}

/// One command per (channel, value) pair, at that channel's path.
pub open spec fn spec_per_channel(pairs: Seq<(Seq<char>, Seq<char>)>, param: Seq<char>) -> Seq<
    (Seq<char>, Seq<char>),
> {
    pairs.map_values(|p: (Seq<char>, Seq<char>)| (spec_ch_path(p.0, param), p.1))
}

/// The channel-enable commands of a board.
pub open spec fn spec_en_cmds(en: ChannelConfig) -> Seq<(Seq<char>, Seq<char>)> {
    match en {
        ChannelConfig::All(_) => seq![(spec_all_ch_path("ChEnable"@), "true"@)],
        ChannelConfig::List(chs) => chs@.map_values(
            |c: u32| (spec_ch_path(spec_dec(c as nat), "ChEnable"@), "true"@),
        ),
    }
}

/// The DC-offset commands of a board.
pub open spec fn spec_dc_cmds(dc: DCOffsetConfig) -> Seq<(Seq<char>, Seq<char>)> {
    match dc {
        DCOffsetConfig::Global(off) => seq![(spec_all_ch_path("DCOffset"@), off@)],
        DCOffsetConfig::PerChannel(pairs) => spec_per_channel(pairs_view(pairs@), "DCOffset"@),
    }
}

/// The trigger-threshold commands of a board.
pub open spec fn spec_thr_cmds(t: TriggerThr) -> Seq<(Seq<char>, Seq<char>)> {
    match t {
        TriggerThr::Global(v) => seq![(spec_all_ch_path("TriggerThr"@), spec_dec_int(v as int))],
        TriggerThr::PerChannel(pairs) => spec_per_channel(
            pairs@.map_values(|p: (String, isize)| (p.0@, spec_dec_int(p.1 as int))),
            "TriggerThr"@,
        ),
    }
}

/// The trigger-threshold-mode commands of a board.
pub open spec fn spec_thr_mode_cmds(t: TriggerThrMode) -> Seq<(Seq<char>, Seq<char>)> {
    match t {
        TriggerThrMode::Global(m) => seq![(spec_all_ch_path("TriggerThrMode"@), m@)],
        TriggerThrMode::PerChannel(pairs) => spec_per_channel(
            pairs_view(pairs@),
            "TriggerThrMode"@,
        ),
    }
}

/// The self-trigger-edge command of a board.
pub open spec fn spec_edge_cmds(e: TriggerEdge) -> Seq<(Seq<char>, Seq<char>)> {
    match e {
        TriggerEdge::Fall => seq![(spec_all_ch_path("SelfTriggerEdge"@), "Fall"@)],
        TriggerEdge::Rise => seq![(spec_all_ch_path("SelfTriggerEdge"@), "Rise"@)],
    }
}

/// The samples-over-threshold commands of a board.
pub open spec fn spec_sot_cmds(t: SamplesOverThr) -> Seq<(Seq<char>, Seq<char>)> {
    match t {
        SamplesOverThr::Global(v) => seq![
            (spec_all_ch_path("SamplesOverThreshold"@), spec_dec(v as nat)),
        ],
        SamplesOverThr::PerChannel(pairs) => spec_per_channel(
            pairs@.map_values(|p: (String, usize)| (p.0@, spec_dec(p.1 as nat))),
            "SamplesOverThreshold"@,
        ),
    }
}

/// The internal-trigger-logic connect commands of a board.
pub open spec fn spec_itl_connect_cmds(t: ITLConnect) -> Seq<(Seq<char>, Seq<char>)> {
    match t {
        ITLConnect::Global(v) => seq![(spec_all_ch_path("ITLConnect"@), v@)],
        ITLConnect::PerChannel(pairs) => spec_per_channel(pairs_view(pairs@), "ITLConnect"@),
    }
}

/// The whole command list that configures one board, in the order it is sent.
pub open spec fn spec_board_commands(config: Conf, board_id: int) -> Seq<(Seq<char>, Seq<char>)>
    recommends
        0 <= board_id < config.board_settings.boards@.len(),
{
    let b = config.board_settings.boards@[board_id];
    let common = config.board_settings.common;
    spec_en_cmds(b.en_chans) + spec_dc_cmds(b.dc_offset) + seq![
        (spec_par_path("RecordLengthS"@), spec_dec(common.record_len as nat)),
        (spec_par_path("PreTriggerS"@), spec_dec(common.pre_trig_len as nat)),
        (spec_par_path("AcqTriggerSource"@), b.trig_source@),
        (spec_par_path("IOlevel"@), b.io_level@),
        (spec_par_path("TestPulsePeriod"@), spec_dec(b.test_pulse_period as nat)),
        (spec_par_path("TestPulseWidth"@), spec_dec(b.test_pulse_width as nat)),
        (spec_par_path("TestPulseLowLevel"@), spec_dec(b.test_pulse_low as nat)),
        (spec_par_path("TestPulseHighLevel"@), spec_dec(b.test_pulse_high as nat)),
    ] + spec_thr_cmds(b.trig_thr) + spec_thr_mode_cmds(b.trig_thr_mode) + spec_edge_cmds(
        b.trig_edge,
    ) + spec_sot_cmds(b.samples_over_thr) + seq![
        (spec_par_path("ITLAMainLogic"@), b.itl_logic@),
        (spec_par_path("ITLAMajorityLev"@), spec_dec(b.itl_majority_level as nat)),
        (spec_par_path("ITLAPairLogic"@), b.itl_pair_logic@),
        (spec_par_path("ITLAPolarity"@), b.itl_polarity@),
        (spec_par_path("ITLAGateWidth"@), spec_dec(b.itl_gatewidth as nat)),
        (spec_par_path("ITLAEnRetrigger"@), b.itl_retrig@),
    ] + spec_itl_connect_cmds(b.itl_connect)
}

/// The run-start delay of a board, in clock units times eight: boards later
/// in the chain start sooner, and the first board gets four extra cycles.
pub open spec fn spec_run_delay(board_id: int, num_boards: int) -> int {
    8 * (2 * (num_boards - 1 - board_id) + (if board_id == 0 {
        4int
    } else {
        0int
    }))
}

/// The clock-output delay of a board: none on the last board, a short lead
/// on the first, a longer one in the middle of the chain.
pub open spec fn spec_clock_out_delay(board_id: int, num_boards: int) -> int {
    if board_id == num_boards - 1 {
        0
    } else if board_id == 0 {
        -2148
    } else {
        -3111
    }
}

/// The whole command list that configures one board's synchronization, in
/// the order it is sent.
pub open spec fn spec_sync_commands(config: Conf, board_id: int, num_boards: int) -> Seq<
    (Seq<char>, Seq<char>),
>
    recommends
        0 <= board_id < config.sync_settings.boards@.len(),
        board_id < num_boards,
{
    let s = config.sync_settings.boards@[board_id];
    seq![
        (spec_par_path("ClockSource"@), s.clock_src@),
        (spec_par_path("SyncOutMode"@), s.sync_out@),
        (spec_par_path("StartSource"@), s.start_source@),
        (spec_par_path("EnClockOutFP"@), s.clock_out_fp@),
        (spec_par_path("EnAutoDisarmAcq"@), s.auto_disarm@),
        (spec_par_path("TrgOutMode"@), s.trig_out@),
        (spec_par_path("RunDelay"@), spec_dec(spec_run_delay(board_id, num_boards) as nat)),
        (
            spec_par_path("VolatileClockOutDelay"@),
            spec_dec_int(spec_clock_out_delay(board_id, num_boards)),
        ),
    ]
}

fn ch_path_str(chan: &str, param: &str) -> (s: String)
    ensures
        s@ == spec_ch_path(chan@, param@),
{
    let mut s = String::from_str("/ch/");
    s.append(chan);
    s.append("/par/");
    s.append(param);
    proof {
        assert(s@ =~= spec_ch_path(chan@, param@));
    }
    s
}

fn all_ch_path_str(param: &str) -> (s: String)
    ensures
        s@ == spec_all_ch_path(param@),
{
    let mut s = String::from_str("/ch/0..63/par/");
    s.append(param);
    s
}

fn par_path_str(param: &str) -> (s: String)
    ensures
        s@ == spec_par_path(param@),
{
    let mut s = String::from_str("/par/");
    s.append(param);
    s
}

fn push_cmd(cmds: &mut Vec<SetCmd>, path: String, value: String)
    ensures
        cmds_view(final(cmds)@) == cmds_view(old(cmds)@).push((path@, value@)),
{
    let ghost p = path@;
    let ghost v = value@;
    cmds.push(SetCmd { path, value });
    proof {
        assert(cmds_view(cmds@) =~= cmds_view(old(cmds)@).push((p, v)));
    }
}

fn push_chan_list(cmds: &mut Vec<SetCmd>, channels: &Vec<u32>)
    ensures
        cmds_view(final(cmds)@) == cmds_view(old(cmds)@) + channels@.map_values(
            |c: u32| (spec_ch_path(spec_dec(c as nat), "ChEnable"@), "true"@),
        ),
{
    let ghost target = channels@.map_values(
        |c: u32| (spec_ch_path(spec_dec(c as nat), "ChEnable"@), "true"@),
    );
    let mut i: usize = 0;
    proof {
        assert(cmds_view(cmds@) =~= cmds_view(old(cmds)@) + target.take(0));
    }
    while i < channels.len()
        invariant
            i <= channels@.len(),
            target == channels@.map_values(
                |c: u32| (spec_ch_path(spec_dec(c as nat), "ChEnable"@), "true"@),
            ),
            cmds_view(cmds@) == cmds_view(old(cmds)@) + target.take(i as int),
        decreases channels@.len() - i,
    {
        let chan = u64_to_string(channels[i] as u64);
        let path = ch_path_str(chan.as_str(), "ChEnable");
        push_cmd(cmds, path, String::from_str("true"));
        proof {
            assert(cmds_view(cmds@) =~= cmds_view(old(cmds)@) + target.take(i + 1));
        }
        i = i + 1;
    }
    proof {
        assert(target.take(channels@.len() as int) =~= target);
    }
}

fn push_string_pairs(cmds: &mut Vec<SetCmd>, pairs: &Vec<(String, String)>, param: &str)
    ensures
        cmds_view(final(cmds)@) == cmds_view(old(cmds)@) + spec_per_channel(
            pairs_view(pairs@),
            param@,
        ),
{
    let ghost target = spec_per_channel(pairs_view(pairs@), param@);
    let mut i: usize = 0;
    proof {
        assert(cmds_view(cmds@) =~= cmds_view(old(cmds)@) + target.take(0));
    }
    while i < pairs.len()
        invariant
            i <= pairs@.len(),
            target == spec_per_channel(pairs_view(pairs@), param@),
            cmds_view(cmds@) == cmds_view(old(cmds)@) + target.take(i as int),
        decreases pairs@.len() - i,
    {
        let path = ch_path_str(pairs[i].0.as_str(), param);
        let value = pairs[i].1.clone();
        push_cmd(cmds, path, value);
        proof {
            assert(cmds_view(cmds@) =~= cmds_view(old(cmds)@) + target.take(i + 1));
        }
        i = i + 1;
    }
    proof {
        assert(target.take(pairs@.len() as int) =~= target);
    }
}

fn push_isize_pairs(cmds: &mut Vec<SetCmd>, pairs: &Vec<(String, isize)>, param: &str)
    ensures
        cmds_view(final(cmds)@) == cmds_view(old(cmds)@) + spec_per_channel(
            pairs@.map_values(|p: (String, isize)| (p.0@, spec_dec_int(p.1 as int))),
            param@,
        ),
{
    let ghost target = spec_per_channel(
        pairs@.map_values(|p: (String, isize)| (p.0@, spec_dec_int(p.1 as int))),
        param@,
    );
    let mut i: usize = 0;
    proof {
        assert(cmds_view(cmds@) =~= cmds_view(old(cmds)@) + target.take(0));
    }
    while i < pairs.len()
        invariant
            i <= pairs@.len(),
            target == spec_per_channel(
                pairs@.map_values(|p: (String, isize)| (p.0@, spec_dec_int(p.1 as int))),
                param@,
            ),
            cmds_view(cmds@) == cmds_view(old(cmds)@) + target.take(i as int),
        decreases pairs@.len() - i,
    {
        let path = ch_path_str(pairs[i].0.as_str(), param);
        let value = isize_to_string(pairs[i].1);
        push_cmd(cmds, path, value);
        proof {
            assert(cmds_view(cmds@) =~= cmds_view(old(cmds)@) + target.take(i + 1));
        }
        i = i + 1;
    }
    proof {
        assert(target.take(pairs@.len() as int) =~= target);
    }
}

fn push_usize_pairs(cmds: &mut Vec<SetCmd>, pairs: &Vec<(String, usize)>, param: &str)
    ensures
        cmds_view(final(cmds)@) == cmds_view(old(cmds)@) + spec_per_channel(
            pairs@.map_values(|p: (String, usize)| (p.0@, spec_dec(p.1 as nat))),
            param@,
        ),
{
    let ghost target = spec_per_channel(
        pairs@.map_values(|p: (String, usize)| (p.0@, spec_dec(p.1 as nat))),
        param@,
    );
    let mut i: usize = 0;
    proof {
        assert(cmds_view(cmds@) =~= cmds_view(old(cmds)@) + target.take(0));
    }
    while i < pairs.len()
        invariant
            i <= pairs@.len(),
            target == spec_per_channel(
                pairs@.map_values(|p: (String, usize)| (p.0@, spec_dec(p.1 as nat))),
                param@,
            ),
            cmds_view(cmds@) == cmds_view(old(cmds)@) + target.take(i as int),
        decreases pairs@.len() - i,
    {
        let path = ch_path_str(pairs[i].0.as_str(), param);
        let value = u64_to_string(pairs[i].1 as u64);
        push_cmd(cmds, path, value);
        proof {
            assert(cmds_view(cmds@) =~= cmds_view(old(cmds)@) + target.take(i + 1));
        }
        i = i + 1;
    }
    proof {
        assert(target.take(pairs@.len() as int) =~= target);
    }
}

fn push_en_cmds(cmds: &mut Vec<SetCmd>, en: &ChannelConfig)
    ensures
        cmds_view(final(cmds)@) == cmds_view(old(cmds)@) + spec_en_cmds(*en),
{
    match en {
        ChannelConfig::All(_) => {
            push_cmd(cmds, all_ch_path_str("ChEnable"), String::from_str("true"));
            proof {
                assert(cmds_view(cmds@) =~= cmds_view(old(cmds)@) + spec_en_cmds(*en));
            }
        },
        ChannelConfig::List(channels) => {
            push_chan_list(cmds, channels);
        },
    }
}

fn push_dc_cmds(cmds: &mut Vec<SetCmd>, dc: &DCOffsetConfig)
    ensures
        cmds_view(final(cmds)@) == cmds_view(old(cmds)@) + spec_dc_cmds(*dc),
{
    match dc {
        DCOffsetConfig::Global(offset) => {
            push_cmd(cmds, all_ch_path_str("DCOffset"), offset.clone());
            proof {
                assert(cmds_view(cmds@) =~= cmds_view(old(cmds)@) + spec_dc_cmds(*dc));
            }
        },
        DCOffsetConfig::PerChannel(pairs) => {
            push_string_pairs(cmds, pairs, "DCOffset");
        },
    }
}

fn push_thr_cmds(cmds: &mut Vec<SetCmd>, t: &TriggerThr)
    ensures
        cmds_view(final(cmds)@) == cmds_view(old(cmds)@) + spec_thr_cmds(*t),
{
    match t {
        TriggerThr::Global(thr) => {
            push_cmd(cmds, all_ch_path_str("TriggerThr"), isize_to_string(*thr));
            proof {
                assert(cmds_view(cmds@) =~= cmds_view(old(cmds)@) + spec_thr_cmds(*t));
            }
        },
        TriggerThr::PerChannel(pairs) => {
            push_isize_pairs(cmds, pairs, "TriggerThr");
        },
    }
}

fn push_thr_mode_cmds(cmds: &mut Vec<SetCmd>, t: &TriggerThrMode)
    ensures
        cmds_view(final(cmds)@) == cmds_view(old(cmds)@) + spec_thr_mode_cmds(*t),
{
    match t {
        TriggerThrMode::Global(mode) => {
            push_cmd(cmds, all_ch_path_str("TriggerThrMode"), mode.clone());
            proof {
                assert(cmds_view(cmds@) =~= cmds_view(old(cmds)@) + spec_thr_mode_cmds(*t));
            }
        },
        TriggerThrMode::PerChannel(pairs) => {
            push_string_pairs(cmds, pairs, "TriggerThrMode");
        },
    }
}

fn push_edge_cmds(cmds: &mut Vec<SetCmd>, e: &TriggerEdge)
    ensures
        cmds_view(final(cmds)@) == cmds_view(old(cmds)@) + spec_edge_cmds(*e),
{
    match e {
        TriggerEdge::Fall => {
            push_cmd(cmds, all_ch_path_str("SelfTriggerEdge"), String::from_str("Fall"));
        },
        TriggerEdge::Rise => {
            push_cmd(cmds, all_ch_path_str("SelfTriggerEdge"), String::from_str("Rise"));
        },
    }
    proof {
        assert(cmds_view(cmds@) =~= cmds_view(old(cmds)@) + spec_edge_cmds(*e));
    }
}

fn push_sot_cmds(cmds: &mut Vec<SetCmd>, t: &SamplesOverThr)
    ensures
        cmds_view(final(cmds)@) == cmds_view(old(cmds)@) + spec_sot_cmds(*t),
{
    match t {
        SamplesOverThr::Global(samples) => {
            push_cmd(cmds, all_ch_path_str("SamplesOverThreshold"), u64_to_string(*samples as u64));
            proof {
                assert(cmds_view(cmds@) =~= cmds_view(old(cmds)@) + spec_sot_cmds(*t));
            }
        },
        SamplesOverThr::PerChannel(pairs) => {
            push_usize_pairs(cmds, pairs, "SamplesOverThreshold");
        },
    }
}

fn push_itl_connect_cmds(cmds: &mut Vec<SetCmd>, t: &ITLConnect)
    ensures
        cmds_view(final(cmds)@) == cmds_view(old(cmds)@) + spec_itl_connect_cmds(*t),
{
    match t {
        ITLConnect::Global(connect) => {
            push_cmd(cmds, all_ch_path_str("ITLConnect"), connect.clone());
            proof {
                assert(cmds_view(cmds@) =~= cmds_view(old(cmds)@) + spec_itl_connect_cmds(*t));
            }
        },
        ITLConnect::PerChannel(pairs) => {
            push_string_pairs(cmds, pairs, "ITLConnect");
        },
    }
}

fn push_board_scalars(cmds: &mut Vec<SetCmd>, common: &CommonSettings, b: &PerBoardSettings)
    ensures
        cmds_view(final(cmds)@) == cmds_view(old(cmds)@) + seq![
            (spec_par_path("RecordLengthS"@), spec_dec(common.record_len as nat)),
            (spec_par_path("PreTriggerS"@), spec_dec(common.pre_trig_len as nat)),
            (spec_par_path("AcqTriggerSource"@), b.trig_source@),
            (spec_par_path("IOlevel"@), b.io_level@),
            (spec_par_path("TestPulsePeriod"@), spec_dec(b.test_pulse_period as nat)),
            (spec_par_path("TestPulseWidth"@), spec_dec(b.test_pulse_width as nat)),
            (spec_par_path("TestPulseLowLevel"@), spec_dec(b.test_pulse_low as nat)),
            (spec_par_path("TestPulseHighLevel"@), spec_dec(b.test_pulse_high as nat)),
        ],
{
    push_cmd(cmds, par_path_str("RecordLengthS"), u64_to_string(common.record_len as u64));
    push_cmd(cmds, par_path_str("PreTriggerS"), u64_to_string(common.pre_trig_len as u64));
    push_cmd(cmds, par_path_str("AcqTriggerSource"), b.trig_source.clone());
    push_cmd(cmds, par_path_str("IOlevel"), b.io_level.clone());
    push_cmd(cmds, par_path_str("TestPulsePeriod"), u64_to_string(b.test_pulse_period as u64));
    push_cmd(cmds, par_path_str("TestPulseWidth"), u64_to_string(b.test_pulse_width as u64));
    push_cmd(cmds, par_path_str("TestPulseLowLevel"), u64_to_string(b.test_pulse_low as u64));
    push_cmd(cmds, par_path_str("TestPulseHighLevel"), u64_to_string(b.test_pulse_high as u64));
    proof {
        assert(cmds_view(cmds@) =~= cmds_view(old(cmds)@) + seq![
            (spec_par_path("RecordLengthS"@), spec_dec(common.record_len as nat)),
            (spec_par_path("PreTriggerS"@), spec_dec(common.pre_trig_len as nat)),
            (spec_par_path("AcqTriggerSource"@), b.trig_source@),
            (spec_par_path("IOlevel"@), b.io_level@),
            (spec_par_path("TestPulsePeriod"@), spec_dec(b.test_pulse_period as nat)),
            (spec_par_path("TestPulseWidth"@), spec_dec(b.test_pulse_width as nat)),
            (spec_par_path("TestPulseLowLevel"@), spec_dec(b.test_pulse_low as nat)),
            (spec_par_path("TestPulseHighLevel"@), spec_dec(b.test_pulse_high as nat)),
        ]);
    }
}

fn push_itl_scalars(cmds: &mut Vec<SetCmd>, b: &PerBoardSettings)
    ensures
        cmds_view(final(cmds)@) == cmds_view(old(cmds)@) + seq![
            (spec_par_path("ITLAMainLogic"@), b.itl_logic@),
            (spec_par_path("ITLAMajorityLev"@), spec_dec(b.itl_majority_level as nat)),
            (spec_par_path("ITLAPairLogic"@), b.itl_pair_logic@),
            (spec_par_path("ITLAPolarity"@), b.itl_polarity@),
            (spec_par_path("ITLAGateWidth"@), spec_dec(b.itl_gatewidth as nat)),
            (spec_par_path("ITLAEnRetrigger"@), b.itl_retrig@),
        ],
{
    push_cmd(cmds, par_path_str("ITLAMainLogic"), b.itl_logic.clone());
    push_cmd(cmds, par_path_str("ITLAMajorityLev"), u64_to_string(b.itl_majority_level as u64));
    push_cmd(cmds, par_path_str("ITLAPairLogic"), b.itl_pair_logic.clone());
    push_cmd(cmds, par_path_str("ITLAPolarity"), b.itl_polarity.clone());
    push_cmd(cmds, par_path_str("ITLAGateWidth"), u64_to_string(b.itl_gatewidth as u64));
    push_cmd(cmds, par_path_str("ITLAEnRetrigger"), b.itl_retrig.clone());
    proof {
        assert(cmds_view(cmds@) =~= cmds_view(old(cmds)@) + seq![
            (spec_par_path("ITLAMainLogic"@), b.itl_logic@),
            (spec_par_path("ITLAMajorityLev"@), spec_dec(b.itl_majority_level as nat)),
            (spec_par_path("ITLAPairLogic"@), b.itl_pair_logic@),
            (spec_par_path("ITLAPolarity"@), b.itl_polarity@),
            (spec_par_path("ITLAGateWidth"@), spec_dec(b.itl_gatewidth as nat)),
            (spec_par_path("ITLAEnRetrigger"@), b.itl_retrig@),
        ]);
    }
}

/// Computes the ordered parameter commands that configure one board:
/// channel enables, DC offsets, record geometry, trigger sources and
/// thresholds, test pulse, and internal trigger logic.
#[verifier::rlimit(60)]
#[verifier::spinoff_prover]
pub fn configure_board(board_id: usize, config: &Conf) -> (cmds: Vec<SetCmd>)
    requires
        board_id < config.board_settings.boards@.len(),
    ensures
        cmds_view(cmds@) == spec_board_commands(*config, board_id as int),
{
    let b = &config.board_settings.boards[board_id];
    let common = &config.board_settings.common;
    let mut cmds: Vec<SetCmd> = Vec::new();

    push_en_cmds(&mut cmds, &b.en_chans);
    push_dc_cmds(&mut cmds, &b.dc_offset);
    push_board_scalars(&mut cmds, common, b);
    push_thr_cmds(&mut cmds, &b.trig_thr);
    push_thr_mode_cmds(&mut cmds, &b.trig_thr_mode);
    push_edge_cmds(&mut cmds, &b.trig_edge);
    push_sot_cmds(&mut cmds, &b.samples_over_thr);
    push_itl_scalars(&mut cmds, b);
    push_itl_connect_cmds(&mut cmds, &b.itl_connect);

    proof {
        assert(cmds_view(cmds@) =~= spec_board_commands(*config, board_id as int));
    }
    cmds
}

/// Derives a board's run-start delay from its position in the chain.
pub fn get_run_delay(board_id: usize, num_boards: usize) -> (r: usize)
    requires
        board_id < num_boards,
        16 * num_boards + 32 <= usize::MAX,
    ensures
        r == spec_run_delay(board_id as int, num_boards as int),
{
    let first_board = board_id == 0;
    let board_id_from_last = num_boards - board_id - 1;

    let mut run_delay_clk = 2 * board_id_from_last;

    if first_board {
        run_delay_clk = run_delay_clk + 4;
    }

    run_delay_clk * 8
}

/// Derives a board's clock-output delay from its position in the chain.
pub fn get_clock_out_delay(board_id: usize, num_boards: usize) -> (r: isize)
    requires
        board_id < num_boards,
    ensures
        r == spec_clock_out_delay(board_id as int, num_boards as int),
{
    let first_board = board_id == 0;
    let last_board = board_id == num_boards - 1;

    if last_board {
        0
    } else if first_board {
        -2148
    } else {
        -3111
    }
}

/// Computes the ordered parameter commands that configure one board's
/// synchronization role, including the position-derived delays.
pub fn configure_sync(board_id: usize, num_boards: usize, config: &Conf) -> (cmds: Vec<SetCmd>)
    requires
        board_id < config.sync_settings.boards@.len(),
        board_id < num_boards,
        16 * num_boards + 32 <= usize::MAX,
    ensures
        cmds_view(cmds@) == spec_sync_commands(*config, board_id as int, num_boards as int),
{
    let s = &config.sync_settings.boards[board_id];
    let mut cmds: Vec<SetCmd> = Vec::new();

    push_cmd(&mut cmds, par_path_str("ClockSource"), s.clock_src.clone());
    push_cmd(&mut cmds, par_path_str("SyncOutMode"), s.sync_out.clone());
    push_cmd(&mut cmds, par_path_str("StartSource"), s.start_source.clone());
    push_cmd(&mut cmds, par_path_str("EnClockOutFP"), s.clock_out_fp.clone());
    push_cmd(&mut cmds, par_path_str("EnAutoDisarmAcq"), s.auto_disarm.clone());
    push_cmd(&mut cmds, par_path_str("TrgOutMode"), s.trig_out.clone());

    let run_delay = get_run_delay(board_id, num_boards);
    let clock_out_delay = get_clock_out_delay(board_id, num_boards);
    push_cmd(&mut cmds, par_path_str("RunDelay"), u64_to_string(run_delay as u64));
    push_cmd(&mut cmds, par_path_str("VolatileClockOutDelay"), isize_to_string(clock_out_delay));

    proof {
        assert(cmds_view(cmds@) =~= spec_sync_commands(
            *config,
            board_id as int,
            num_boards as int,
        ));
    }
    cmds
}

} // verus!
