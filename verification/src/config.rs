//! The validated configuration that a run is driven by: run-wide settings,
//! per-board digitizer settings and inter-board synchronization settings.
//!
//! Per-channel overrides are ordered lists of (channel, value) pairs keyed by
//! the channel's textual name. Quantities the front-end takes as decimal text
//! are held as integers and rendered when commands are generated; DC offsets,
//! which the configuration file gives as fractional numbers, are carried
//! already rendered since this library keeps its arithmetic integral.
use vstd::prelude::*;

verus! {

/// Which channels of a board are enabled.
#[derive(Clone, Debug)]
pub enum ChannelConfig {
    All(bool),
    List(Vec<u32>),
}

/// DC offset, one value for all channels or per-channel overrides; values are
/// carried as the decimal text the front-end is sent.
#[derive(Clone, Debug)]
pub enum DCOffsetConfig {
    Global(String),
    PerChannel(Vec<(String, String)>),
}

/// Trigger threshold, global or per channel.
#[derive(Clone, Debug)]
pub enum TriggerThr {
    Global(isize),
    PerChannel(Vec<(String, isize)>),
}

/// Trigger threshold mode, global or per channel.
#[derive(Clone, Debug)]
pub enum TriggerThrMode {
    Global(String),
    PerChannel(Vec<(String, String)>),
}

/// Edge on which a channel self-triggers.
#[derive(Clone, Copy, Debug, PartialEq, Eq, Structural)]
pub enum TriggerEdge {
    Fall,
    Rise,
}

/// Samples-over-threshold requirement, global or per channel.
#[derive(Clone, Debug)]
pub enum SamplesOverThr {
    Global(usize),
    PerChannel(Vec<(String, usize)>),
}

/// Internal-trigger-logic connection, global or per channel.
#[derive(Clone, Debug)]
pub enum ITLConnect {
    Global(String),
    PerChannel(Vec<(String, String)>),
}

/// Whether zero suppression keeps rising or falling excursions.
#[derive(Clone, Copy, Debug, PartialEq, Eq, Structural)]
pub enum ZeroSuppressionEdge {
    Fall,
    Rise,
}

/// Settings shared by every board.
#[derive(Clone, Debug)]
pub struct CommonSettings {
    pub record_len: usize,
    pub pre_trig_len: usize,
}

/// Digitizer settings of one board.
#[derive(Clone, Debug)]
pub struct PerBoardSettings {
    pub en_chans: ChannelConfig,
    pub trig_source: String,
    pub dc_offset: DCOffsetConfig,
    pub io_level: String,
    pub test_pulse_period: usize,
    pub test_pulse_width: usize,
    pub test_pulse_low: usize,
    pub test_pulse_high: usize,
    pub trig_thr: TriggerThr,
    pub trig_thr_mode: TriggerThrMode,
    pub trig_edge: TriggerEdge,
    pub samples_over_thr: SamplesOverThr,
    pub itl_logic: String,
    pub itl_majority_level: u8,
    pub itl_pair_logic: String,
    pub itl_polarity: String,
    pub itl_gatewidth: usize,
    pub itl_connect: ITLConnect,
    pub itl_retrig: String,
}

/// Board settings: the common block and one entry per board.
#[derive(Clone, Debug)]
pub struct BoardSettings {
    pub common: CommonSettings,
    pub boards: Vec<PerBoardSettings>,
}

/// Synchronization settings of one board.
#[derive(Clone, Debug)]
pub struct PerBoardSync {
    pub clock_src: String,
    pub sync_out: String,
    pub start_source: String,
    pub clock_out_fp: String,
    pub trig_out: String,
    pub auto_disarm: String,
}

/// Synchronization settings, one entry per board.
#[derive(Clone, Debug)]
pub struct SyncSettings {
    pub boards: Vec<PerBoardSync>,
}

/// Run-wide settings.
///
/// `zs_level` is the suppression probability scaled to the full range of a
/// 64-bit word: an event is left unsuppressed when a uniformly drawn word is
/// at most `zs_level`. `zs_threshold` is the zero-suppression threshold in
/// ADC counts.
#[derive(Clone, Debug)]
pub struct RunSettings {
    pub boards: Vec<String>,
    pub run_duration: u64,
    pub output_dir: String,
    pub campaign_num: usize,
    pub blosc_threads: u8,
    pub compression_level: u8,
    pub zs_level: u64,
    pub zs_threshold: i64,
    pub zs_edge: ZeroSuppressionEdge,
    pub zs_samples: usize,
}

/// The whole validated configuration.
#[derive(Clone, Debug)]
pub struct Conf {
    pub run_settings: RunSettings,
    pub board_settings: BoardSettings,
    pub sync_settings: SyncSettings,
}

} // verus!
