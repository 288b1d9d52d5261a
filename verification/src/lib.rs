//! Core pipeline of a multi-board waveform-digitizer data-acquisition
//! orchestrator: device-facade state handling, board configuration command
//! generation, event alignment across boards with zero suppression, and a
//! buffered chunked writer with file rollover.
//!
//! Everything that computes or decides lives here and is verified; the
//! embedding binary performs the native front-end calls, file I/O and the
//! terminal dashboard, feeding plain values in and carrying plain values out.
use vstd::prelude::*;

mod align;
mod config;
mod counter;
mod dig2;
mod event;
mod felib;
mod params;
mod processor;
mod report;
mod runfile;
mod text;
mod writer;
mod zs;

pub use align::align_done;
pub use align::align_queues;
pub use align::all_nonempty;
pub use align::front_tid;
pub use align::fronts_equal;
pub use align::lemma_spec_align_done;
pub use align::lemma_spec_align_shape;
pub use align::max_front;
pub use align::queues_view;
pub use align::spec_align;
pub use align::total_len;
pub use config::BoardSettings;
pub use config::ChannelConfig;
pub use config::CommonSettings;
pub use config::Conf;
pub use config::DCOffsetConfig;
pub use config::ITLConnect;
pub use config::PerBoardSettings;
pub use config::PerBoardSync;
pub use config::RunSettings;
pub use config::SamplesOverThr;
pub use config::SyncSettings;
pub use config::TriggerEdge;
pub use config::TriggerThr;
pub use config::TriggerThrMode;
pub use config::ZeroSuppressionEdge;
pub use counter::Counter;
pub use dig2::Dig2;
pub use event::BoardEvent;
pub use event::EventWrapper;
pub use event::Waveform;
pub use event::lemma_chan_index_distinct;
pub use event::lemma_chan_index_in_range;
pub use felib::FELibReturn;
pub use felib::ReadAction;
pub use felib::decode_text;
pub use felib::decode_unit;
pub use felib::read_action;
pub use felib::spec_status_of;
pub use params::SetCmd;
pub use params::cmds_view;
pub use params::configure_board;
pub use params::configure_sync;
pub use params::get_clock_out_delay;
pub use params::get_run_delay;
pub use params::spec_board_commands;
pub use params::spec_clock_out_delay;
pub use params::spec_run_delay;
pub use params::spec_sync_commands;
pub use processor::Processor;
pub use processor::RunInfo;
pub use processor::board_tagged;
pub use processor::common_tid;
pub use processor::drop_below;
pub use processor::has_tid;
pub use processor::lemma_align_reaches_common;
pub use processor::lemma_dropped_counts_skipped;
pub use processor::lemma_dropped_is_skipped_cardinality;
pub use processor::lemma_emitted_strictly_increasing;
pub use processor::lemma_misaligned_counts_removed;
pub use processor::spec_dropped;
pub use processor::spec_usize_sum;
pub use processor::tids_above;
pub use processor::tids_at_most;
pub use processor::tids_strict;
pub use processor::u32_strict;
pub use report::acquisition_status_bits;
pub use report::param_report;
pub use report::spec_param_line;
pub use report::spec_param_report;
pub use report::spec_status_bits;
pub use runfile::all_digits;
pub use runfile::camp_dir_name;
pub use runfile::digits_val;
pub use runfile::next_run_number;
pub use runfile::run_file_prefix;
pub use runfile::spec_camp_dir;
pub use runfile::spec_max_run;
pub use runfile::spec_next_run;
pub use runfile::spec_run_num;
pub use runfile::spec_run_prefix;
pub use text::isize_to_string;
pub use text::pad2_string;
pub use text::spec_dec;
pub use text::spec_dec_int;
pub use text::spec_digit;
pub use text::spec_pad2;
pub use text::u64_to_string;
pub use writer::BoardData;
pub use writer::FlushSlice;
pub use writer::HDF5Writer;
pub use writer::RolloverPlan;
pub use writer::StagedEvent;
pub use writer::WriteBatch;
pub use writer::WriteError;
pub use writer::WriterOutcome;
pub use writer::files_concat;
pub use writer::lemma_on_disk_matches_appended;
pub use writer::spec_buffers_prefix;
pub use writer::spec_current_prefix;
pub use writer::spec_file_name;
pub use writer::spec_staged_prefix;
pub use writer::subrun_file_name;
pub use zs::draw_zs_decision;
pub use zs::lemma_sum_bounds;
pub use zs::lemma_sum_pointwise_le;
pub use zs::lemma_suppress_rise_idempotent;
pub use zs::lemma_suppress_zero_stays;
pub use zs::spec_sum;
pub use zs::spec_suppress_channel;
pub use zs::spec_zeroed;
pub use zs::zero_suppress;
pub use zs::zs_gate;

verus! {

/// Shared bookkeeping for one board's acquisition session.
pub struct AcqControl {
    pub dev_handle: u64,
    pub ep_configured: bool,
    pub acq_started: bool,
    pub num_ch: usize,
}

/// The read-data format handed to the front-end: the named fields every
/// event record carries, in the order the reader fills them.
pub const EVENT_FORMAT: &'static str = " \
    [ \
        { \"name\" : \"TIMESTAMP_NS\", \"type\" : \"U64\" }, \
        { \"name\" : \"TRIGGER_ID\", \"type\" : \"U32\" }, \
        { \"name\" : \"WAVEFORM\", \"type\" : \"U16\", \"dim\" : 2 }, \
        { \"name\" : \"WAVEFORM_SIZE\", \"type\" : \"SIZE_T\", \"dim\" : 1 }, \
        { \"name\" : \"FLAGS\", \"type\" : \"U16\" }, \
        { \"name\" : \"BOARD_FAIL\", \"type\" : \"BOOL\" }, \
        { \"name\" : \"EVENT_SIZE\", \"type\" : \"SIZE_T\" } \
    ] \
";

} // verus!
