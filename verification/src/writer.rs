//! The buffered, chunked writer: per-board staging buffers that flush in
//! whole chunks into the current output file and roll over to a fresh subrun
//! file when a board's per-file event cap is reached. Staged but unflushed
//! events travel into the new file intact, so the on-disk sequence always
//! equals the appended sequence.
//!
//! The writer decides everything and accounts for everything; the actual
//! container I/O is carried out by the embedder, which executes the
//! `WriteBatch`es and file creations each operation returns.
use vstd::prelude::*;

verus! {

use vstd::string::StringExecFns;
use crate::event::Waveform;
use crate::text::pad2_string;
use crate::text::spec_pad2;

/// Why an append was refused.
#[derive(Clone, Copy, Debug, PartialEq, Eq, Structural)]
pub enum WriteError {
    DimensionMismatch,
    CapacityReached,
}

/// One event staged for writing: the sample matrix and its per-event record.
#[derive(Debug)]
pub struct StagedEvent {
    pub timestamp: u64,
    pub waveform: Waveform,
    pub trigger_id: u32,
    pub flag: u16,
    pub fail: bool,
}

/// A contiguous slice of events to write into the current file at the given
/// event ordinal.
#[derive(Debug)]
pub struct FlushSlice {
    pub start: usize,
    pub events: Vec<StagedEvent>,
}

/// Staging and accounting for one board's group in the current file.
///
/// `written` is the history of what has been handed out for writing since
/// this file was opened; `appended` is everything accepted since then. The
/// invariant `appended == written + buffer` is what makes rollover lossless.
pub struct BoardData {
    pub current_event: usize,
    pub max_events: usize,
    pub buffer_capacity: usize,
    pub n_channels: usize,
    pub n_samples: usize,
    pub buffer: Vec<StagedEvent>,
    pub written: Ghost<Seq<StagedEvent>>,
    pub appended: Ghost<Seq<StagedEvent>>,
}

impl BoardData {
    /// The staging invariant: the write cursor counts exactly what was
    /// written, the buffer respects its capacity and never lets the file
    /// overrun its cap, and nothing accepted is ever lost.
    pub open spec fn wf(self) -> bool {
        &&& self.current_event == self.written@.len()
        &&& self.buffer@.len() < self.buffer_capacity
        &&& self.current_event + self.buffer@.len() <= self.max_events
        &&& self.appended@ == self.written@ + self.buffer@
        &&& 1 <= self.buffer_capacity <= self.max_events
    }

    /// Fresh staging for one board of a newly created file.
    pub fn new(n_channels: usize, n_samples: usize, max_events: usize, buffer_capacity: usize) -> (b:
        BoardData)
        requires
            1 <= buffer_capacity <= max_events,
        ensures
            b.wf(),
            b.n_channels == n_channels,
            b.n_samples == n_samples,
            b.max_events == max_events,
            b.buffer_capacity == buffer_capacity,
            b.current_event == 0,
            b.buffer@.len() == 0,
            b.written@ == Seq::<StagedEvent>::empty(),
            b.appended@ == Seq::<StagedEvent>::empty(),
    {
        let b = BoardData {
            current_event: 0,
            max_events,
            buffer_capacity,
            n_channels,
            n_samples,
            buffer: Vec::new(),
            written: Ghost(Seq::empty()),
            appended: Ghost(Seq::empty()),
        };
        proof {
            assert(b.appended@ =~= b.written@ + b.buffer@);
        }
        b
    }

    /// Accepts one event into the staging buffer. Events whose matrix does
    /// not match the datasets are refused; so is any append that would carry
    /// the file past its per-board cap — the caller rolls over and retries.
    /// When the buffer reaches capacity it is flushed: the returned slice
    /// must be written at the ordinals it names.
    pub fn append_event(
        &mut self,
        timestamp: u64,
        waveform: Waveform,
        trigger_id: u32,
        flag: u16,
        fail: bool,
    ) -> (r: Result<Option<FlushSlice>, WriteError>)
        requires
            old(self).wf(),
        ensures
            final(self).wf(),
            final(self).max_events == old(self).max_events,
            final(self).buffer_capacity == old(self).buffer_capacity,
            final(self).n_channels == old(self).n_channels,
            final(self).n_samples == old(self).n_samples,
            (waveform.n_channels != old(self).n_channels || waveform.n_samples != old(self).n_samples) ==> r == Result::<Option<FlushSlice>, WriteError>::Err(
                WriteError::DimensionMismatch,
            ) && *final(self) == *old(self),
            (waveform.n_channels == old(self).n_channels && waveform.n_samples == old(self).n_samples && old(self).current_event + old(self).buffer@.len() >= old(self).max_events) ==> r == Result::<Option<FlushSlice>, WriteError>::Err(
                WriteError::CapacityReached,
            ) && *final(self) == *old(self),
            (waveform.n_channels == old(self).n_channels && waveform.n_samples == old(self).n_samples && old(self).current_event + old(self).buffer@.len() < old(self).max_events) ==> {
                let ev = StagedEvent { timestamp, waveform, trigger_id, flag, fail };
                &&& final(self).appended@ == old(self).appended@.push(ev)
                &&& if old(self).buffer@.len() + 1 == old(self).buffer_capacity {
                    &&& (r matches Ok(Some(fs)) && fs.start == old(self).current_event
                        && fs.events@ == old(self).buffer@.push(ev))
                    &&& final(self).buffer@.len() == 0
                    &&& final(self).current_event == old(self).current_event + old(self).buffer_capacity
                    &&& final(self).written@ == old(self).written@ + old(self).buffer@.push(ev)
                } else {
                    &&& r == Result::<Option<FlushSlice>, WriteError>::Ok(None)
                    &&& final(self).buffer@ == old(self).buffer@.push(ev)
                    &&& final(self).current_event == old(self).current_event
                    &&& final(self).written@ == old(self).written@
                }
            },
    {
        if waveform.n_channels != self.n_channels || waveform.n_samples != self.n_samples {
            return Err(WriteError::DimensionMismatch);
        }
        if self.current_event + self.buffer.len() >= self.max_events {
            return Err(WriteError::CapacityReached);
        }
        let ev = StagedEvent { timestamp, waveform, trigger_id, flag, fail };
        self.buffer.push(ev);
        proof {
            assert(self.appended@.push(self.buffer@.last()) =~= self.written@ + self.buffer@);
            self.appended@ = self.appended@.push(self.buffer@.last());
        }
        if self.buffer.len() == self.buffer_capacity {
            let start = self.current_event;
            let mut events: Vec<StagedEvent> = Vec::new();
            core::mem::swap(&mut self.buffer, &mut events);
            self.current_event = self.current_event + events.len();
            proof {
                self.written@ = self.written@ + events@;
                assert(self.appended@ =~= self.written@ + self.buffer@);
            }
            Ok(Some(FlushSlice { start, events }))
        } else {
            Ok(None)
        }
    }

    /// Flushes whatever is staged: the returned slice must be written at the
    /// ordinals it names. Nothing to flush yields nothing.
    pub fn flush(&mut self) -> (r: Option<FlushSlice>)
        requires
            old(self).wf(),
        ensures
            final(self).wf(),
            final(self).max_events == old(self).max_events,
            final(self).buffer_capacity == old(self).buffer_capacity,
            final(self).n_channels == old(self).n_channels,
            final(self).n_samples == old(self).n_samples,
            final(self).appended@ == old(self).appended@,
            final(self).buffer@.len() == 0,
            final(self).current_event == old(self).current_event + old(self).buffer@.len(),
            final(self).written@ == old(self).written@ + old(self).buffer@,
            old(self).buffer@.len() == 0 ==> r is None && *final(self) == *old(self),
            old(self).buffer@.len() > 0 ==> (r matches Some(fs) && fs.start == old(self).current_event && fs.events@ == old(self).buffer@),
    {
        if self.buffer.len() == 0 {
            proof {
                assert(self.written@ + self.buffer@ =~= self.written@);
            }
            return None;
        }
        let start = self.current_event;
        let mut events: Vec<StagedEvent> = Vec::new();
        core::mem::swap(&mut self.buffer, &mut events);
        self.current_event = self.current_event + events.len();
        proof {
            self.written@ = self.written@ + events@;
            assert(self.appended@ =~= self.written@ + self.buffer@);
        }
        Some(FlushSlice { start, events })
    }

    /// Takes the staged events out without writing them — they will be
    /// re-inserted into the next file — and resets this board's staging.
    pub fn take_buffer(&mut self) -> (r: Vec<StagedEvent>)
        requires
            old(self).wf(),
        ensures
            final(self).wf(),
            final(self).max_events == old(self).max_events,
            final(self).buffer_capacity == old(self).buffer_capacity,
            final(self).n_channels == old(self).n_channels,
            final(self).n_samples == old(self).n_samples,
            r@ == old(self).buffer@,
            final(self).buffer@.len() == 0,
            final(self).current_event == old(self).current_event,
            final(self).written@ == old(self).written@,
            final(self).appended@ == old(self).written@,
    {
        let mut events: Vec<StagedEvent> = Vec::new();
        core::mem::swap(&mut self.buffer, &mut events);
        proof {
            self.appended@ = self.written@;
            assert(self.appended@ =~= self.written@ + self.buffer@);
        }
        events
    }

    /// Writes a previously taken buffer directly at the current ordinal:
    /// the returned slice must be written as named. Refused only if the new
    /// file cannot hold it.
    pub fn append_buffer(&mut self, events: Vec<StagedEvent>) -> (r: Result<
        FlushSlice,
        WriteError,
    >)
        requires
            old(self).wf(),
            old(self).buffer@.len() == 0,
        ensures
            final(self).wf(),
            final(self).max_events == old(self).max_events,
            final(self).buffer_capacity == old(self).buffer_capacity,
            final(self).n_channels == old(self).n_channels,
            final(self).n_samples == old(self).n_samples,
            old(self).current_event + events@.len() > old(self).max_events ==> r == Result::<
                FlushSlice,
                WriteError,
            >::Err(WriteError::CapacityReached) && *final(self) == *old(self),
            old(self).current_event + events@.len() <= old(self).max_events ==> {
                &&& (r matches Ok(fs) && fs.start == old(self).current_event && fs.events@
                    == events@)
                &&& final(self).current_event == old(self).current_event + events@.len()
                &&& final(self).written@ == old(self).written@ + events@
                &&& final(self).appended@ == old(self).appended@ + events@
                &&& final(self).buffer@ == old(self).buffer@
            },
    {
        if events.len() > self.max_events - self.current_event {
            return Err(WriteError::CapacityReached);
        }
        let start = self.current_event;
        self.current_event = self.current_event + events.len();
        proof {
            self.written@ = self.written@ + events@;
            self.appended@ = self.appended@ + events@;
            assert(self.appended@ =~= self.written@ + self.buffer@) by {
                assert(old(self).appended@ =~= old(self).written@ + old(self).buffer@);
            }
        }
        Ok(FlushSlice { start, events })
    }
}

/// A slice of events to write into one board's group of the current file at
/// the given event ordinal.
#[derive(Debug)]
pub struct WriteBatch {
    pub board: usize,
    pub start: usize,
    pub events: Vec<StagedEvent>,
}

/// Everything the embedder must do to complete a rollover: create the named
/// file with fresh groups and datasets, write the carried batches into it,
/// and record the header count.
#[derive(Debug)]
pub struct RolloverPlan {
    pub subrun: usize,
    pub filename: String,
    pub carried: Vec<WriteBatch>,
    pub saved_events: usize,
    pub post_flush: Option<WriteBatch>,
}

/// What an accepted append asks the embedder to do.
#[derive(Debug)]
pub enum WriterOutcome {
    Staged,
    Flushed(WriteBatch),
    RolledOver(RolloverPlan),
}

/// The sum of the staged-buffer lengths of the first `n` boards.
pub open spec fn spec_buffers_prefix(boards: Seq<BoardData>, n: int) -> int
    decreases n,
{
    if n <= 0 {
        0
    } else {
        spec_buffers_prefix(boards, n - 1) + boards[n - 1].buffer@.len()
    }
}

/// The sum of the write cursors of the first `n` boards.
pub open spec fn spec_current_prefix(boards: Seq<BoardData>, n: int) -> int
    decreases n,
{
    if n <= 0 {
        0
    } else {
        spec_current_prefix(boards, n - 1) + boards[n - 1].current_event
    }
}

/// The events accepted for the first `n` boards, written or still staged.
pub open spec fn spec_staged_prefix(boards: Seq<BoardData>, n: int) -> int
    decreases n,
{
    if n <= 0 {
        0
    } else {
        spec_staged_prefix(boards, n - 1) + boards[n - 1].current_event + boards[n
            - 1].buffer@.len()
    }
}

/// Prefix sums of buffer lengths grow with the prefix.
pub proof fn lemma_buffers_prefix_le(boards: Seq<BoardData>, n: int, m: int)
    requires
        0 <= n <= m,
    ensures
        spec_buffers_prefix(boards, n) <= spec_buffers_prefix(boards, m),
        0 <= spec_buffers_prefix(boards, n),
    decreases m,
{
    if n < m {
        lemma_buffers_prefix_le(boards, n, m - 1);
    } else if n > 0 {
        lemma_buffers_prefix_le(boards, n - 1, n - 1);
    }
}

/// Prefix sums of write cursors grow with the prefix.
pub proof fn lemma_current_prefix_le(boards: Seq<BoardData>, n: int, m: int)
    requires
        0 <= n <= m,
    ensures
        spec_current_prefix(boards, n) <= spec_current_prefix(boards, m),
        0 <= spec_current_prefix(boards, n),
    decreases m,
{
    if n < m {
        lemma_current_prefix_le(boards, n, m - 1);
    } else if n > 0 {
        lemma_current_prefix_le(boards, n - 1, n - 1);
    }
}

/// Once every buffer is flushed, the cursors hold what was staged before.
pub proof fn lemma_flushed_current_is_staged(a: Seq<BoardData>, b: Seq<BoardData>, n: int)
    requires
        0 <= n <= a.len(),
        n <= b.len(),
        forall|i: int|
            0 <= i < n ==> (#[trigger] a[i]).current_event == b[i].current_event
                + b[i].buffer@.len(),
    ensures
        spec_current_prefix(a, n) == spec_staged_prefix(b, n),
    decreases n,
{
    if n > 0 {
        lemma_flushed_current_is_staged(a, b, n - 1);
    }
}

/// The flushed history of each closed file, per board, concatenated in file
/// order.
pub open spec fn files_concat(archived: Seq<Seq<Seq<StagedEvent>>>, b: int) -> Seq<StagedEvent>
    decreases archived.len(),
{
    if archived.len() == 0 {
        Seq::empty()
    } else {
        files_concat(archived.drop_last(), b) + archived.last()[b]
    }
}

/// The chunked, compressed, rolling container writer: one group per board,
/// staging buffers of one chunk, and a subrun counter that names the files.
pub struct HDF5Writer {
    pub boards: Vec<BoardData>,
    pub n_channels: usize,
    pub n_samples: usize,
    pub max_events_per_board: usize,
    pub buffer_capacity: usize,
    pub subrun: usize,
    pub saved_events: usize,
    pub compression_level: u8,
    pub blosc_threads: u8,
    pub file_prefix: String,
    pub archived: Ghost<Seq<Seq<Seq<StagedEvent>>>>,
    pub total_appended: Ghost<Seq<Seq<StagedEvent>>>,
}

impl HDF5Writer {
    /// The writer invariant: every board's staging is sound and shares the
    /// writer's geometry, the archive holds one row per board for every
    /// closed subrun, and no accepted event is ever lost — what the closed
    /// files hold plus what the open file was handed is everything appended.
    pub open spec fn wf(self) -> bool {
        &&& self.total_appended@.len() == self.boards@.len()
        &&& forall|b: int| 0 <= b < self.boards@.len() ==> (#[trigger] self.boards@[b]).wf()
        &&& forall|b: int|
            0 <= b < self.boards@.len() ==> (#[trigger] self.boards@[b]).max_events
                == self.max_events_per_board && self.boards@[b].buffer_capacity
                == self.buffer_capacity && self.boards@[b].n_channels == self.n_channels
                && self.boards@[b].n_samples == self.n_samples
        &&& forall|f: int|
            0 <= f < self.archived@.len() ==> (#[trigger] self.archived@[f]).len()
                == self.boards@.len()
        &&& forall|b: int|
            0 <= b < self.boards@.len() ==> files_concat(self.archived@, b) + (
            #[trigger] self.boards@[b]).appended@ == self.total_appended@[b]
        &&& self.archived@.len() == self.subrun
        &&& 1 <= self.buffer_capacity <= self.max_events_per_board
    }

    /// A writer for a new run: file names derive from `file_prefix`, each of
    /// `n_boards` groups holds at most `max_events_per_board` events per
    /// file, staged in chunks of `buffer_capacity`.
    pub fn new(
        file_prefix: String,
        n_channels: usize,
        n_samples: usize,
        n_boards: usize,
        max_events_per_board: usize,
        buffer_capacity: usize,
        blosc_threads: u8,
        compression_level: u8,
    ) -> (w: HDF5Writer)
        requires
            1 <= buffer_capacity <= max_events_per_board,
        ensures
            w.wf(),
            w.boards@.len() == n_boards,
            w.n_channels == n_channels,
            w.n_samples == n_samples,
            w.max_events_per_board == max_events_per_board,
            w.buffer_capacity == buffer_capacity,
            w.subrun == 0,
            w.saved_events == 0,
            w.blosc_threads == blosc_threads,
            w.compression_level == compression_level,
            w.file_prefix == file_prefix,
            w.archived@ == Seq::<Seq<Seq<StagedEvent>>>::empty(),
            forall|b: int|
                0 <= b < n_boards ==> #[trigger] w.total_appended@[b] == Seq::<
                    StagedEvent,
                >::empty(),
            forall|b: int| 0 <= b < n_boards ==> (#[trigger] w.boards@[b]).current_event == 0,
    {
        let mut boards: Vec<BoardData> = Vec::new();
        let mut i: usize = 0;
        while i < n_boards
            invariant
                i <= n_boards,
                boards@.len() == i,
                1 <= buffer_capacity <= max_events_per_board,
                forall|b: int| 0 <= b < i ==> (#[trigger] boards@[b]).wf(),
                forall|b: int|
                    0 <= b < i ==> (#[trigger] boards@[b]).max_events == max_events_per_board
                        && boards@[b].buffer_capacity == buffer_capacity && boards@[b].n_channels
                        == n_channels && boards@[b].n_samples == n_samples && boards@[b].appended@
                        == Seq::<StagedEvent>::empty() && boards@[b].current_event == 0,
            decreases n_boards - i,
        {
            boards.push(BoardData::new(n_channels, n_samples, max_events_per_board, buffer_capacity));
            i = i + 1;
        }
        let w = HDF5Writer {
            boards,
            n_channels,
            n_samples,
            max_events_per_board,
            buffer_capacity,
            subrun: 0,
            saved_events: 0,
            compression_level,
            blosc_threads,
            file_prefix,
            archived: Ghost(Seq::empty()),
            total_appended: Ghost(Seq::new(n_boards as nat, |b: int| Seq::empty())),
        };
        proof {
            assert forall|b: int|
                0 <= b < w.boards@.len() implies files_concat(w.archived@, b) + (
            #[trigger] w.boards@[b]).appended@ == w.total_appended@[b] by {
                assert(files_concat(w.archived@, b) + w.boards@[b].appended@ =~= Seq::<
                    StagedEvent,
                >::empty());
            }
        }
        w
    }

    /// The name of the file this writer is currently filling.
    pub fn current_file_name(&self) -> (s: String)
        ensures
            s@ == spec_file_name(self.file_prefix@, self.subrun as nat),
    {
        subrun_file_name(self.file_prefix.as_str(), self.subrun)
    }

    /// Closes the current file and opens the next subrun: every board's
    /// staged-but-unflushed events are taken out and written at the start of
    /// the new file, so nothing appended is lost at the boundary. The
    /// returned plan tells the embedder which file to create and what to
    /// write into it.
    pub fn rollover(&mut self) -> (plan: RolloverPlan)
        requires
            old(self).wf(),
            old(self).subrun < usize::MAX,
            spec_buffers_prefix(old(self).boards@, old(self).boards@.len() as int) <= usize::MAX,
        ensures
            final(self).wf(),
            final(self).boards@.len() == old(self).boards@.len(),
            final(self).n_channels == old(self).n_channels,
            final(self).n_samples == old(self).n_samples,
            final(self).max_events_per_board == old(self).max_events_per_board,
            final(self).buffer_capacity == old(self).buffer_capacity,
            final(self).file_prefix == old(self).file_prefix,
            final(self).blosc_threads == old(self).blosc_threads,
            final(self).compression_level == old(self).compression_level,
            final(self).subrun == old(self).subrun + 1,
            final(self).saved_events == spec_buffers_prefix(
                old(self).boards@,
                old(self).boards@.len() as int,
            ),
            final(self).total_appended == old(self).total_appended,
            final(self).archived@ == old(self).archived@.push(
                Seq::new(old(self).boards@.len() as nat, |b: int| old(self).boards@[b].written@),
            ),
            plan.subrun == old(self).subrun + 1,
            plan.filename@ == spec_file_name(old(self).file_prefix@, old(self).subrun as nat + 1),
            plan.saved_events == final(self).saved_events,
            plan.post_flush is None,
            plan.carried@.len() == old(self).boards@.len(),
            forall|b: int|
                0 <= b < old(self).boards@.len() ==> (#[trigger] plan.carried@[b]).board == b
                    && plan.carried@[b].start == 0 && plan.carried@[b].events@ == old(self).boards@[b].buffer@,
            forall|b: int|
                0 <= b < old(self).boards@.len() ==> (#[trigger] final(self).boards@[b]).appended@
                    == old(self).boards@[b].buffer@ && final(self).boards@[b].written@ == old(self).boards@[b].buffer@ && final(self).boards@[b].current_event == old(self).boards@[b].buffer@.len() && final(self).boards@[b].buffer@.len() == 0,
    {
        let ghost oldb = old(self).boards@;
        let nb = self.boards.len();
        let mut carried: Vec<WriteBatch> = Vec::new();
        let mut saved: usize = 0;
        let mut b: usize = 0;
        while b < nb
            invariant
                b <= nb,
                nb == self.boards@.len(),
                nb == oldb.len(),
                old(self).wf(),
                oldb == old(self).boards@,
                spec_buffers_prefix(oldb, nb as int) <= usize::MAX,
                carried@.len() == b,
                saved == spec_buffers_prefix(oldb, b as int),
                self.subrun == old(self).subrun,
                self.saved_events == old(self).saved_events,
                self.archived == old(self).archived,
                self.total_appended == old(self).total_appended,
                self.file_prefix == old(self).file_prefix,
                self.n_channels == old(self).n_channels,
                self.n_samples == old(self).n_samples,
                self.max_events_per_board == old(self).max_events_per_board,
                self.buffer_capacity == old(self).buffer_capacity,
                self.compression_level == old(self).compression_level,
                self.blosc_threads == old(self).blosc_threads,
                old(self).subrun < usize::MAX,
                forall|i: int| b <= i < nb ==> #[trigger] self.boards@[i] == oldb[i],
                forall|i: int|
                    0 <= i < b ==> (#[trigger] carried@[i]).board == i && carried@[i].start == 0
                        && carried@[i].events@ == oldb[i].buffer@,
                forall|i: int|
                    0 <= i < b ==> (#[trigger] self.boards@[i]).wf()
                        && self.boards@[i].appended@ == oldb[i].buffer@ && self.boards@[i].written@
                        == oldb[i].buffer@ && self.boards@[i].current_event
                        == oldb[i].buffer@.len() && self.boards@[i].buffer@.len() == 0
                        && self.boards@[i].max_events == oldb[i].max_events
                        && self.boards@[i].buffer_capacity == oldb[i].buffer_capacity
                        && self.boards@[i].n_channels == oldb[i].n_channels
                        && self.boards@[i].n_samples == oldb[i].n_samples,
            decreases nb - b,
        {
            proof {
                assert(self.boards@[b as int] == oldb[b as int]);
                assert(oldb[b as int].wf());
                lemma_buffers_prefix_le(oldb, b + 1, nb as int);
            }
            let bd = &mut self.boards[b];
            let events = bd.take_buffer();
            let n_ch = bd.n_channels;
            let n_sa = bd.n_samples;
            let max_e = bd.max_events;
            let cap = bd.buffer_capacity;
            let fresh = BoardData::new(n_ch, n_sa, max_e, cap);
            *bd = fresh;
            let count = events.len();
            let reinserted = match bd.append_buffer(events) {
                Ok(fs) => fs,
                Err(_) => {
                    proof {
                        assert(false);
                    }
                    vstd::pervasive::unreached()
                },
            };
            carried.push(WriteBatch { board: b, start: reinserted.start, events: reinserted.events });
            saved = saved + count;
            b = b + 1;
        }
        self.subrun = self.subrun + 1;
        self.saved_events = saved;
        proof {
            self.archived@ = self.archived@.push(Seq::new(nb as nat, |i: int| oldb[i].written@));
            assert forall|i: int|
                0 <= i < nb implies files_concat(self.archived@, i) + (
            #[trigger] self.boards@[i]).appended@ == self.total_appended@[i] by {
                let arch0 = old(self).archived@;
                assert(self.archived@.drop_last() =~= arch0);
                assert(self.archived@.last()[i] == oldb[i].written@);
                assert(files_concat(self.archived@, i) == files_concat(arch0, i)
                    + oldb[i].written@);
                assert(files_concat(arch0, i) + oldb[i].appended@ == self.total_appended@[i]);
                assert(oldb[i].appended@ == oldb[i].written@ + oldb[i].buffer@);
                assert(files_concat(arch0, i) + oldb[i].written@ + oldb[i].buffer@
                    =~= files_concat(arch0, i) + (oldb[i].written@ + oldb[i].buffer@));
            }
        }
        let filename = subrun_file_name(self.file_prefix.as_str(), self.subrun);
        RolloverPlan { subrun: self.subrun, filename, carried, saved_events: saved, post_flush: None }
    }

    /// Appends one event to a board's group. An event whose matrix does not
    /// match the datasets is refused; an event that would carry the board
    /// past the per-file cap first rolls the file over and is then appended
    /// to the new file. The returned outcome tells the embedder what to
    /// write.
    pub fn append_event(
        &mut self,
        board: usize,
        timestamp: u64,
        waveform: Waveform,
        trigger_id: u32,
        flag: u16,
        fail: bool,
    ) -> (r: Result<WriterOutcome, WriteError>)
        requires
            old(self).wf(),
            board < old(self).boards@.len(),
            old(self).subrun < usize::MAX,
            spec_buffers_prefix(old(self).boards@, old(self).boards@.len() as int) <= usize::MAX,
        ensures
            final(self).wf(),
            final(self).boards@.len() == old(self).boards@.len(),
            final(self).n_channels == old(self).n_channels,
            final(self).n_samples == old(self).n_samples,
            final(self).max_events_per_board == old(self).max_events_per_board,
            final(self).buffer_capacity == old(self).buffer_capacity,
            final(self).file_prefix == old(self).file_prefix,
            (waveform.n_channels != old(self).n_channels || waveform.n_samples != old(self).n_samples) ==> r is Err && *final(self) == *old(self),
            (waveform.n_channels == old(self).n_channels && waveform.n_samples == old(self).n_samples) ==> {
                let ev = StagedEvent { timestamp, waveform, trigger_id, flag, fail };
                let b0 = old(self).boards@[board as int];
                &&& r is Ok
                &&& final(self).total_appended@ == old(self).total_appended@.update(
                    board as int,
                    old(self).total_appended@[board as int].push(ev),
                )
                &&& forall|b2: int|
                    0 <= b2 < old(self).boards@.len() && b2 != board ==> (#[trigger] final(self).total_appended@[b2]) == old(self).total_appended@[b2]
                &&& if b0.current_event + b0.buffer@.len() < b0.max_events {
                    &&& final(self).subrun == old(self).subrun
                    &&& final(self).archived == old(self).archived
                    &&& forall|b2: int|
                        0 <= b2 < old(self).boards@.len() && b2 != board ==> (#[trigger] final(self).boards@[b2]) == old(self).boards@[b2]
                    &&& final(self).boards@[board as int].appended@ == b0.appended@.push(ev)
                    &&& if b0.buffer@.len() + 1 == b0.buffer_capacity {
                        &&& (r matches Ok(WriterOutcome::Flushed(wb)) && wb.board == board
                            && wb.start == b0.current_event && wb.events@ == b0.buffer@.push(ev))
                        &&& final(self).boards@[board as int].written@ == b0.written@
                            + b0.buffer@.push(ev)
                        &&& final(self).boards@[board as int].buffer@.len() == 0
                    } else {
                        &&& r == Result::<WriterOutcome, WriteError>::Ok(WriterOutcome::Staged)
                        &&& final(self).boards@[board as int].buffer@ == b0.buffer@.push(ev)
                        &&& final(self).boards@[board as int].written@ == b0.written@
                    }
                } else {
                    &&& (r matches Ok(WriterOutcome::RolledOver(plan)) && {
                        &&& plan.subrun == old(self).subrun + 1
                        &&& plan.filename@ == spec_file_name(
                            old(self).file_prefix@,
                            old(self).subrun as nat + 1,
                        )
                        &&& plan.saved_events == spec_buffers_prefix(
                            old(self).boards@,
                            old(self).boards@.len() as int,
                        )
                        &&& plan.carried@.len() == old(self).boards@.len()
                        &&& forall|b2: int|
                            0 <= b2 < old(self).boards@.len() ==> (
                            #[trigger] plan.carried@[b2]).board == b2 && plan.carried@[b2].start
                                == 0 && plan.carried@[b2].events@ == old(self).boards@[b2].buffer@
                        &&& if b0.buffer_capacity == 1 {
                            plan.post_flush matches Some(wb) && wb.board == board && wb.start
                                == b0.buffer@.len() && wb.events@ == seq![ev]
                        } else {
                            plan.post_flush is None
                        }
                    })
                    &&& final(self).subrun == old(self).subrun + 1
                    &&& final(self).archived@ == old(self).archived@.push(
                        Seq::new(
                            old(self).boards@.len() as nat,
                            |b2: int| old(self).boards@[b2].written@,
                        ),
                    )
                    &&& forall|b2: int|
                        0 <= b2 < old(self).boards@.len() && b2 != board ==> (#[trigger] final(self).boards@[b2]).appended@ == old(self).boards@[b2].buffer@
                    &&& final(self).boards@[board as int].appended@ == b0.buffer@.push(ev)
                }
            },
    {
        if waveform.n_channels != self.n_channels || waveform.n_samples != self.n_samples {
            return Err(WriteError::DimensionMismatch);
        }
        let ghost ev = StagedEvent { timestamp, waveform, trigger_id, flag, fail };
        let needs_rollover = {
            let bd = &self.boards[board];
            bd.current_event + bd.buffer.len() >= bd.max_events
        };
        if !needs_rollover {
            let bd = &mut self.boards[board];
            let res = bd.append_event(timestamp, waveform, trigger_id, flag, fail);
            proof {
                self.total_appended@ = self.total_appended@.update(
                    board as int,
                    self.total_appended@[board as int].push(ev),
                );
                assert forall|b2: int|
                    0 <= b2 < self.boards@.len() implies files_concat(self.archived@, b2) + (
                #[trigger] self.boards@[b2]).appended@ == self.total_appended@[b2] by {
                    if b2 == board {
                        assert(files_concat(self.archived@, b2) + old(self).boards@[b2].appended@.push(ev) =~= (files_concat(self.archived@, b2)
                            + old(self).boards@[b2].appended@).push(ev));
                    }
                }
            }
            match res {
                Ok(Some(fs)) => Ok(
                    WriterOutcome::Flushed(
                        WriteBatch { board, start: fs.start, events: fs.events },
                    ),
                ),
                Ok(None) => Ok(WriterOutcome::Staged),
                Err(_) => {
                    proof {
                        assert(false);
                    }
                    vstd::pervasive::unreached()
                },
            }
        } else {
            let mut plan = self.rollover();
            let bd = &mut self.boards[board];
            let res = bd.append_event(timestamp, waveform, trigger_id, flag, fail);
            proof {
                self.total_appended@ = self.total_appended@.update(
                    board as int,
                    self.total_appended@[board as int].push(ev),
                );
                assert forall|b2: int|
                    0 <= b2 < self.boards@.len() implies files_concat(self.archived@, b2) + (
                #[trigger] self.boards@[b2]).appended@ == self.total_appended@[b2] by {
                    if b2 == board {
                        assert(files_concat(self.archived@, b2) + old(self).boards@[b2].buffer@.push(ev) =~= (files_concat(self.archived@, b2) + old(self).boards@[b2].buffer@).push(ev));
                    }
                }
            }
            match res {
                Ok(Some(fs)) => {
                    plan.post_flush = Some(
                        WriteBatch { board, start: fs.start, events: fs.events },
                    );
                    Ok(WriterOutcome::RolledOver(plan))
                },
                Ok(None) => Ok(WriterOutcome::RolledOver(plan)),
                Err(_) => {
                    proof {
                        assert(false);
                    }
                    vstd::pervasive::unreached()
                },
            }
        }
    }

    /// Flushes every board's staging and records the total number of events
    /// the current file then holds: the header count equals the sum of the
    /// per-board write cursors.
    pub fn flush_all(&mut self) -> (r: (Vec<WriteBatch>, usize))
        requires
            old(self).wf(),
            spec_staged_prefix(old(self).boards@, old(self).boards@.len() as int) <= usize::MAX,
        ensures
            final(self).wf(),
            final(self).boards@.len() == old(self).boards@.len(),
            final(self).n_channels == old(self).n_channels,
            final(self).n_samples == old(self).n_samples,
            final(self).max_events_per_board == old(self).max_events_per_board,
            final(self).buffer_capacity == old(self).buffer_capacity,
            final(self).file_prefix == old(self).file_prefix,
            final(self).subrun == old(self).subrun,
            final(self).archived == old(self).archived,
            final(self).total_appended == old(self).total_appended,
            final(self).saved_events == r.1,
            r.1 == spec_current_prefix(final(self).boards@, final(self).boards@.len() as int),
            r.1 == spec_staged_prefix(old(self).boards@, old(self).boards@.len() as int),
            r.0@.len() == old(self).boards@.len(),
            forall|b: int|
                0 <= b < old(self).boards@.len() ==> (#[trigger] r.0@[b]).board == b
                    && r.0@[b].start == old(self).boards@[b].current_event && r.0@[b].events@
                    == old(self).boards@[b].buffer@,
            forall|b: int|
                0 <= b < old(self).boards@.len() ==> (#[trigger] final(self).boards@[b]).buffer@.len()
                    == 0 && final(self).boards@[b].current_event == old(self).boards@[b].current_event + old(self).boards@[b].buffer@.len() && final(self).boards@[b].written@ == old(self).boards@[b].written@ + old(self).boards@[b].buffer@ && final(self).boards@[b].appended@ == old(self).boards@[b].appended@,
    {
        let ghost oldb = old(self).boards@;
        let nb = self.boards.len();
        let mut batches: Vec<WriteBatch> = Vec::new();
        let mut saved: usize = 0;
        let mut b: usize = 0;
        while b < nb
            invariant
                b <= nb,
                nb == self.boards@.len(),
                nb == oldb.len(),
                oldb == old(self).boards@,
                old(self).wf(),
                spec_staged_prefix(oldb, nb as int) <= usize::MAX,
                batches@.len() == b,
                saved == spec_staged_prefix(oldb, b as int),
                self.subrun == old(self).subrun,
                self.saved_events == old(self).saved_events,
                self.archived == old(self).archived,
                self.total_appended == old(self).total_appended,
                self.file_prefix == old(self).file_prefix,
                self.n_channels == old(self).n_channels,
                self.n_samples == old(self).n_samples,
                self.max_events_per_board == old(self).max_events_per_board,
                self.buffer_capacity == old(self).buffer_capacity,
                self.compression_level == old(self).compression_level,
                self.blosc_threads == old(self).blosc_threads,
                forall|i: int| b <= i < nb ==> #[trigger] self.boards@[i] == oldb[i],
                forall|i: int|
                    0 <= i < b ==> (#[trigger] batches@[i]).board == i && batches@[i].start
                        == oldb[i].current_event && batches@[i].events@ == oldb[i].buffer@,
                forall|i: int|
                    0 <= i < b ==> (#[trigger] self.boards@[i]).wf() && self.boards@[i].buffer@.len()
                        == 0 && self.boards@[i].current_event == oldb[i].current_event
                        + oldb[i].buffer@.len() && self.boards@[i].written@ == oldb[i].written@
                        + oldb[i].buffer@ && self.boards@[i].appended@ == oldb[i].appended@
                        && self.boards@[i].max_events == oldb[i].max_events
                        && self.boards@[i].buffer_capacity == oldb[i].buffer_capacity
                        && self.boards@[i].n_channels == oldb[i].n_channels
                        && self.boards@[i].n_samples == oldb[i].n_samples,
            decreases nb - b,
        {
            proof {
                assert(self.boards@[b as int] == oldb[b as int]);
                assert(oldb[b as int].wf());
                lemma_staged_prefix_le(oldb, b + 1, nb as int);
            }
            let bd = &mut self.boards[b];
            let start0 = bd.current_event;
            let flushed = bd.flush();
            let batch = match flushed {
                Some(fs) => WriteBatch { board: b, start: fs.start, events: fs.events },
                None => WriteBatch { board: b, start: start0, events: Vec::new() },
            };
            proof {
                assert(batch.events@ =~= oldb[b as int].buffer@);
            }
            batches.push(batch);
            saved = saved + self.boards[b].current_event;
            b = b + 1;
        }
        self.saved_events = saved;
        proof {
            lemma_flushed_current_is_staged(self.boards@, oldb, nb as int);
        }
        (batches, saved)
    }
}

/// For every board, what the closed files hold, plus what was written to the
/// open file, plus what is still staged, is exactly the sequence of events
/// appended for that board, in order — rollover loses nothing and reorders
/// nothing.
pub proof fn lemma_on_disk_matches_appended(w: HDF5Writer, b: int)
    requires
        w.wf(),
        0 <= b < w.boards@.len(),
    ensures
        files_concat(w.archived@, b) + w.boards@[b].written@ + w.boards@[b].buffer@
            == w.total_appended@[b],
{
    assert(files_concat(w.archived@, b) + w.boards@[b].written@ + w.boards@[b].buffer@
        =~= files_concat(w.archived@, b) + (w.boards@[b].written@ + w.boards@[b].buffer@));
}

/// Prefix sums of staged totals grow with the prefix.
pub proof fn lemma_staged_prefix_le(boards: Seq<BoardData>, n: int, m: int)
    requires
        0 <= n <= m,
    ensures
        spec_staged_prefix(boards, n) <= spec_staged_prefix(boards, m),
        0 <= spec_staged_prefix(boards, n),
    decreases m,
{
    if n < m {
        lemma_staged_prefix_le(boards, n, m - 1);
    } else if n > 0 {
        lemma_staged_prefix_le(boards, n - 1, n - 1);
    }
}

/// The name of a subrun file: the run prefix, an underscore, the two-digit
/// subrun, and the container suffix.
pub open spec fn spec_file_name(prefix: Seq<char>, subrun: nat) -> Seq<char> {
    prefix + "_"@ + spec_pad2(subrun) + ".h5"@
}

/// Renders the name of a subrun file.
pub fn subrun_file_name(prefix: &str, subrun: usize) -> (s: String)
    ensures
        s@ == spec_file_name(prefix@, subrun as nat),
{
    let mut s = String::from_str(prefix);
    s.append("_");
    let pad = pad2_string(subrun);
    s.append(pad.as_str());
    s.append(".h5");
    proof {
        assert(s@ =~= spec_file_name(prefix@, subrun as nat));
    }
    s
}

} // verus!
