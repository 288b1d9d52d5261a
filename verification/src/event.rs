//! The owned event record a board's reader fills: a contiguous
//! channels-by-samples matrix of 16-bit ADC words plus the per-event
//! metadata, and the tagged form that crosses the queue to the aligner.
use vstd::prelude::*;

verus! {

/// The index of one cell of a channels-by-samples matrix laid out row by row.
pub proof fn lemma_chan_index_in_range(c: int, i: int, cc: int, ss: int)
    by (nonlinear_arith)
    requires
        0 <= c < cc,
        0 <= i < ss,
    ensures
        0 <= c * ss + i < cc * ss,
        0 <= c * ss,
        (c + 1) * ss <= cc * ss,
{
}

/// Cells of two different rows never share an index.
pub proof fn lemma_chan_index_distinct(c1: int, i1: int, c2: int, i2: int, ss: int)
    by (nonlinear_arith)
    requires
        c1 != c2,
        0 <= i1 < ss,
        0 <= i2 < ss,
    ensures
        c1 * ss + i1 != c2 * ss + i2,
{
}

/// Bounds of one row of a channels-by-samples matrix laid out row by row.
pub proof fn lemma_row_bounds(c: int, cc: int, ss: int)
    by (nonlinear_arith)
    requires
        0 <= c < cc,
        0 <= ss,
    ensures
        0 <= c * ss,
        (c + 1) * ss <= cc * ss,
        (c + 1) * ss == c * ss + ss,
{
}

/// A contiguous channels-by-samples sample matrix, one row per channel.
#[derive(Debug)]
pub struct Waveform {
    pub n_channels: usize,
    pub n_samples: usize,
    pub data: Vec<u16>,
}

impl Waveform {
    /// The matrix holds exactly one row of samples per channel.
    pub open spec fn wf(self) -> bool {
        self.data@.len() == self.n_channels * self.n_samples
    }

    /// The samples of one channel.
    pub open spec fn spec_channel(self, c: int) -> Seq<u16> {
        self.data@.subrange(c * self.n_samples, (c + 1) * self.n_samples)
    }

    /// Each channel of a well-formed matrix is one full row.
    pub proof fn lemma_channel_len(self, c: int)
        requires
            self.wf(),
            0 <= c < self.n_channels,
        ensures
            self.spec_channel(c).len() == self.n_samples,
    {
        lemma_row_bounds(c, self.n_channels as int, self.n_samples as int);
    }

    /// Both dimensions agree with another matrix.
    pub open spec fn same_shape(self, other: Waveform) -> bool {
        self.n_channels == other.n_channels && self.n_samples == other.n_samples
    }

    /// A zeroed matrix of the given dimensions.
    pub fn new(n_channels: usize, n_samples: usize) -> (w: Waveform)
        requires
            n_channels * n_samples <= usize::MAX,
        ensures
            w.wf(),
            w.n_channels == n_channels,
            w.n_samples == n_samples,
            forall|i: int| 0 <= i < w.data@.len() ==> w.data@[i] == 0u16,
    {
        proof {
            assert(0 * n_samples == 0) by (nonlinear_arith);
            assert(n_channels * n_samples >= 0) by (nonlinear_arith);
        }
        let total = n_channels * n_samples;
        let mut data: Vec<u16> = Vec::new();
        let mut i: usize = 0;
        while i < total
            invariant
                i <= total,
                data@.len() == i,
                forall|j: int| 0 <= j < i ==> data@[j] == 0u16,
            decreases total - i,
        {
            data.push(0);
            i = i + 1;
        }
        Waveform { n_channels, n_samples, data }
    }

    /// Reads one sample.
    pub fn get(&self, c: usize, i: usize) -> (x: u16)
        requires
            self.wf(),
            c < self.n_channels,
            i < self.n_samples,
        ensures
            x == self.spec_channel(c as int)[i as int],
    {
        let total = self.data.len();
        proof {
            lemma_chan_index_in_range(
                c as int,
                i as int,
                self.n_channels as int,
                self.n_samples as int,
            );
            lemma_row_bounds(c as int, self.n_channels as int, self.n_samples as int);
            assert(c * self.n_samples + i < total);
        }
        let idx = c * self.n_samples + i;
        self.data[idx]
    }

    /// Overwrites one sample, leaving every other channel untouched.
    pub fn set(&mut self, c: usize, i: usize, v: u16)
        requires
            old(self).wf(),
            c < old(self).n_channels,
            i < old(self).n_samples,
        ensures
            final(self).wf(),
            final(self).n_channels == old(self).n_channels,
            final(self).n_samples == old(self).n_samples,
            final(self).spec_channel(c as int) == old(self).spec_channel(c as int).update(
                i as int,
                v,
            ),
            forall|c2: int|
                0 <= c2 < old(self).n_channels && c2 != c ==> final(self).spec_channel(c2) == old(self).spec_channel(c2),
    {
        let total = self.data.len();
        proof {
            lemma_chan_index_in_range(
                c as int,
                i as int,
                self.n_channels as int,
                self.n_samples as int,
            );
            lemma_row_bounds(c as int, self.n_channels as int, self.n_samples as int);
            assert(c * self.n_samples + i < total);
        }
        let idx = c * self.n_samples + i;
        self.data[idx] = v;
        proof {
            let ss = self.n_samples as int;
            assert(self.spec_channel(c as int) =~= old(self).spec_channel(c as int).update(
                i as int,
                v,
            ));
            assert forall|c2: int| 0 <= c2 < self.n_channels && c2 != c implies self.spec_channel(
                c2,
            ) == old(self).spec_channel(c2) by {
                lemma_row_bounds(c2, self.n_channels as int, ss);
                let prev = *old(self);
                assert forall|j: int|
                    0 <= j < ss implies #[trigger] self.spec_channel(c2)[j] == prev.spec_channel(
                        c2,
                    )[j] by {
                    lemma_chan_index_distinct(c2, j, c as int, i as int, ss);
                    lemma_chan_index_in_range(c2, j, self.n_channels as int, ss);
                }
                assert(self.spec_channel(c2) =~= old(self).spec_channel(c2));
            }
        }
    }
}

/// One event as read from a board: metadata plus the sample matrix.
#[derive(Debug)]
pub struct EventWrapper {
    pub timestamp: u64,
    pub trigger_id: u32,
    pub event_size: usize,
    pub flags: u16,
    pub board_fail: bool,
    pub waveform_data: Waveform,
}

impl EventWrapper {
    /// A zeroed event record with room for the given matrix dimensions,
    /// ready to be handed to the reader and recycled between events.
    pub fn new(n_channels: usize, waveform_len: usize) -> (e: EventWrapper)
        requires
            n_channels * waveform_len <= usize::MAX,
        ensures
            e.waveform_data.wf(),
            e.waveform_data.n_channels == n_channels,
            e.waveform_data.n_samples == waveform_len,
            e.timestamp == 0,
            e.trigger_id == 0,
            e.event_size == 0,
            e.flags == 0,
            !e.board_fail,
    {
        EventWrapper {
            timestamp: 0,
            trigger_id: 0,
            event_size: 0,
            flags: 0,
            board_fail: false,
            waveform_data: Waveform::new(n_channels, waveform_len),
        }
    }
}

/// An event tagged with the board it came from.
#[derive(Debug)]
pub struct BoardEvent {
    pub board_id: usize,
    pub event: EventWrapper,
}

} // verus!
