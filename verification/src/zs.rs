//! Zero suppression: samples not significantly above (or below) a channel's
//! baseline are zeroed. The baseline is the mean of the first `k` samples;
//! to stay in integers the comparison is carried out scaled by `k`, which is
//! exact: `x - sum/k < thr` holds iff `x*k - sum < thr*k`.
//!
//! Whether an event is suppressed at all is a per-event random draw against
//! a configured level.
use vstd::prelude::*;

verus! {

use crate::config::ZeroSuppressionEdge;
use crate::event::BoardEvent;
use crate::event::Waveform;

/// The sum of a sequence of samples.
pub open spec fn spec_sum(s: Seq<u16>) -> int
    decreases s.len(),
{
    if s.len() == 0 {
        0
    } else {
        spec_sum(s.drop_last()) + s.last()
    }
}

/// A sum of samples is bounded by the sample range.
pub proof fn lemma_sum_bounds(s: Seq<u16>)
    ensures
        0 <= spec_sum(s) <= 65535 * s.len(),
    decreases s.len(),
{
    if s.len() > 0 {
        lemma_sum_bounds(s.drop_last());
    }
}

/// Sums respect pointwise ordering.
pub proof fn lemma_sum_pointwise_le(a: Seq<u16>, b: Seq<u16>)
    requires
        a.len() == b.len(),
        forall|i: int| 0 <= i < a.len() ==> a[i] <= b[i],
    ensures
        spec_sum(a) <= spec_sum(b),
    decreases a.len(),
{
    if a.len() > 0 {
        lemma_sum_pointwise_le(a.drop_last(), b.drop_last());
    }
}

/// Whether a sample is zeroed, in `k`-scaled integer arithmetic: `sum` is the
/// sum of the `k` baseline samples, so `x*k - sum` compared with `thr*k` is
/// the sample's excursion from the baseline mean compared with the threshold.
pub open spec fn spec_zeroed(x: u16, sum: int, k: int, thr: int, edge: ZeroSuppressionEdge) -> bool {
    match edge {
        ZeroSuppressionEdge::Rise => x * k - sum < thr * k,
        ZeroSuppressionEdge::Fall => x * k - sum > thr * k,
    }
}

/// One channel after zero suppression against the mean of its first `k`
/// samples.
pub open spec fn spec_suppress_channel(
    ch: Seq<u16>,
    thr: int,
    edge: ZeroSuppressionEdge,
    k: int,
) -> Seq<u16>
    recommends
        0 < k <= ch.len(),
{
    let sum = spec_sum(ch.take(k));
    Seq::new(
        ch.len(),
        |i: int|
            if spec_zeroed(ch[i], sum, k, thr, edge) {
                0u16
            } else {
                ch[i]
            },
    )
}

/// Suppression never revives a sample: one that is zero after a pass is
/// still zero after another pass with the same parameters.
pub proof fn lemma_suppress_zero_stays(
    ch: Seq<u16>,
    thr: int,
    edge: ZeroSuppressionEdge,
    k: int,
    i: int,
)
    requires
        0 < k <= ch.len(),
        0 <= i < ch.len(),
        spec_suppress_channel(ch, thr, edge, k)[i] == 0,
    ensures
        spec_suppress_channel(spec_suppress_channel(ch, thr, edge, k), thr, edge, k)[i] == 0,
{
}

/// For a rising edge, zero suppression is idempotent: zeroing samples can
/// only lower the baseline, so every survivor of the first pass clears the
/// threshold of the second as well.
pub proof fn lemma_suppress_rise_idempotent(ch: Seq<u16>, thr: int, k: int)
    requires
        0 < k <= ch.len(),
    ensures
        spec_suppress_channel(
            spec_suppress_channel(ch, thr, ZeroSuppressionEdge::Rise, k),
            thr,
            ZeroSuppressionEdge::Rise,
            k,
        ) == spec_suppress_channel(ch, thr, ZeroSuppressionEdge::Rise, k),
{
    let edge = ZeroSuppressionEdge::Rise;
    let s1 = spec_suppress_channel(ch, thr, edge, k);
    let s2 = spec_suppress_channel(s1, thr, edge, k);
    let sum1 = spec_sum(ch.take(k));
    let sum2 = spec_sum(s1.take(k));
    assert forall|j: int| 0 <= j < k implies s1.take(k)[j] <= ch.take(k)[j] by {}
    lemma_sum_pointwise_le(s1.take(k), ch.take(k));
    assert forall|i: int| 0 <= i < s1.len() implies s2[i] == s1[i] by {
        if s1[i] != 0 {
            assert(s1[i] == ch[i]);
            assert(!spec_zeroed(ch[i], sum1, k, thr, edge));
            assert(!spec_zeroed(s1[i], sum2, k, thr, edge));
        }
    }
    assert(s2 =~= s1);
}

proof fn lemma_mul_le(a: int, b: int, amax: int, bmax: int)
    by (nonlinear_arith)
    requires
        0 <= a <= amax,
        0 <= b <= bmax,
    ensures
        0 <= a * b <= amax * bmax,
{
}

proof fn lemma_mul_abs_le(a: int, b: int, amax: int, bmax: int)
    by (nonlinear_arith)
    requires
        -amax <= a <= amax,
        0 <= b <= bmax,
        0 <= amax,
    ensures
        -(amax * bmax) <= a * b <= amax * bmax,
{
}

fn suppress_channel(
    w: &mut Waveform,
    c: usize,
    threshold: i64,
    edge: ZeroSuppressionEdge,
    bl_samples: usize,
)
    requires
        old(w).wf(),
        c < old(w).n_channels,
        0 < bl_samples <= old(w).n_samples,
        bl_samples <= 0xFFFF_FFFFusize,
    ensures
        final(w).wf(),
        final(w).n_channels == old(w).n_channels,
        final(w).n_samples == old(w).n_samples,
        final(w).spec_channel(c as int) == spec_suppress_channel(
            old(w).spec_channel(c as int),
            threshold as int,
            edge,
            bl_samples as int,
        ),
        forall|c2: int|
            0 <= c2 < old(w).n_channels && c2 != c ==> final(w).spec_channel(c2) == old(w).spec_channel(c2),
{
    let ghost ch0 = old(w).spec_channel(c as int);
    let ghost kk = bl_samples as int;
    let ghost thr = threshold as int;
    let k = bl_samples;
    let mut sum: i128 = 0;
    let mut j: usize = 0;
    proof {
        assert(ch0.take(0) =~= Seq::<u16>::empty());
        old(w).lemma_channel_len(c as int);
    }
    while j < k
        invariant
            j <= k,
            0 < k <= old(w).n_samples,
            k <= 0xFFFF_FFFFusize,
            *w == *old(w),
            old(w).wf(),
            c < old(w).n_channels,
            ch0 == old(w).spec_channel(c as int),
            ch0.len() == old(w).n_samples,
            sum == spec_sum(ch0.take(j as int)),
        decreases k - j,
    {
        let x = w.get(c, j);
        proof {
            assert(ch0.take(j + 1).drop_last() =~= ch0.take(j as int));
            assert(ch0.take(j + 1).last() == ch0[j as int]);
            lemma_sum_bounds(ch0.take(j as int));
            lemma_mul_le(65535, j as int, 65535, 0x1_0000_0000);
        }
        sum = sum + x as i128;
        j = j + 1;
    }
    let ghost basesum = spec_sum(ch0.take(kk));
    proof {
        lemma_sum_bounds(ch0.take(kk));
        lemma_mul_le(65535, kk, 65535, 0x1_0000_0000);
        lemma_mul_abs_le(threshold as int, kk, 0x8000_0000_0000_0000, 0x1_0000_0000);
    }
    let rhs: i128 = (threshold as i128) * (k as i128);
    let ghost target = spec_suppress_channel(ch0, thr, edge, kk);
    let n = w.n_samples;
    let mut i: usize = 0;
    while i < n
        invariant
            i <= n,
            n == old(w).n_samples,
            w.wf(),
            w.n_channels == old(w).n_channels,
            w.n_samples == old(w).n_samples,
            c < w.n_channels,
            0 < k <= n,
            k <= 0xFFFF_FFFFusize,
            ch0 == old(w).spec_channel(c as int),
            ch0.len() == n,
            basesum == spec_sum(ch0.take(kk)),
            sum == basesum,
            0 <= sum <= 0xFFFF_0000_0000,
            rhs == thr * kk,
            kk == k as int,
            thr == threshold as int,
            target == spec_suppress_channel(ch0, thr, edge, kk),
            target.len() == n,
            forall|t: int| 0 <= t < i ==> w.spec_channel(c as int)[t] == target[t],
            forall|t: int| i <= t < n ==> w.spec_channel(c as int)[t] == ch0[t],
            forall|c2: int|
                0 <= c2 < old(w).n_channels && c2 != c ==> w.spec_channel(c2) == old(w).spec_channel(c2),
        decreases n - i,
    {
        let x = w.get(c, i);
        proof {
            w.lemma_channel_len(c as int);
            lemma_mul_le(x as int, kk, 65535, 0x1_0000_0000);
        }
        let lhs: i128 = (x as i128) * (k as i128) - sum;
        let zeroed = match edge {
            ZeroSuppressionEdge::Rise => lhs < rhs,
            ZeroSuppressionEdge::Fall => lhs > rhs,
        };
        proof {
            assert(x == ch0[i as int]);
            assert(zeroed == spec_zeroed(ch0[i as int], basesum, kk, thr, edge));
        }
        let ghost prev = *w;
        if zeroed {
            w.set(c, i, 0);
        }
        proof {
            w.lemma_channel_len(c as int);
            prev.lemma_channel_len(c as int);
            assert forall|t: int|
                0 <= t < i + 1 implies w.spec_channel(c as int)[t] == target[t] by {
                if t < i {
                    assert(prev.spec_channel(c as int)[t] == target[t]);
                    assert(w.spec_channel(c as int)[t] == prev.spec_channel(c as int)[t]);
                } else {
                    assert(prev.spec_channel(c as int)[t] == ch0[t]);
                    if zeroed {
                        assert(w.spec_channel(c as int) == prev.spec_channel(c as int).update(
                            i as int,
                            0u16,
                        ));
                        assert(w.spec_channel(c as int)[t] == 0u16);
                        assert(spec_zeroed(ch0[t], basesum, kk, thr, edge));
                        assert(target[t] == 0u16);
                    } else {
                        assert(w.spec_channel(c as int)[t] == ch0[t]);
                        assert(!spec_zeroed(ch0[t], basesum, kk, thr, edge));
                        assert(target[t] == ch0[t]);
                    }
                }
            }
            assert forall|t: int|
                i + 1 <= t < n implies w.spec_channel(c as int)[t] == ch0[t] by {
                assert(prev.spec_channel(c as int)[t] == ch0[t]);
                assert(w.spec_channel(c as int)[t] == prev.spec_channel(c as int)[t]);
            }
        }
        i = i + 1;
    }
    proof {
        w.lemma_channel_len(c as int);
        assert(w.spec_channel(c as int) =~= target);
    }
}

/// Zero-suppresses every channel of a tagged event in place: each channel's
/// baseline is the mean of its first `bl_samples` samples, and a sample is
/// zeroed when its excursion from that baseline stays under (rising edge) or
/// over (falling edge) the threshold. Metadata is untouched.
pub fn zero_suppress(
    board_data: &mut BoardEvent,
    threshold: i64,
    edge: ZeroSuppressionEdge,
    bl_samples: usize,
)
    requires
        old(board_data).event.waveform_data.wf(),
        0 < bl_samples <= old(board_data).event.waveform_data.n_samples,
        bl_samples <= 0xFFFF_FFFFusize,
    ensures
        final(board_data).board_id == old(board_data).board_id,
        final(board_data).event.timestamp == old(board_data).event.timestamp,
        final(board_data).event.trigger_id == old(board_data).event.trigger_id,
        final(board_data).event.event_size == old(board_data).event.event_size,
        final(board_data).event.flags == old(board_data).event.flags,
        final(board_data).event.board_fail == old(board_data).event.board_fail,
        final(board_data).event.waveform_data.wf(),
        final(board_data).event.waveform_data.n_channels == old(board_data).event.waveform_data.n_channels,
        final(board_data).event.waveform_data.n_samples == old(board_data).event.waveform_data.n_samples,
        forall|c: int|
            0 <= c < old(board_data).event.waveform_data.n_channels ==> final(board_data).event.waveform_data.spec_channel(c) == spec_suppress_channel(
                old(board_data).event.waveform_data.spec_channel(c),
                threshold as int,
                edge,
                bl_samples as int,
            ),
{
    let ghost w0 = old(board_data).event.waveform_data;
    let nc = board_data.event.waveform_data.n_channels;
    let mut c: usize = 0;
    while c < nc
        invariant
            c <= nc,
            nc == w0.n_channels,
            board_data.board_id == old(board_data).board_id,
            board_data.event.timestamp == old(board_data).event.timestamp,
            board_data.event.trigger_id == old(board_data).event.trigger_id,
            board_data.event.event_size == old(board_data).event.event_size,
            board_data.event.flags == old(board_data).event.flags,
            board_data.event.board_fail == old(board_data).event.board_fail,
            w0 == old(board_data).event.waveform_data,
            w0.wf(),
            0 < bl_samples <= w0.n_samples,
            bl_samples <= 0xFFFF_FFFFusize,
            board_data.event.waveform_data.wf(),
            board_data.event.waveform_data.n_channels == w0.n_channels,
            board_data.event.waveform_data.n_samples == w0.n_samples,
            forall|c2: int|
                0 <= c2 < c ==> board_data.event.waveform_data.spec_channel(c2)
                    == spec_suppress_channel(
                    w0.spec_channel(c2),
                    threshold as int,
                    edge,
                    bl_samples as int,
                ),
            forall|c2: int|
                c <= c2 < nc ==> board_data.event.waveform_data.spec_channel(c2)
                    == w0.spec_channel(c2),
        decreases nc - c,
    {
        suppress_channel(&mut board_data.event.waveform_data, c, threshold, edge, bl_samples);
        c = c + 1;
    }
}

/// Relies on rand::random::<u64>(): one word drawn from the thread-local
/// generator; nothing is assumed of its value.
#[verifier::external_body]
fn random_word() -> u64 {
    rand::random::<u64>()
}

/// Whether a drawn word passes the suppression gate for a given level: the
/// event is suppressed exactly when the word exceeds the level.
pub fn zs_gate(r: u64, level: u64) -> (b: bool)
    ensures
        b == (r > level),
{
    r > level
}

/// Draws this event's suppression decision: a uniform word against the
/// configured level, so suppression happens with probability one minus the
/// level's fraction of the word range.
pub fn draw_zs_decision(level: u64) -> bool {
    zs_gate(random_word(), level)
}

} // verus!
