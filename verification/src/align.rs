//! Alignment of per-board event streams by trigger identifier.
//!
//! Each board feeds an ordered queue whose trigger identifiers strictly
//! increase. A group can be emitted only when every queue's front carries the
//! same identifier; until then, any front that lags behind the largest front
//! is stale — no later event of another board can ever match it — and is
//! dropped. `spec_align` states that process exactly, one stale front at a
//! time, and `align_queues` is proved to compute it.
use vstd::prelude::*;

verus! {

use std::collections::VecDeque;
use crate::event::BoardEvent;

/// The trigger identifier at the front of a queue.
pub open spec fn front_tid(q: Seq<BoardEvent>) -> u32
    recommends
        q.len() > 0,
{
    q[0].event.trigger_id
}

/// Every queue has a front element.
pub open spec fn all_nonempty(qs: Seq<Seq<BoardEvent>>) -> bool {
    forall|i: int| 0 <= i < qs.len() ==> #[trigger] qs[i].len() > 0
}

/// All fronts carry the same trigger identifier.
pub open spec fn fronts_equal(qs: Seq<Seq<BoardEvent>>) -> bool {
    forall|i: int, j: int|
        0 <= i < qs.len() && 0 <= j < qs.len() ==> front_tid(#[trigger] qs[i]) == front_tid(
            #[trigger] qs[j],
        )
}

/// The largest trigger identifier among the fronts.
pub open spec fn max_front(qs: Seq<Seq<BoardEvent>>) -> u32
    recommends
        qs.len() > 0,
        all_nonempty(qs),
    decreases qs.len(),
{
    if qs.len() <= 1 {
        front_tid(qs[0])
    } else {
        let m = max_front(qs.drop_last());
        if front_tid(qs.last()) > m {
            front_tid(qs.last())
        } else {
            m
        }
    }
}

/// The first queue at or after `i` whose front lags behind `m`, or the number
/// of queues when none does.
pub open spec fn find_stale(qs: Seq<Seq<BoardEvent>>, m: u32, i: int) -> int
    decreases qs.len() - i,
{
    if i < 0 || i >= qs.len() {
        qs.len() as int
    } else if front_tid(qs[i]) < m {
        i
    } else {
        find_stale(qs, m, i + 1)
    }
}

/// The number of events held across all queues.
pub open spec fn total_len(qs: Seq<Seq<BoardEvent>>) -> nat
    decreases qs.len(),
{
    if qs.len() == 0 {
        0
    } else {
        qs[0].len() + total_len(qs.drop_first())
    }
}

/// No front exceeds the maximum front.
pub proof fn lemma_max_front_ge(qs: Seq<Seq<BoardEvent>>, i: int)
    requires
        0 <= i < qs.len(),
        all_nonempty(qs),
    ensures
        front_tid(qs[i]) <= max_front(qs),
    decreases qs.len(),
{
    if qs.len() > 1 {
        if i < qs.len() - 1 {
            assert(all_nonempty(qs.drop_last())) by {
                assert(forall|j: int|
                    0 <= j < qs.drop_last().len() ==> #[trigger] qs.drop_last()[j].len() > 0);
            }
            lemma_max_front_ge(qs.drop_last(), i);
        }
    }
}

/// Some front attains the maximum front.
pub proof fn lemma_max_front_witness(qs: Seq<Seq<BoardEvent>>)
    requires
        qs.len() > 0,
        all_nonempty(qs),
    ensures
        exists|i: int| 0 <= i < qs.len() && front_tid(#[trigger] qs[i]) == max_front(qs),
    decreases qs.len(),
{
    if qs.len() == 1 {
        assert(front_tid(qs[0]) == max_front(qs));
    } else {
        let m = max_front(qs.drop_last());
        if front_tid(qs.last()) > m {
            assert(front_tid(qs[qs.len() - 1]) == max_front(qs));
        } else {
            assert(all_nonempty(qs.drop_last())) by {
                assert(forall|j: int|
                    0 <= j < qs.drop_last().len() ==> #[trigger] qs.drop_last()[j].len() > 0);
            }
            lemma_max_front_witness(qs.drop_last());
            let i = choose|i: int|
                0 <= i < qs.drop_last().len() && front_tid(#[trigger] qs.drop_last()[i]) == m;
            assert(front_tid(qs[i]) == max_front(qs));
        }
    }
}

/// What `find_stale` returns: the least lagging front at or after `from`,
/// with everything before it up to date.
pub proof fn lemma_find_stale_props(qs: Seq<Seq<BoardEvent>>, m: u32, from: int)
    requires
        0 <= from <= qs.len(),
    ensures
        from <= find_stale(qs, m, from) <= qs.len(),
        find_stale(qs, m, from) < qs.len() ==> front_tid(qs[find_stale(qs, m, from)]) < m,
        forall|j: int| from <= j < find_stale(qs, m, from) ==> front_tid(#[trigger] qs[j]) >= m,
    decreases qs.len() - from,
{
    if from < qs.len() && !(front_tid(qs[from]) < m) {
        lemma_find_stale_props(qs, m, from + 1);
    }
}

/// Dropping one front from one queue shrinks the total count by one.
pub proof fn lemma_total_len_update(qs: Seq<Seq<BoardEvent>>, i: int, q2: Seq<BoardEvent>)
    requires
        0 <= i < qs.len(),
    ensures
        total_len(qs.update(i, q2)) == total_len(qs) - qs[i].len() + q2.len(),
    decreases qs.len(),
{
    let qs2 = qs.update(i, q2);
    if i == 0 {
        assert(qs2.drop_first() =~= qs.drop_first());
    } else {
        assert(qs2.drop_first() =~= qs.drop_first().update(i - 1, q2));
        lemma_total_len_update(qs.drop_first(), i - 1, q2);
    }
}

/// Each queue's share is within the total count.
pub proof fn lemma_total_len_ge_elem(qs: Seq<Seq<BoardEvent>>, i: int)
    requires
        0 <= i < qs.len(),
    ensures
        qs[i].len() <= total_len(qs),
    decreases qs.len(),
{
    if i > 0 {
        lemma_total_len_ge_elem(qs.drop_first(), i - 1);
    } else {
        lemma_total_len_nonneg(qs.drop_first());
    }
}

/// The total count is never negative (it is a sum of lengths).
pub proof fn lemma_total_len_nonneg(qs: Seq<Seq<BoardEvent>>)
    ensures
        total_len(qs) >= 0,
{
}

/// Whether the alignment process is finished on this state: nothing can be
/// dropped any more, either because a queue has run dry or because every
/// front agrees.
pub open spec fn align_done(qs: Seq<Seq<BoardEvent>>) -> bool {
    qs.len() == 0 || !all_nonempty(qs) || fronts_equal(qs)
}

/// When fronts disagree, some front lags behind the maximum.
pub proof fn lemma_exists_stale(qs: Seq<Seq<BoardEvent>>)
    requires
        qs.len() > 0,
        all_nonempty(qs),
        !fronts_equal(qs),
    ensures
        find_stale(qs, max_front(qs), 0) < qs.len(),
{
    let m = max_front(qs);
    let (i, j) = choose|i: int, j: int|
        0 <= i < qs.len() && 0 <= j < qs.len() && front_tid(#[trigger] qs[i]) != front_tid(
            #[trigger] qs[j],
        );
    lemma_max_front_ge(qs, i);
    lemma_max_front_ge(qs, j);
    let lo = if front_tid(qs[i]) < front_tid(qs[j]) {
        i
    } else {
        j
    };
    assert(front_tid(qs[lo]) < m);
    lemma_find_stale_props(qs, m, 0);
    if find_stale(qs, m, 0) == qs.len() {
        assert(front_tid(qs[lo]) >= m);
    }
}

/// The alignment process: while every queue is non-empty and the fronts
/// disagree, drop the first front that lags behind the largest front.
/// Yields the remaining queues and the number of events dropped.
pub open spec fn spec_align(qs: Seq<Seq<BoardEvent>>) -> (Seq<Seq<BoardEvent>>, nat)
    decreases total_len(qs),
    via spec_align_decreases
{
    if !align_done(qs) {
        let m = max_front(qs);
        let i = find_stale(qs, m, 0);
        let r = spec_align(qs.update(i, qs[i].drop_first()));
        (r.0, (r.1 + 1) as nat)
    } else {
        (qs, 0)
    }
}

#[via_fn]
proof fn spec_align_decreases(qs: Seq<Seq<BoardEvent>>) {
    if !align_done(qs) {
        let m = max_front(qs);
        lemma_exists_stale(qs);
        lemma_find_stale_props(qs, m, 0);
        let i = find_stale(qs, m, 0);
        lemma_total_len_update(qs, i, qs[i].drop_first());
    }
}

/// What alignment leaves is always a finished state.
pub proof fn lemma_spec_align_done(qs: Seq<Seq<BoardEvent>>)
    ensures
        align_done(spec_align(qs).0),
    decreases total_len(qs),
{
    if !align_done(qs) {
        let m = max_front(qs);
        lemma_exists_stale(qs);
        lemma_find_stale_props(qs, m, 0);
        let i = find_stale(qs, m, 0);
        lemma_total_len_update(qs, i, qs[i].drop_first());
        lemma_spec_align_done(qs.update(i, qs[i].drop_first()));
    }
}

/// Alignment never changes the number of queues, keeps each queue a suffix
/// of what it was, and drops exactly as many events as it counts.
pub proof fn lemma_spec_align_shape(qs: Seq<Seq<BoardEvent>>)
    ensures
        spec_align(qs).0.len() == qs.len(),
        total_len(spec_align(qs).0) + spec_align(qs).1 == total_len(qs),
        forall|i: int|
            0 <= i < qs.len() ==> (#[trigger] spec_align(qs).0[i]).len() <= qs[i].len()
                && spec_align(qs).0[i] == qs[i].skip(qs[i].len() - spec_align(qs).0[i].len()),
    decreases total_len(qs),
{
    if !align_done(qs) {
        let m = max_front(qs);
        lemma_exists_stale(qs);
        lemma_find_stale_props(qs, m, 0);
        let i = find_stale(qs, m, 0);
        let qs2 = qs.update(i, qs[i].drop_first());
        lemma_total_len_update(qs, i, qs[i].drop_first());
        lemma_spec_align_shape(qs2);
        assert forall|j: int|
            0 <= j < qs.len() implies (#[trigger] spec_align(qs).0[j]).len() <= qs[j].len()
                && spec_align(qs).0[j] == qs[j].skip(qs[j].len() - spec_align(qs).0[j].len()) by {
            let r = spec_align(qs).0;
            if j == i {
                assert(qs2[j] == qs[j].drop_first());
                assert(qs[j].drop_first() =~= qs[j].skip(1));
                assert(r[j] == qs2[j].skip(qs2[j].len() - r[j].len()));
                assert(qs[j].skip(1).skip(qs2[j].len() - r[j].len()) =~= qs[j].skip(
                    qs[j].len() - r[j].len(),
                ));
            } else {
                assert(qs2[j] == qs[j]);
            }
        }
    } else {
        assert forall|i: int|
            0 <= i < qs.len() implies (#[trigger] spec_align(qs).0[i]).len() <= qs[i].len()
                && spec_align(qs).0[i] == qs[i].skip(qs[i].len() - spec_align(qs).0[i].len()) by {
            assert(qs[i].skip(0) =~= qs[i]);
        }
    }
}

/// The event sequences held by a list of queues.
pub open spec fn queues_view(qs: Seq<VecDeque<BoardEvent>>) -> Seq<Seq<BoardEvent>> {
    qs.map_values(|q: VecDeque<BoardEvent>| q@)
}

pub(crate) fn all_nonempty_exec(queues: &Vec<VecDeque<BoardEvent>>) -> (b: bool)
    ensures
        b == all_nonempty(queues_view(queues@)),
{
    let n = queues.len();
    let mut i: usize = 0;
    while i < n
        invariant
            i <= n,
            n == queues@.len(),
            forall|j: int| 0 <= j < i ==> (#[trigger] queues_view(queues@)[j]).len() > 0,
        decreases n - i,
    {
        if queues[i].len() == 0 {
            proof {
                assert(queues_view(queues@)[i as int].len() == 0);
            }
            return false;
        }
        i = i + 1;
    }
    true
}

fn max_front_exec(queues: &Vec<VecDeque<BoardEvent>>) -> (m: u32)
    requires
        queues@.len() > 0,
        all_nonempty(queues_view(queues@)),
    ensures
        m == max_front(queues_view(queues@)),
{
    let ghost qs = queues_view(queues@);
    let n = queues.len();
    proof {
        assert(qs[0].len() > 0);
    }
    let mut m = queues[0][0].event.trigger_id;
    let mut i: usize = 1;
    proof {
        assert(qs.take(1) =~= seq![qs[0]]);
        assert(max_front(qs.take(1)) == front_tid(qs[0]));
    }
    while i < n
        invariant
            1 <= i <= n,
            n == qs.len(),
            qs == queues_view(queues@),
            all_nonempty(qs),
            m == max_front(qs.take(i as int)),
        decreases n - i,
    {
        proof {
            assert(qs[i as int].len() > 0);
        }
        let f = queues[i][0].event.trigger_id;
        proof {
            let pre = qs.take(i as int);
            let ext = qs.take(i + 1);
            assert(ext.drop_last() =~= pre);
            assert(ext.last() == qs[i as int]);
            assert(ext.len() > 1);
        }
        if f > m {
            m = f;
        }
        i = i + 1;
    }
    proof {
        assert(qs.take(n as int) =~= qs);
    }
    m
}

fn find_stale_exec(queues: &Vec<VecDeque<BoardEvent>>, m: u32) -> (r: usize)
    requires
        all_nonempty(queues_view(queues@)),
    ensures
        r as int == find_stale(queues_view(queues@), m, 0),
        r <= queues@.len(),
{
    let ghost qs = queues_view(queues@);
    let n = queues.len();
    let mut i: usize = 0;
    while i < n
        invariant
            i <= n,
            n == qs.len(),
            qs == queues_view(queues@),
            all_nonempty(qs),
            find_stale(qs, m, 0) == find_stale(qs, m, i as int),
        decreases n - i,
    {
        proof {
            assert(qs[i as int].len() > 0);
        }
        let f = queues[i][0].event.trigger_id;
        if f < m {
            return i;
        }
        i = i + 1;
    }
    n
}

/// Repeatedly drops stale events from the queues until every non-empty queue
/// front shares the same trigger identifier or some queue becomes empty,
/// counting each drop in `misaligned_count`. Computes exactly `spec_align`.
pub fn align_queues(queues: &mut Vec<VecDeque<BoardEvent>>, misaligned_count: &mut usize)
    requires
        *old(misaligned_count) + total_len(queues_view(old(queues)@)) <= usize::MAX,
    ensures
        final(queues)@.len() == old(queues)@.len(),
        queues_view(final(queues)@) == spec_align(queues_view(old(queues)@)).0,
        *final(misaligned_count) == *old(misaligned_count) + spec_align(queues_view(old(queues)@)).1,
{
    let ghost qs0 = queues_view(old(queues)@);
    loop
        invariant
            queues@.len() == old(queues)@.len(),
            qs0 == queues_view(old(queues)@),
            spec_align(qs0).0 == spec_align(queues_view(queues@)).0,
            spec_align(qs0).1 == spec_align(queues_view(queues@)).1 + *misaligned_count - *old(
                misaligned_count,
            ),
            *old(misaligned_count) <= *misaligned_count,
            *misaligned_count + total_len(queues_view(queues@)) <= usize::MAX,
        ensures
            align_done(queues_view(queues@)),
        decreases total_len(queues_view(queues@)),
    {
        let ghost cur = queues_view(queues@);
        let n = queues.len();
        if n == 0 {
            break;
        }
        if !all_nonempty_exec(queues) {
            break;
        }
        let m = max_front_exec(queues);
        let idx = find_stale_exec(queues, m);
        proof {
            lemma_find_stale_props(cur, m, 0);
            if idx == n {
                lemma_max_front_witness(cur);
                assert forall|i: int, j: int|
                    0 <= i < cur.len() && 0 <= j < cur.len() implies front_tid(#[trigger] cur[i])
                    == front_tid(#[trigger] cur[j]) by {
                    lemma_max_front_ge(cur, i);
                    lemma_max_front_ge(cur, j);
                }
            }
        }
        if idx == n {
            break;
        }
        proof {
            assert(!fronts_equal(cur)) by {
                lemma_max_front_witness(cur);
                let w = choose|i: int|
                    0 <= i < cur.len() && front_tid(#[trigger] cur[i]) == max_front(cur);
                assert(front_tid(cur[idx as int]) < front_tid(cur[w]));
            }
            assert(cur[idx as int].len() > 0);
            lemma_total_len_ge_elem(cur, idx as int);
        }
        let dq = &mut queues[idx];
        dq.pop_front();
        *misaligned_count = *misaligned_count + 1;
        proof {
            let now = queues_view(queues@);
            assert(now =~= cur.update(idx as int, cur[idx as int].drop_first())) by {
                assert(queues@[idx as int]@ =~= cur[idx as int].drop_first());
            }
            lemma_total_len_update(cur, idx as int, cur[idx as int].drop_first());
            assert(spec_align(cur).0 == spec_align(now).0);
            assert(spec_align(cur).1 == spec_align(now).1 + 1);
        }
    }
    proof {
        let cur = queues_view(queues@);
        assert(spec_align(cur).0 == cur);
        assert(spec_align(cur).1 == 0);
    }
}

} // verus!
