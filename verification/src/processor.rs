//! The event-processing stage: per-board queues fed by the acquisition
//! workers, alignment into synchronized groups, and the misaligned / dropped
//! accounting that the dashboard reports.
//!
//! The embedding loop receives tagged events from the channel, optionally
//! zero-suppresses them, pushes them here and asks for a group; the group
//! goes on to the writer.
use vstd::prelude::*;

verus! {

use std::collections::VecDeque;
use crate::align::align_queues;
use crate::align::all_nonempty;
use crate::align::all_nonempty_exec;
use crate::align::front_tid;
use crate::align::fronts_equal;
use crate::align::lemma_spec_align_done;
use crate::align::lemma_spec_align_shape;
use crate::align::lemma_total_len_update;
use crate::align::max_front;
use crate::align::queues_view;
use crate::align::spec_align;
use crate::align::total_len;
use crate::event::BoardEvent;

/// Trigger identifiers within a queue strictly increase.
pub open spec fn tids_strict(q: Seq<BoardEvent>) -> bool {
    forall|k1: int, k2: int|
        0 <= k1 < k2 < q.len() ==> (#[trigger] q[k1]).event.trigger_id < (
        #[trigger] q[k2]).event.trigger_id
}

/// Every event of a queue is tagged with the given board.
pub open spec fn board_tagged(q: Seq<BoardEvent>, b: int) -> bool {
    forall|k: int| 0 <= k < q.len() ==> (#[trigger] q[k]).board_id == b
}

/// Every trigger identifier in a queue is at most `m`.
pub open spec fn tids_at_most(q: Seq<BoardEvent>, m: u32) -> bool {
    forall|k: int| 0 <= k < q.len() ==> (#[trigger] q[k]).event.trigger_id <= m
}

/// Every trigger identifier in a queue exceeds `t`.
pub open spec fn tids_above(q: Seq<BoardEvent>, t: u32) -> bool {
    forall|k: int| 0 <= k < q.len() ==> (#[trigger] q[k]).event.trigger_id > t
}

/// A strictly increasing sequence of trigger identifiers.
pub open spec fn u32_strict(e: Seq<u32>) -> bool {
    forall|k1: int, k2: int| 0 <= k1 < k2 < e.len() ==> #[trigger] e[k1] < #[trigger] e[k2]
}

/// How many identifiers were skipped between the first and the last emitted
/// group: the size of the gap the emitted identifiers leave in their own
/// interval.
pub open spec fn spec_dropped(e: Seq<u32>) -> int {
    if e.len() == 0 {
        0
    } else {
        e.last() - e.first() + 1 - e.len()
    }
}

/// The event-processing stage's state: one queue per board, the high-water
/// trigger identifier each board has delivered, the alignment counters, and
/// the next expected identifier once a first group is out.
pub struct Processor {
    pub queues: Vec<VecDeque<BoardEvent>>,
    pub last_tid: Vec<u32>,
    pub seen_any: Vec<bool>,
    pub misaligned_count: usize,
    pub dropped_count: u64,
    pub curr_trig_id: u64,
    pub expected_set: bool,
    pub emitted: Ghost<Seq<u32>>,
}

impl Processor {
    /// The state invariant: queues strictly ordered and correctly tagged,
    /// high-water marks consistent, everything queued newer than the last
    /// emitted group, emitted identifiers strictly increasing, and the
    /// dropped counter equal to the skipped-identifier count.
    pub open spec fn wf(self) -> bool {
        let qs = queues_view(self.queues@);
        &&& self.last_tid@.len() == qs.len()
        &&& self.seen_any@.len() == qs.len()
        &&& forall|b: int| 0 <= b < qs.len() ==> tids_strict(#[trigger] qs[b])
        &&& forall|b: int| 0 <= b < qs.len() ==> board_tagged(#[trigger] qs[b], b)
        &&& forall|b: int| 0 <= b < qs.len() ==> tids_at_most(#[trigger] qs[b], self.last_tid@[b])
        &&& forall|b: int| 0 <= b < qs.len() && (#[trigger] qs[b]).len() > 0 ==> self.seen_any@[b]
        &&& u32_strict(self.emitted@)
        &&& self.expected_set <==> self.emitted@.len() > 0
        &&& self.emitted@.len() > 0 ==> self.curr_trig_id == self.emitted@.last() + 1
        &&& self.emitted@.len() > 0 ==> forall|b: int|
            0 <= b < qs.len() ==> tids_above(#[trigger] qs[b], self.emitted@.last())
        &&& self.emitted@.len() > 0 ==> forall|b: int|
            0 <= b < qs.len() ==> #[trigger] self.seen_any@[b]
        &&& self.emitted@.len() > 0 ==> forall|b: int|
            0 <= b < qs.len() ==> self.emitted@.last() <= #[trigger] self.last_tid@[b]
        &&& self.dropped_count == spec_dropped(self.emitted@)
        &&& self.misaligned_count + total_len(qs) <= usize::MAX
    }

    /// An empty processing stage for the given number of boards.
    pub fn new(num_boards: usize) -> (p: Processor)
        ensures
            p.wf(),
            p.queues@.len() == num_boards,
            forall|b: int| 0 <= b < num_boards ==> (#[trigger] queues_view(p.queues@)[b]).len() == 0,
            p.misaligned_count == 0,
            p.dropped_count == 0,
            !p.expected_set,
            p.emitted@ == Seq::<u32>::empty(),
    {
        let mut queues: Vec<VecDeque<BoardEvent>> = Vec::new();
        let mut last_tid: Vec<u32> = Vec::new();
        let mut seen_any: Vec<bool> = Vec::new();
        let mut i: usize = 0;
        while i < num_boards
            invariant
                i <= num_boards,
                queues@.len() == i,
                last_tid@.len() == i,
                seen_any@.len() == i,
                forall|b: int| 0 <= b < i ==> (#[trigger] queues@[b])@.len() == 0,
                forall|b: int| 0 <= b < i ==> !(#[trigger] seen_any@[b]),
            decreases num_boards - i,
        {
            queues.push(VecDeque::new());
            last_tid.push(0);
            seen_any.push(false);
            i = i + 1;
        }
        let p = Processor {
            queues,
            last_tid,
            seen_any,
            misaligned_count: 0,
            dropped_count: 0,
            curr_trig_id: 0,
            expected_set: false,
            emitted: Ghost(Seq::empty()),
        };
        proof {
            let qs = queues_view(p.queues@);
            assert forall|b: int| 0 <= b < qs.len() implies (#[trigger] qs[b]).len() == 0 by {}
            lemma_total_len_empty(qs);
        }
        p
    }

    /// Accepts one event from a board's stream. The stream delivers strictly
    /// increasing trigger identifiers, so the event must be newer than
    /// anything the board has delivered before.
    pub fn push_event(&mut self, ev: BoardEvent)
        requires
            old(self).wf(),
            ev.board_id < old(self).queues@.len(),
            old(self).seen_any@[ev.board_id as int] ==> ev.event.trigger_id > old(
                self,
            ).last_tid@[ev.board_id as int],
            old(self).misaligned_count + total_len(queues_view(old(self).queues@)) < usize::MAX,
        ensures
            final(self).wf(),
            queues_view(final(self).queues@) == queues_view(old(self).queues@).update(
                ev.board_id as int,
                queues_view(old(self).queues@)[ev.board_id as int].push(ev),
            ),
            final(self).last_tid@ == old(self).last_tid@.update(
                ev.board_id as int,
                ev.event.trigger_id,
            ),
            final(self).seen_any@ == old(self).seen_any@.update(ev.board_id as int, true),
            final(self).misaligned_count == old(self).misaligned_count,
            final(self).dropped_count == old(self).dropped_count,
            final(self).curr_trig_id == old(self).curr_trig_id,
            final(self).expected_set == old(self).expected_set,
            final(self).emitted == old(self).emitted,
    {
        let ghost qs0 = queues_view(old(self).queues@);
        let b = ev.board_id;
        let ghost tid = ev.event.trigger_id;
        let dq = &mut self.queues[b];
        dq.push_back(ev);
        self.last_tid[b] = self.queues[b][self.queues[b].len() - 1].event.trigger_id;
        self.seen_any[b] = true;
        proof {
            let qs = queues_view(self.queues@);
            assert(qs =~= qs0.update(b as int, qs0[b as int].push(ev)));
            assert(qs[b as int].last() == ev);
            assert(self.last_tid@ =~= old(self).last_tid@.update(b as int, tid));
            assert(self.seen_any@ =~= old(self).seen_any@.update(b as int, true));
            lemma_total_len_update(qs0, b as int, qs0[b as int].push(ev));
            // the extended queue keeps every per-queue invariant
            let q2 = qs[b as int];
            let q1 = qs0[b as int];
            assert(tids_strict(q2)) by {
                if old(self).seen_any@[b as int] {
                    assert forall|k1: int, k2: int|
                        0 <= k1 < k2 < q2.len() implies (#[trigger] q2[k1]).event.trigger_id < (
                        #[trigger] q2[k2]).event.trigger_id by {
                        if k2 < q2.len() - 1 {
                            assert(q1[k1].event.trigger_id < q1[k2].event.trigger_id);
                        } else {
                            assert(q2[k1].event.trigger_id <= old(self).last_tid@[b as int]);
                        }
                    }
                } else {
                    assert(q1.len() == 0);
                }
            }
            assert(board_tagged(q2, b as int)) by {
                assert forall|k: int| 0 <= k < q2.len() implies (#[trigger] q2[k]).board_id
                    == b as int by {
                    if k < q2.len() - 1 {
                        assert(q1[k].board_id == b as int);
                    }
                }
            }
            assert(tids_at_most(q2, tid)) by {
                assert forall|k: int| 0 <= k < q2.len() implies (#[trigger] q2[k]).event.trigger_id
                    <= tid by {
                    if k < q2.len() - 1 {
                        assert(q1[k].event.trigger_id <= old(self).last_tid@[b as int]);
                    }
                }
            }
            if self.emitted@.len() > 0 {
                assert forall|b2: int|
                    0 <= b2 < queues_view(self.queues@).len() implies #[trigger] self.seen_any@[b2] by {
                    assert(old(self).seen_any@[b2]);
                }
                assert forall|b2: int|
                    0 <= b2 < queues_view(self.queues@).len() implies self.emitted@.last()
                    <= #[trigger] self.last_tid@[b2] by {
                    assert(old(self).emitted@.last() <= old(self).last_tid@[b2]);
                }
                assert(tids_above(q2, self.emitted@.last())) by {
                    assert forall|k: int|
                        0 <= k < q2.len() implies (#[trigger] q2[k]).event.trigger_id
                        > self.emitted@.last() by {
                        if k < q2.len() - 1 {
                            assert(q1[k].event.trigger_id > self.emitted@.last());
                        } else {
                            assert(old(self).seen_any@[b as int]);
                            assert(tid > old(self).last_tid@[b as int]);
                        }
                    }
                }
            }
        }
    }
}

/// A suffix of a queue keeps the per-queue invariants.
proof fn lemma_suffix_facts(q: Seq<BoardEvent>, s: Seq<BoardEvent>, b: int, m: u32, t: u32)
    requires
        s.len() <= q.len(),
        s == q.skip(q.len() - s.len()),
    ensures
        tids_strict(q) ==> tids_strict(s),
        board_tagged(q, b) ==> board_tagged(s, b),
        tids_at_most(q, m) ==> tids_at_most(s, m),
        tids_above(q, t) ==> tids_above(s, t),
{
    let off = q.len() - s.len();
    assert forall|k: int| 0 <= k < s.len() implies #[trigger] s[k] == q[k + off] by {}
    if tids_strict(q) {
        assert forall|k1: int, k2: int|
            0 <= k1 < k2 < s.len() implies (#[trigger] s[k1]).event.trigger_id < (
            #[trigger] s[k2]).event.trigger_id by {
            assert(q[k1 + off].event.trigger_id < q[k2 + off].event.trigger_id);
        }
    }
}

impl Processor {
    /// Emits one aligned group if, after dropping stale fronts, every queue
    /// still has a front: the group holds every queue's front, all carrying
    /// one trigger identifier, and the identifier strictly exceeds every
    /// group emitted before. The gap to the expected identifier is added to
    /// the dropped count; stale drops are added to the misaligned count.
    pub fn try_emit(&mut self) -> (group: Option<Vec<BoardEvent>>)
        requires
            old(self).wf(),
        ensures
            final(self).wf(),
            final(self).queues@.len() == old(self).queues@.len(),
            final(self).last_tid == old(self).last_tid,
            final(self).seen_any == old(self).seen_any,
            final(self).misaligned_count == old(self).misaligned_count + spec_align(
                queues_view(old(self).queues@),
            ).1,
            ({
                let aligned = spec_align(queues_view(old(self).queues@)).0;
                match group {
                    Some(g) => {
                        &&& old(self).queues@.len() > 0
                        &&& all_nonempty(aligned)
                        &&& g@.len() == aligned.len()
                        &&& forall|i: int| 0 <= i < g@.len() ==> #[trigger] g@[i] == aligned[i][0]
                        &&& forall|i: int|
                            0 <= i < g@.len() ==> (#[trigger] g@[i]).event.trigger_id == front_tid(
                                aligned[0],
                            )
                        &&& queues_view(final(self).queues@) == aligned.map_values(
                            |q: Seq<BoardEvent>| q.drop_first(),
                        )
                        &&& final(self).emitted@ == old(self).emitted@.push(front_tid(aligned[0]))
                        &&& (old(self).emitted@.len() > 0 ==> front_tid(aligned[0]) > old(
                            self,
                        ).emitted@.last())
                        &&& final(self).curr_trig_id == front_tid(aligned[0]) as u64 + 1
                        &&& final(self).expected_set
                        &&& final(self).dropped_count as int == old(self).dropped_count as int + (
                        if old(self).expected_set && front_tid(aligned[0]) as u64 != old(
                            self,
                        ).curr_trig_id {
                            front_tid(aligned[0]) as int - old(self).curr_trig_id as int
                        } else {
                            0int
                        })
                    },
                    None => {
                        &&& (old(self).queues@.len() == 0 || !all_nonempty(aligned))
                        &&& queues_view(final(self).queues@) == aligned
                        &&& final(self).emitted == old(self).emitted
                        &&& final(self).dropped_count == old(self).dropped_count
                        &&& final(self).curr_trig_id == old(self).curr_trig_id
                        &&& final(self).expected_set == old(self).expected_set
                    },
                }
            }),
    {
        let ghost qs0 = queues_view(old(self).queues@);
        let ghost tlow: u32 = if old(self).emitted@.len() > 0 {
            old(self).emitted@.last()
        } else {
            0
        };
        align_queues(&mut self.queues, &mut self.misaligned_count);
        let ghost aligned = spec_align(qs0).0;
        proof {
            lemma_spec_align_done(qs0);
            lemma_spec_align_shape(qs0);
            assert(queues_view(self.queues@) == aligned);
            assert forall|b: int|
                0 <= b < aligned.len() implies tids_strict(#[trigger] aligned[b]) && board_tagged(
                aligned[b],
                b,
            ) && tids_at_most(aligned[b], self.last_tid@[b]) && (aligned[b].len() > 0
                ==> self.seen_any@[b]) && (old(self).emitted@.len() > 0 ==> tids_above(
                aligned[b],
                tlow,
            )) by {
                lemma_suffix_facts(qs0[b], aligned[b], b, self.last_tid@[b], tlow);
                if aligned[b].len() > 0 {
                    assert(qs0[b].len() > 0);
                }
            }
        }
        let n = self.queues.len();
        if n == 0 {
            return None;
        }
        if !all_nonempty_exec(&self.queues) {
            return None;
        }
        proof {
            assert(fronts_equal(aligned));
            assert(aligned[0].len() > 0);
        }
        let t = self.queues[0][0].event.trigger_id;
        proof {
            assert(t == front_tid(aligned[0]));
            if old(self).emitted@.len() > 0 {
                assert(aligned[0][0].event.trigger_id > tlow);
            }
        }
        if self.expected_set {
            let tu = t as u64;
            proof {
                assert(self.emitted@.len() > 0);
                assert(self.curr_trig_id == self.emitted@.last() + 1);
                assert(tu >= self.curr_trig_id);
                assert(self.dropped_count as int == spec_dropped(self.emitted@));
                assert(self.emitted@.first() <= self.emitted@.last()) by {
                    if self.emitted@.len() > 1 {
                        assert(self.emitted@[0] < self.emitted@[self.emitted@.len() - 1]);
                    }
                }
            }
            if tu != self.curr_trig_id {
                self.dropped_count = self.dropped_count + (tu - self.curr_trig_id);
            }
        }
        self.curr_trig_id = t as u64 + 1;
        self.expected_set = true;
        let ghost e0 = self.emitted@;
        proof {
            self.emitted@ = self.emitted@.push(t);
        }
        let ghost dropped_now = self.dropped_count;
        let mut g: Vec<BoardEvent> = Vec::new();
        let mut b: usize = 0;
        while b < n
            invariant
                b <= n,
                n == self.queues@.len(),
                n == aligned.len(),
                n > 0,
                all_nonempty(aligned),
                g@.len() == b,
                forall|i: int| 0 <= i < b ==> #[trigger] g@[i] == aligned[i][0],
                forall|i: int|
                    0 <= i < b ==> #[trigger] queues_view(self.queues@)[i] == aligned[i].drop_first(),
                forall|i: int| b <= i < n ==> #[trigger] queues_view(self.queues@)[i] == aligned[i],
                self.misaligned_count + total_len(queues_view(self.queues@)) <= usize::MAX,
                self.last_tid == old(self).last_tid,
                self.seen_any == old(self).seen_any,
                self.misaligned_count == old(self).misaligned_count + spec_align(qs0).1,
                self.dropped_count == dropped_now,
                self.curr_trig_id == t as u64 + 1,
                self.expected_set,
                self.emitted@ == e0.push(t),
            decreases n - b,
        {
            let ghost pre = queues_view(self.queues@);
            let popped = self.queues[b].pop_front();
            proof {
                assert(pre[b as int] == aligned[b as int]);
                assert(popped is Some);
            }
            if let Some(e) = popped {
                g.push(e);
            }
            proof {
                let now = queues_view(self.queues@);
                assert(now =~= pre.update(b as int, pre[b as int].drop_first())) by {
                    assert(self.queues@[b as int]@ =~= pre[b as int].drop_first());
                }
                lemma_total_len_update(pre, b as int, pre[b as int].drop_first());
            }
            b = b + 1;
        }
        proof {
            let qsf = queues_view(self.queues@);
            assert(qsf =~= aligned.map_values(|q: Seq<BoardEvent>| q.drop_first()));
            // re-establish the invariant on the popped queues
            assert forall|b2: int|
                0 <= b2 < qsf.len() implies tids_strict(#[trigger] qsf[b2]) && board_tagged(
                qsf[b2],
                b2,
            ) && tids_at_most(qsf[b2], self.last_tid@[b2]) && tids_above(qsf[b2], t) by {
                assert(qsf[b2] == aligned[b2].drop_first());
                assert(aligned[b2].drop_first() =~= aligned[b2].skip(1));
                lemma_suffix_facts(aligned[b2], qsf[b2], b2, self.last_tid@[b2], tlow);
                assert(front_tid(aligned[b2]) == front_tid(aligned[0]));
                assert forall|k: int|
                    0 <= k < qsf[b2].len() implies (#[trigger] qsf[b2][k]).event.trigger_id
                    > t by {
                    assert(qsf[b2][k] == aligned[b2][k + 1]);
                    assert(aligned[b2][0].event.trigger_id < aligned[b2][k + 1].event.trigger_id);
                }
            }
            // the emitted sequence stays strictly increasing and accounted
            assert(u32_strict(self.emitted@)) by {
                assert forall|k1: int, k2: int|
                    0 <= k1 < k2 < self.emitted@.len() implies #[trigger] self.emitted@[k1]
                    < #[trigger] self.emitted@[k2] by {
                    if k2 < self.emitted@.len() - 1 {
                        assert(e0[k1] < e0[k2]);
                    } else {
                        if e0.len() > 0 {
                            assert(e0[k1] <= e0.last()) by {
                                if k1 < e0.len() - 1 {
                                    assert(e0[k1] < e0[e0.len() - 1]);
                                }
                            }
                        }
                    }
                }
            }
            assert forall|b2: int|
                0 <= b2 < qsf.len() implies #[trigger] self.seen_any@[b2] by {
                assert(aligned[b2].len() > 0);
            }
            assert forall|b2: int|
                0 <= b2 < qsf.len() implies self.emitted@.last() <= #[trigger] self.last_tid@[b2] by {
                assert(tids_at_most(aligned[b2], self.last_tid@[b2]));
                assert(aligned[b2][0].event.trigger_id <= self.last_tid@[b2]);
                assert(front_tid(aligned[b2]) == front_tid(aligned[0]));
            }
            assert(self.dropped_count == spec_dropped(self.emitted@)) by {
                if e0.len() > 0 {
                    assert(self.emitted@.first() == e0.first());
                    assert(self.emitted@.last() == t);
                }
            }
        }
        Some(g)
    }
}

/// The trigger identifiers of emitted groups strictly increase: no group is
/// ever emitted at or below an identifier already emitted.
pub proof fn lemma_emitted_strictly_increasing(p: Processor)
    requires
        p.wf(),
    ensures
        u32_strict(p.emitted@),
        forall|k: int| 0 <= k < p.emitted@.len() - 1 ==> #[trigger] p.emitted@[k] < p.emitted@.last(),
{
    assert forall|k: int|
        0 <= k < p.emitted@.len() - 1 implies #[trigger] p.emitted@[k] < p.emitted@.last() by {
        assert(p.emitted@[k] < p.emitted@[p.emitted@.len() - 1]);
    }
}

/// After any sequence of pushes and emissions, the dropped counter equals
/// the number of identifiers skipped between the first and the last emitted
/// group: the emitted identifiers are distinct and lie in that interval, so
/// the interval's width minus their count is exactly how many never aligned.
pub proof fn lemma_dropped_counts_skipped(p: Processor)
    requires
        p.wf(),
        p.emitted@.len() > 0,
    ensures
        p.dropped_count == p.emitted@.last() - p.emitted@.first() + 1 - p.emitted@.len(),
{
}

/// Removing a subset removes exactly its share of a finite set.
proof fn lemma_len_diff_subset<A>(i: Set<A>, e: Set<A>)
    requires
        i.finite(),
        e.finite(),
        e.subset_of(i),
    ensures
        i.difference(e).finite(),
        i.difference(e).len() == i.len() - e.len(),
    decreases e.len(),
{
    broadcast use vstd::set::group_set_axioms;

    if e.len() == 0 {
        if !e.is_empty() {
            assert(e.contains(e.choose()));
        }
        assert(i.difference(e) =~= i);
    } else {
        if e.is_empty() {
            assert(e =~= Set::empty());
        }
        let a = e.choose();
        assert(e.contains(a));
        assert(i.difference(e) =~= i.remove(a).difference(e.remove(a)));
        lemma_len_diff_subset(i.remove(a), e.remove(a));
    }
}

/// The dropped counter equals the cardinality of the set of identifiers
/// skipped strictly inside the emitted range: those between the first and
/// the last emitted group for which no group was ever emitted.
pub proof fn lemma_dropped_is_skipped_cardinality(p: Processor)
    requires
        p.wf(),
        p.emitted@.len() > 0,
    ensures
        ({
            let ids = p.emitted@.map_values(|x: u32| x as int);
            let interval = Set::new(
                |t: int| p.emitted@.first() <= t <= p.emitted@.last(),
            );
            let skipped = interval.difference(ids.to_set());
            &&& skipped.finite()
            &&& p.dropped_count == skipped.len()
        }),
{
    broadcast use vstd::set::group_set_axioms;

    let e = p.emitted@;
    let ids = e.map_values(|x: u32| x as int);
    let first = e.first() as int;
    let last = e.last() as int;
    let interval = Set::new(|t: int| first <= t <= last);
    vstd::set_lib::lemma_int_range(first, last + 1);
    assert(interval =~= vstd::set_lib::set_int_range(first, last + 1));
    assert(interval.finite());
    assert(interval.len() == last - first + 1);

    // the emitted identifiers are distinct, so their set is as large as
    // their sequence
    assert(ids.no_duplicates()) by {
        assert forall|k1: int, k2: int|
            0 <= k1 < k2 < ids.len() implies ids[k1] != ids[k2] by {
            assert(e[k1] < e[k2]);
        }
    }
    ids.unique_seq_to_set();

    // and they all lie inside their own interval
    assert(ids.to_set().subset_of(interval)) by {
        assert forall|t: int| ids.to_set().contains(t) implies interval.contains(t) by {
            let k = choose|k: int| 0 <= k < ids.len() && ids[k] == t;
            assert(e[0] <= e[k] <= e[e.len() - 1]) by {
                if 0 < k {
                    assert(e[0] < e[k]);
                }
                if k < e.len() - 1 {
                    assert(e[k] < e[e.len() - 1]);
                }
            }
        }
    }

    lemma_len_diff_subset(interval, ids.to_set());
}

/// The misaligned counter pays one for one: alignment removes exactly as
/// many events from the queues as it adds to the counter.
pub proof fn lemma_misaligned_counts_removed(qs: Seq<Seq<BoardEvent>>)
    ensures
        spec_align(qs).1 == total_len(qs) - total_len(spec_align(qs).0),
{
    lemma_spec_align_shape(qs);
}

/// Some event in the queue carries this trigger identifier.
pub open spec fn has_tid(q: Seq<BoardEvent>, t: u32) -> bool {
    exists|k: int| 0 <= k < q.len() && (#[trigger] q[k]).event.trigger_id == t
}

/// Every queue holds an event with this trigger identifier.
pub open spec fn common_tid(qs: Seq<Seq<BoardEvent>>, t: u32) -> bool {
    forall|b: int| 0 <= b < qs.len() ==> has_tid(#[trigger] qs[b], t)
}

/// A queue with everything older than `t` removed from the front.
pub open spec fn drop_below(q: Seq<BoardEvent>, t: u32) -> Seq<BoardEvent>
    decreases q.len(),
{
    if q.len() > 0 && q[0].event.trigger_id < t {
        drop_below(q.drop_first(), t)
    } else {
        q
    }
}

/// In an ordered queue that holds `t`, the front is at most `t`.
proof fn lemma_front_at_most(q: Seq<BoardEvent>, t: u32)
    requires
        tids_strict(q),
        has_tid(q, t),
    ensures
        q.len() > 0,
        front_tid(q) <= t,
{
    let k = choose|k: int| 0 <= k < q.len() && (#[trigger] q[k]).event.trigger_id == t;
    if k > 0 {
        assert(q[0].event.trigger_id < q[k].event.trigger_id);
    }
}

/// Alignment drops exactly what can never align: when `t` is the least
/// trigger identifier common to all queues, the aligner removes precisely
/// the events older than `t` and leaves every queue fronting `t` — no event
/// at or past a common identifier is ever lost.
pub proof fn lemma_align_reaches_common(qs: Seq<Seq<BoardEvent>>, t: u32)
    requires
        qs.len() > 0,
        forall|b: int| 0 <= b < qs.len() ==> tids_strict(#[trigger] qs[b]),
        common_tid(qs, t),
        forall|t2: u32| t2 < t ==> !common_tid(qs, t2),
    ensures
        spec_align(qs).0.len() == qs.len(),
        all_nonempty(spec_align(qs).0),
        forall|b: int| 0 <= b < qs.len() ==> #[trigger] spec_align(qs).0[b] == drop_below(qs[b], t),
        forall|b: int| 0 <= b < qs.len() ==> front_tid(#[trigger] spec_align(qs).0[b]) == t,
    decreases total_len(qs),
{
    assert(all_nonempty(qs)) by {
        assert forall|b: int| 0 <= b < qs.len() implies (#[trigger] qs[b]).len() > 0 by {
            assert(has_tid(qs[b], t));
            lemma_front_at_most(qs[b], t);
        }
    }
    assert forall|b: int| 0 <= b < qs.len() implies front_tid(#[trigger] qs[b]) <= t by {
        assert(has_tid(qs[b], t));
        lemma_front_at_most(qs[b], t);
    }
    if fronts_equal(qs) {
        let f = front_tid(qs[0]);
        assert(common_tid(qs, f)) by {
            assert forall|b: int| 0 <= b < qs.len() implies has_tid(#[trigger] qs[b], f) by {
                assert(qs[b][0].event.trigger_id == f);
            }
        }
        assert(f == t);
        assert forall|b: int| 0 <= b < qs.len() implies #[trigger] spec_align(qs).0[b]
            == drop_below(qs[b], t) by {
            assert(front_tid(qs[b]) == t);
        }
    } else {
        let m = max_front(qs);
        crate::align::lemma_exists_stale(qs);
        crate::align::lemma_find_stale_props(qs, m, 0);
        let i = crate::align::find_stale(qs, m, 0);
        let qs2 = qs.update(i, qs[i].drop_first());
        // the dropped front is older than the maximum front, which in turn
        // cannot pass any queue's copy of `t`
        crate::align::lemma_max_front_witness(qs);
        let j = choose|j: int|
            0 <= j < qs.len() && front_tid(#[trigger] qs[j]) == max_front(qs);
        assert(front_tid(qs[i]) < m);
        assert(m <= t);
        // `t` is still everywhere, still least, and order is kept
        assert forall|b: int| 0 <= b < qs2.len() implies tids_strict(#[trigger] qs2[b]) by {
            if b == i {
                assert forall|k1: int, k2: int|
                    0 <= k1 < k2 < qs2[b].len() implies (
                #[trigger] qs2[b][k1]).event.trigger_id < (
                #[trigger] qs2[b][k2]).event.trigger_id by {
                    assert(qs2[b][k1] == qs[b][k1 + 1]);
                    assert(qs2[b][k2] == qs[b][k2 + 1]);
                }
            }
        }
        assert(common_tid(qs2, t)) by {
            assert forall|b: int| 0 <= b < qs2.len() implies has_tid(#[trigger] qs2[b], t) by {
                if b == i {
                    let k = choose|k: int|
                        0 <= k < qs[b].len() && (#[trigger] qs[b][k]).event.trigger_id == t;
                    assert(k > 0);
                    assert(qs2[b][k - 1] == qs[b][k]);
                } else {
                    assert(qs2[b] == qs[b]);
                }
            }
        }
        assert forall|t2: u32| t2 < t implies !common_tid(qs2, t2) by {
            if common_tid(qs2, t2) {
                assert(common_tid(qs, t2)) by {
                    assert forall|b: int| 0 <= b < qs.len() implies has_tid(
                        #[trigger] qs[b],
                        t2,
                    ) by {
                        assert(has_tid(qs2[b], t2));
                        let k = choose|k: int|
                            0 <= k < qs2[b].len() && (#[trigger] qs2[b][k]).event.trigger_id == t2;
                        if b == i {
                            assert(qs2[b][k] == qs[b][k + 1]);
                        } else {
                            assert(qs2[b] == qs[b]);
                        }
                    }
                }
            }
        }
        crate::align::lemma_total_len_update(qs, i, qs[i].drop_first());
        lemma_align_reaches_common(qs2, t);
        assert forall|b: int| 0 <= b < qs.len() implies #[trigger] spec_align(qs).0[b]
            == drop_below(qs[b], t) by {
            assert(spec_align(qs).0 == spec_align(qs2).0);
            if b == i {
                assert(drop_below(qs[b], t) == drop_below(qs[b].drop_first(), t));
            } else {
                assert(qs2[b] == qs[b]);
            }
        }
    }
}

/// The snapshot the processing stage reports to the dashboard after each
/// aligned group.
pub struct RunInfo {
    pub event_sizes: Vec<usize>,
    pub event_channel_buf: usize,
    pub misaligned_events: usize,
    pub dropped_events: u64,
}

/// The sum of a sequence of sizes.
pub open spec fn spec_usize_sum(s: Seq<usize>) -> int
    decreases s.len(),
{
    if s.len() == 0 {
        0
    } else {
        spec_usize_sum(s.drop_last()) + s.last()
    }
}

/// A sum of sizes is never negative.
pub proof fn lemma_usize_sum_nonneg(s: Seq<usize>)
    ensures
        spec_usize_sum(s) >= 0,
    decreases s.len(),
{
    if s.len() > 0 {
        lemma_usize_sum_nonneg(s.drop_last());
    }
}

impl RunInfo {
    /// The aggregate byte size of the group this snapshot describes.
    pub fn event_size(&self) -> (r: usize)
        requires
            spec_usize_sum(self.event_sizes@) <= usize::MAX,
        ensures
            r == spec_usize_sum(self.event_sizes@),
    {
        let mut r: usize = 0;
        let mut i: usize = 0;
        proof {
            assert(self.event_sizes@.take(0) =~= Seq::<usize>::empty());
        }
        while i < self.event_sizes.len()
            invariant
                i <= self.event_sizes@.len(),
                r == spec_usize_sum(self.event_sizes@.take(i as int)),
                spec_usize_sum(self.event_sizes@) <= usize::MAX,
            decreases self.event_sizes@.len() - i,
        {
            proof {
                let pre = self.event_sizes@.take(i as int);
                let ext = self.event_sizes@.take(i + 1);
                assert(ext.drop_last() =~= pre);
                assert(ext.last() == self.event_sizes@[i as int]);
                lemma_usize_sum_nonneg(pre);
                lemma_sum_take_le(self.event_sizes@, i + 1);
            }
            r = r + self.event_sizes[i];
            i = i + 1;
        }
        proof {
            assert(self.event_sizes@.take(self.event_sizes@.len() as int) =~= self.event_sizes@);
        }
        r
    }
}

/// A prefix sum never exceeds the whole sum.
pub proof fn lemma_sum_take_le(s: Seq<usize>, n: int)
    requires
        0 <= n <= s.len(),
    ensures
        spec_usize_sum(s.take(n)) <= spec_usize_sum(s),
    decreases s.len() - n,
{
    if n < s.len() {
        lemma_sum_take_le(s, n + 1);
        let a = s.take(n);
        let b = s.take(n + 1);
        assert(b.drop_last() =~= a);
        assert(b.last() == s[n]);
    } else {
        assert(s.take(n) =~= s);
    }
}

/// An empty list of queues holds no events.
pub proof fn lemma_total_len_empty(qs: Seq<Seq<BoardEvent>>)
    requires
        forall|b: int| 0 <= b < qs.len() ==> (#[trigger] qs[b]).len() == 0,
    ensures
        total_len(qs) == 0,
    decreases qs.len(),
{
    if qs.len() > 0 {
        lemma_total_len_empty(qs.drop_first());
    }
}

} // verus!
