use vstd::prelude::*;

use crate::request::Sequence;

verus! {

/// The most sequences one tick may batch together.
pub const MAX_BATCH: usize = 16;

/// Every queued sequence is well-formed, unfinished, and carries one KV
/// slot per model layer.
pub open spec fn queue_wf(q: Seq<Sequence>, layers: nat, max_ctx: nat) -> bool {
    forall|i: int|
        0 <= i < q.len() ==> {
            &&& (#[trigger] q[i]).wf()
            &&& !q[i].finished()
            &&& q[i].kv@.len() == layers
            &&& q[i].max_ctx == max_ctx
        }
}

/// The subsequence of sequences that have not terminated, in order.
pub open spec fn live_only(q: Seq<Sequence>) -> Seq<Sequence>
    decreases q.len(),
{
    if q.len() == 0 {
        Seq::empty()
    } else if !q.first().finished() {
        seq![q.first()] + live_only(q.drop_first())
    } else {
        live_only(q.drop_first())
    }
}

/// A batch's live subsequence inherits its well-formedness.
pub proof fn lemma_live_only_wf(q: Seq<Sequence>, layers: nat, max_ctx: nat)
    requires
        forall|i: int|
            0 <= i < q.len() ==> (#[trigger] q[i]).wf() && q[i].kv@.len() == layers
                && q[i].max_ctx == max_ctx,
    ensures
        queue_wf(live_only(q), layers, max_ctx),
    decreases q.len(),
{
    if q.len() > 0 {
        assert(forall|i: int| 0 <= i < q.drop_first().len() ==> #[trigger] q.drop_first()[i] == q[
            i + 1
        ]);
        lemma_live_only_wf(q.drop_first(), layers, max_ctx);
        let rest = live_only(q.drop_first());
        if !q.first().finished() {
            assert(live_only(q) == seq![q.first()] + rest);
            assert(forall|i: int|
                0 <= i < live_only(q).len() ==> #[trigger] live_only(q)[i] == (if i == 0 {
                    q.first()
                } else {
                    rest[i - 1]
                }));
        }
    }
}

/// Well-formedness of two queue segments carries to their concatenation.
pub proof fn lemma_queue_wf_concat(a: Seq<Sequence>, b: Seq<Sequence>, layers: nat, max_ctx: nat)
    requires
        queue_wf(a, layers, max_ctx),
        queue_wf(b, layers, max_ctx),
    ensures
        queue_wf(a + b, layers, max_ctx),
{
    assert forall|i: int| 0 <= i < (a + b).len() implies {
        &&& ((a + b)[i]).wf()
        &&& !(a + b)[i].finished()
        &&& (a + b)[i].kv@.len() == layers
        &&& (a + b)[i].max_ctx == max_ctx
    } by {
        if i < a.len() {
            assert((a + b)[i] == a[i]);
        } else {
            assert((a + b)[i] == b[i - a.len()]);
        }
    }
}

/// Well-formedness of a queue carries to any of its tails.
pub proof fn lemma_queue_wf_skip(q: Seq<Sequence>, n: int, layers: nat, max_ctx: nat)
    requires
        queue_wf(q, layers, max_ctx),
        0 <= n <= q.len(),
    ensures
        queue_wf(q.skip(n), layers, max_ctx),
{
    assert forall|i: int| 0 <= i < q.skip(n).len() implies {
        &&& (q.skip(n)[i]).wf()
        &&& !q.skip(n)[i].finished()
        &&& q.skip(n)[i].kv@.len() == layers
        &&& q.skip(n)[i].max_ctx == max_ctx
    } by {
        assert(q.skip(n)[i] == q[i + n]);
    }
}

/// First-come-first-served over admission order: the queue holds every
/// live sequence, oldest first; each tick takes the first `MAX_BATCH` of
/// them and puts the survivors back in front.
pub struct Scheduler {
    pub queue: Vec<Sequence>,
}

impl Scheduler {
    pub fn new() -> (s: Scheduler)
        ensures
            s.queue@.len() == 0,
    {
        Scheduler { queue: Vec::new() }
    }

    /// Admit a sequence at the back of the queue.
    pub fn add_seq(&mut self, s: Sequence)
        ensures
            final(self).queue@ == old(self).queue@.push(s),
    {
        self.queue.push(s);
    }

    /// Whether any sequence is eligible for the next tick.
    pub fn has_eligible(&self) -> (r: bool)
        ensures
            r == (self.queue@.len() > 0),
    {
        self.queue.len() > 0
    }

    /// Take the next batch: the oldest eligible sequences, at most
    /// `MAX_BATCH` of them, removed from the queue in order.
    pub fn schedule(&mut self) -> (batch: Vec<Sequence>)
        ensures
            batch@.len() == vstd::math::min(MAX_BATCH as int, old(self).queue@.len() as int),
            batch@ == old(self).queue@.take(batch@.len() as int),
            final(self).queue@ == old(self).queue@.skip(batch@.len() as int),
    {
        let n = if self.queue.len() < MAX_BATCH {
            self.queue.len()
        } else {
            MAX_BATCH
        };
        let mut batch: Vec<Sequence> = Vec::new();
        let mut i: usize = 0;
        while i < n
            invariant
                i <= n,
                n <= old(self).queue@.len(),
                n == vstd::math::min(MAX_BATCH as int, old(self).queue@.len() as int),
                batch@.len() == i,
                batch@ == old(self).queue@.take(i as int),
                self.queue@ == old(self).queue@.skip(i as int),
            decreases n - i,
        {
            let s = self.queue.remove(0);
            batch.push(s);
            i += 1;
            proof {
                assert(batch@ =~= old(self).queue@.take(i as int));
                assert(self.queue@ =~= old(self).queue@.skip(i as int));
            }
        }
        batch
    }

    /// Put a processed batch back at the front of the queue, dropping the
    /// sequences that terminated this tick and keeping the rest ahead of
    /// everything admitted later.
    pub fn requeue(&mut self, batch: Vec<Sequence>)
        ensures
            final(self).queue@ == live_only(batch@) + old(self).queue@,
    {
        let mut kept: Vec<Sequence> = Vec::new();
        let mut rest = batch;
        let ghost all: Seq<Sequence> = rest@;
        while rest.len() > 0
            invariant
                live_only(all) == kept@ + live_only(rest@),
            decreases rest@.len(),
        {
            let s = rest.remove(0);
            if !matches!(s.state, crate::request::SequenceState::Done(_)
                | crate::request::SequenceState::Errored) {
                kept.push(s);
            }
            proof {
                assert(live_only(all) =~= kept@ + live_only(rest@));
            }
        }
        kept.append(&mut self.queue);
        self.queue = kept;
        proof {
            assert(live_only(all) =~= live_only(all) + live_only(rest@));
        }
    }
}

} // verus!
