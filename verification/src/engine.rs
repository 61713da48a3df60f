use vstd::prelude::*;

use crate::cache::Cache;
use crate::marshal::{gather, scatter};
use crate::params::{SamplerState, SamplingParams, choose_method, params_admissible};
use crate::pipeline::Pipeline;
use crate::request::{Request, ResponseSink, Sequence, SequenceState, SinkEvent};
use crate::response::Response;
use crate::scheduler::{MAX_BATCH, Scheduler, live_only, queue_wf};
use crate::tensors::chunk_front;

verus! {

/// The RNG seed every sequence's sampler starts from.
pub const SEED: u64 = 0;

/// What became of one request at admission.
#[derive(Clone, Copy, PartialEq, Eq, Structural, Debug)]
pub enum AdmitOutcome {
    /// A sequence was created and queued.
    Admitted,
    /// The request was refused; its sink received one `Error` message and
    /// no sequence exists.
    Rejected,
}

/// What one engine tick did.
#[derive(Clone, Copy, PartialEq, Eq, Structural, Debug)]
pub enum TickOutcome {
    /// No sequence was eligible; nothing ran and nothing changed.
    Idle,
    /// A batch ran; the payload counts the sequences that sampled a token.
    Ran(usize),
    /// The forward pass or the slab marshalling failed; every scheduled
    /// sequence was failed with an `Error` message and dropped, and the
    /// slab was cleared.
    Failed,
}

/// How a sequence relates to itself after `n` further forward passes it
/// survived: `n` tokens appended, the earlier history untouched, and `n`
/// more passes counted.
pub open spec fn progressed(pre: Sequence, post: Sequence, n: int) -> bool {
    &&& post.id == pre.id
    &&& post.prompt_len == pre.prompt_len
    &&& post.max_ctx == pre.max_ctx
    &&& post.responder.sender == pre.responder.sender
    &&& post.tokens@.len() == pre.tokens@.len() + n
    &&& post.gen_idx == pre.gen_idx + n
    &&& post.tokens@.take(pre.tokens@.len() as int) == pre.tokens@
}

/// Progress composes: `m` passes followed by `n` more are `m + n` passes.
/// With `progressed(pre, post, 1)` per tick (see `ticked`), a sequence
/// that takes part in `N` successful ticks ends with `gen_idx` increased
/// by `N` and exactly `N` tokens appended after its untouched history.
pub proof fn lemma_progress_composes(a: Sequence, b: Sequence, c: Sequence, m: int, n: int)
    requires
        m >= 0,
        n >= 0,
        progressed(a, b, m),
        progressed(b, c, n),
    ensures
        progressed(a, c, m + n),
{
    assert(c.tokens@.take(a.tokens@.len() as int) =~= c.tokens@.take(
        b.tokens@.len() as int,
    ).take(a.tokens@.len() as int));
}

/// How one scheduled sequence relates to itself after a tick it took part
/// in: either it failed, or it progressed by exactly one pass.
pub open spec fn ticked(pre: Sequence, post: Sequence) -> bool {
    &&& post.id == pre.id
    &&& post.prompt_len == pre.prompt_len
    &&& post.max_ctx == pre.max_ctx
    &&& post.responder.sender == pre.responder.sender
    &&& (post.state is Errored || progressed(pre, post, 1))
}

/// How one scheduled sequence relates to itself after a tick that failed
/// as a whole: marked errored, its one terminal message appended to its
/// sink log, its history untouched.
pub open spec fn failed_after(pre: Sequence, post: Sequence) -> bool {
    &&& post.id == pre.id
    &&& post.prompt_len == pre.prompt_len
    &&& post.max_ctx == pre.max_ctx
    &&& post.responder.sender == pre.responder.sender
    &&& post.responder.sent@ == pre.responder.sent@.push(SinkEvent::Terminal)
    &&& post.tokens == pre.tokens
    &&& post.gen_idx == pre.gen_idx
    &&& post.state is Errored
    &&& post.wf()
}

/// How many of a tick's recorded post-states sampled a token this tick:
/// all but the errored ones.
pub open spec fn sampled_count(q: Seq<Sequence>) -> nat
    decreases q.len(),
{
    if q.len() == 0 {
        0nat
    } else {
        sampled_count(q.drop_last()) + (if q.last().state is Errored {
            0nat
        } else {
            1nat
        })
    }
}

/// Every sequence of a failed batch, in order, was failed as
/// `failed_after` says.
pub open spec fn all_failed(pre: Seq<Sequence>, post: Seq<Sequence>, n: int) -> bool {
    &&& post.len() == n
    &&& forall|i: int| 0 <= i < n ==> failed_after(pre[i], #[trigger] post[i])
}

/// The sequence admission builds for an accepted tokenization `toks` of
/// a request with sampling policy `params` and sink `response`.
pub open spec fn admitted_seq(
    s: Sequence,
    toks: Seq<u32>,
    params: SamplingParams,
    response: ResponseSink,
    id: usize,
    layers: nat,
    max_ctx: usize,
) -> bool {
    &&& s.id == id
    &&& s.state == SequenceState::Waiting
    &&& s.gen_idx == 0
    &&& s.tokens@ == toks
    &&& s.prompt_len == toks.len()
    &&& s.kv@.len() == layers
    &&& (forall|l: int| 0 <= l < s.kv@.len() ==> #[trigger] s.kv@[l] is None)
    &&& Some(s.sampler.method) == crate::params::spec_method(params.top_k, params.top_p_bits)
    &&& s.sampler.seed == SEED
    &&& s.sampler.temperature_bits == params.temperature_bits
    &&& s.sampler.top_n_logprobs == params.top_n_logprobs
    &&& s.sampler.repeat_penalty_bits == params.repeat_penalty_bits
    &&& s.stop_tokens@ == (match params.stop_toks {
        Some(v) => v@,
        None => Seq::<u32>::empty(),
    })
    &&& s.responder == response
    &&& s.max_ctx == max_ctx
}

/// The inference engine: the scheduler that owns every live sequence, the
/// pipeline's KV slab, the pipeline itself, and the id counter for
/// admissions. The surrounding runtime drains the request channel into
/// `add_request` and calls `tick` while work is eligible.
pub struct Engine<P: Pipeline> {
    pub pipeline: P,
    pub cache: Cache,
    pub scheduler: Scheduler,
    pub next_id: usize,
    pub max_ctx: usize,
}

impl<P: Pipeline> Engine<P> {
    /// The engine's invariant: the slab has one layer per model layer and
    /// every queued sequence is well-formed, unfinished, sized to the
    /// model and bounded by the model's context length.
    pub open spec fn wf(self) -> bool {
        queue_wf(self.scheduler.queue@, self.cache.layers@.len(), self.max_ctx as nat)
    }

    /// A fresh engine around a pipeline, with `max_ctx` as the model's
    /// maximum context length.
    pub fn new(pipeline: P, max_ctx: usize) -> (e: Engine<P>)
        ensures
            e.wf(),
            e.pipeline == pipeline,
            e.scheduler.queue@.len() == 0,
            e.next_id == 0,
            e.max_ctx == max_ctx,
    {
        let n = pipeline.num_hidden_layers();
        Engine {
            cache: Cache::new(n),
            scheduler: Scheduler::new(),
            pipeline,
            next_id: 0,
            max_ctx,
        }
    }

    /// Whether any sequence is eligible for the next tick; when not, the
    /// surrounding runtime blocks on the request channel instead of
    /// spinning.
    pub fn has_eligible(&self) -> (r: bool)
        ensures
            r == (self.scheduler.queue@.len() > 0),
    {
        self.scheduler.has_eligible()
    }

    /// Admit one request: tokenize its prompt and hand the accepted
    /// tokenization to `admit_sequence`. The second result is the final
    /// log of the request's sink: on rejection exactly one terminal
    /// `Error` message was committed to it and no sequence exists; on
    /// admission it is untouched and lives on in the queued sequence.
    pub fn add_request(&mut self, req: Request) -> (r: (AdmitOutcome, Ghost<Seq<SinkEvent>>))
        requires
            old(self).wf(),
            req.response.sent@.len() == 0,
        ensures
            final(self).wf(),
            final(self).pipeline == old(self).pipeline,
            final(self).cache == old(self).cache,
            final(self).max_ctx == old(self).max_ctx,
            !params_admissible(req.sampling_params.top_k, req.sampling_params.top_p_bits)
                ==> r.0 == AdmitOutcome::Rejected,
            old(self).next_id == usize::MAX ==> r.0 == AdmitOutcome::Rejected,
            r.0 == AdmitOutcome::Rejected ==> final(self).scheduler == old(self).scheduler
                && final(self).next_id == old(self).next_id && r.1@ == req.response.sent@.push(
                SinkEvent::Terminal,
            ),
            r.0 == AdmitOutcome::Admitted ==> {
                &&& params_admissible(req.sampling_params.top_k, req.sampling_params.top_p_bits)
                &&& old(self).next_id < usize::MAX
                &&& final(self).next_id == old(self).next_id + 1
                &&& final(self).scheduler.queue@.len() == old(self).scheduler.queue@.len() + 1
                &&& final(self).scheduler.queue@.take(old(self).scheduler.queue@.len() as int)
                    == old(self).scheduler.queue@
                &&& r.1@ == req.response.sent@
                &&& exists|toks: Seq<u32>|
                    toks.len() >= 1 && #[trigger] admitted_seq(
                        final(self).scheduler.queue@.last(),
                        toks,
                        req.sampling_params,
                        req.response,
                        old(self).next_id,
                        old(self).cache.layers@.len(),
                        old(self).max_ctx,
                    )
            },
    {
        let Request { prompt, sampling_params, response } = req;
        match self.pipeline.tokenize_prompt(&prompt) {
            Ok(toks) => {
                let ghost tv: Seq<u32> = toks@;
                let r = self.admit_sequence(toks, sampling_params, response);
                proof {
                    if r.0 == AdmitOutcome::Admitted {
                        assert(admitted_seq(
                            self.scheduler.queue@.last(),
                            tv,
                            req.sampling_params,
                            req.response,
                            old(self).next_id,
                            old(self).cache.layers@.len(),
                            old(self).max_ctx,
                        ));
                    }
                }
                r
            },
            Err(message) => {
                let mut sink = response;
                sink.send_terminal(Response::Error { message });
                (AdmitOutcome::Rejected, Ghost(sink.sent@))
            },
        }
    }

    /// Admit one request whose prompt is already tokenized: the request
    /// is admitted exactly when one of `top_k` / `top_p` is set and the
    /// id space is not exhausted, and then the queue gains precisely the
    /// sequence `admitted_seq` describes, carrying `prompt_tokens` as its
    /// history and the sink as it stands. On rejection the sink receives
    /// exactly one terminal `Error` message (the second result is its
    /// final log), no sequence exists, and the engine is unchanged.
    pub fn admit_sequence(
        &mut self,
        prompt_tokens: Vec<u32>,
        params: SamplingParams,
        response: ResponseSink,
    ) -> (r: (AdmitOutcome, Ghost<Seq<SinkEvent>>))
        requires
            old(self).wf(),
            prompt_tokens@.len() >= 1,
            response.sent@.len() == 0,
        ensures
            final(self).wf(),
            final(self).pipeline == old(self).pipeline,
            final(self).cache == old(self).cache,
            final(self).max_ctx == old(self).max_ctx,
            (r.0 == AdmitOutcome::Admitted) <==> (params_admissible(
                params.top_k,
                params.top_p_bits,
            ) && old(self).next_id < usize::MAX),
            r.0 == AdmitOutcome::Rejected ==> final(self).scheduler == old(self).scheduler
                && final(self).next_id == old(self).next_id && r.1@ == response.sent@.push(
                SinkEvent::Terminal,
            ),
            r.0 == AdmitOutcome::Admitted ==> {
                &&& final(self).next_id == old(self).next_id + 1
                &&& final(self).scheduler.queue@.len() == old(self).scheduler.queue@.len() + 1
                &&& final(self).scheduler.queue@.take(old(self).scheduler.queue@.len() as int)
                    == old(self).scheduler.queue@
                &&& r.1@ == response.sent@
                &&& admitted_seq(
                    final(self).scheduler.queue@.last(),
                    prompt_tokens@,
                    params,
                    response,
                    old(self).next_id,
                    old(self).cache.layers@.len(),
                    old(self).max_ctx,
                )
            },
    {
        let ghost sink_log: Seq<SinkEvent> = response.sent@;
        let mut sink = response;
        let SamplingParams {
            temperature_bits,
            top_k,
            top_p_bits,
            top_n_logprobs,
            repeat_penalty_bits,
            stop_toks,
        } = params;
        let method = match choose_method(top_k, top_p_bits) {
            Some(m) => m,
            None => {
                sink.send_terminal(
                    Response::Error {
                        message: "exactly one of top_k and top_p must be given".to_string(),
                    },
                );
                return (AdmitOutcome::Rejected, Ghost(sink.sent@));
            },
        };
        if self.next_id == usize::MAX {
            sink.send_terminal(
                Response::Error { message: "the id space is exhausted".to_string() },
            );
            return (AdmitOutcome::Rejected, Ghost(sink.sent@));
        }
        let stop_tokens = match stop_toks {
            Some(v) => v,
            None => Vec::new(),
        };
        let sampler = SamplerState {
            seed: SEED,
            temperature_bits,
            method,
            top_n_logprobs,
            repeat_penalty_bits,
        };
        let layers = self.cache.num_layers();
        let seq = Sequence::new_waiting(
            prompt_tokens,
            self.next_id,
            layers,
            sink,
            sampler,
            stop_tokens,
            self.max_ctx,
        );
        self.next_id += 1;
        self.scheduler.add_seq(seq);
        proof {
            let q = self.scheduler.queue@;
            let oldq = old(self).scheduler.queue@;
            assert(q.take(oldq.len() as int) =~= oldq);
            assert forall|i: int| 0 <= i < q.len() implies {
                &&& (#[trigger] q[i]).wf()
                &&& !q[i].finished()
                &&& q[i].kv@.len() == self.cache.layers@.len()
                &&& q[i].max_ctx == self.max_ctx
            } by {
                if i < oldq.len() {
                    assert(q[i] == oldq[i]);
                    assert(oldq[i].wf() && !oldq[i].finished() && oldq[i].kv@.len()
                        == self.cache.layers@.len() && oldq[i].max_ctx == self.max_ctx);
                } else {
                    assert(q[i] == q.last());
                }
            }
        }
        (AdmitOutcome::Admitted, Ghost(sink_log))
    }

    /// Fail every sequence of a batch that could not run: each one's sink
    /// receives its one terminal `Error` message and the sequence is
    /// handed back errored, for the caller to drop.
    fn fail_batch(batch: Vec<Sequence>, message: &String) -> (done: Vec<Sequence>)
        requires
            forall|i: int|
                0 <= i < batch@.len() ==> (#[trigger] batch@[i]).wf() && !batch@[i].finished(),
        ensures
            all_failed(batch@, done@, batch@.len() as int),
    {
        let ghost orig: Seq<Sequence> = batch@;
        let mut rest = batch;
        let mut done: Vec<Sequence> = Vec::new();
        while rest.len() > 0
            invariant
                done@.len() + rest@.len() == orig.len(),
                rest@ == orig.skip(done@.len() as int),
                forall|i: int|
                    0 <= i < orig.len() ==> (#[trigger] orig[i]).wf() && !orig[i].finished(),
                forall|i: int|
                    0 <= i < done@.len() ==> failed_after(orig[i], #[trigger] done@[i]),
            decreases rest@.len(),
        {
            let mut s = rest.remove(0);
            proof {
                assert(orig.skip(done@.len() as int)[0] == orig[done@.len() as int]);
            }
            s.fail(message.clone());
            done.push(s);
            proof {
                assert(rest@ =~= orig.skip(done@.len() as int));
            }
        }
        done
    }

    /// One scheduling tick: take the next batch, gather its KV slots into
    /// the slab, run the forward pass, scatter the slab back, then sample,
    /// record and stream one token per sequence, finishing each sequence
    /// the tick terminates. With nothing eligible the engine is left
    /// untouched and no tensor work happens. If the forward pass or the
    /// marshalling fails, every scheduled sequence is failed and dropped
    /// and the slab is cleared; the engine itself stays usable.
    pub fn tick(&mut self) -> (r: (TickOutcome, Ghost<Seq<Sequence>>))
        requires
            old(self).wf(),
        ensures
            final(self).wf(),
            final(self).max_ctx == old(self).max_ctx,
            final(self).next_id == old(self).next_id,
            final(self).cache.layers@.len() == old(self).cache.layers@.len(),
            (r.0 == TickOutcome::Idle) <==> old(self).scheduler.queue@.len() == 0,
            r.0 == TickOutcome::Idle ==> final(self).scheduler == old(self).scheduler
                && final(self).cache == old(self).cache && final(self).pipeline == old(
                self).pipeline && r.1@.len() == 0,
            r.0 == TickOutcome::Failed ==> {
                let n = vstd::math::min(MAX_BATCH as int, old(self).scheduler.queue@.len() as int);
                &&& final(self).scheduler.queue@ == old(self).scheduler.queue@.skip(n)
                &&& (forall|l: int|
                    0 <= l < final(self).cache.layers@.len()
                        ==> #[trigger] final(self).cache.layers@[l] is None)
                &&& all_failed(old(self).scheduler.queue@.take(n), r.1@, n)
            },
            r.0 matches TickOutcome::Ran(emitted) ==> {
                let n = vstd::math::min(MAX_BATCH as int, old(self).scheduler.queue@.len() as int);
                &&& r.1@.len() == n
                &&& (forall|i: int|
                    0 <= i < n ==> ticked(old(self).scheduler.queue@[i], #[trigger] r.1@[i]))
                &&& final(self).scheduler.queue@ == live_only(r.1@) + old(
                    self).scheduler.queue@.skip(n)
                &&& emitted == sampled_count(r.1@)
                &&& emitted <= n
            },
    {
        if !self.scheduler.has_eligible() {
            return (TickOutcome::Idle, Ghost(Seq::empty()));
        }

        let batch = self.scheduler.schedule();
        let ghost sched: Seq<Sequence> = batch@;
        let b: usize = batch.len();
        proof {
            assert forall|i: int| 0 <= i < sched.len() implies {
                &&& (#[trigger] sched[i]).wf()
                &&& !sched[i].finished()
                &&& sched[i].kv@.len() == old(self).cache.layers@.len()
                &&& sched[i].max_ctx == old(self).max_ctx
            } by {
                assert(sched[i] == old(self).scheduler.queue@[i]);
            }
        }

        if let Err(message) = gather(&mut self.cache, &batch) {
            let done = Self::fail_batch(batch, &message);
            self.cache.clear();
            proof {
                assert(sched == old(self).scheduler.queue@.take(b as int));
                assert(all_failed(old(self).scheduler.queue@.take(b as int), done@, b as int));
            }
            return (TickOutcome::Failed, Ghost(done@));
        }

        let logits = match self.pipeline.forward(&batch, &mut self.cache) {
            Ok(t) => t,
            Err(message) => {
                let done = Self::fail_batch(batch, &message);
                self.cache.clear();
                proof {
                    assert(sched == old(self).scheduler.queue@.take(b as int));
                    assert(all_failed(old(self).scheduler.queue@.take(b as int), done@, b as int));
                }
                return (TickOutcome::Failed, Ghost(done@));
            },
        };

        let rows_t = match chunk_front(&logits, b) {
            Ok(v) => v,
            Err(message) => {
                let done = Self::fail_batch(batch, &message);
                self.cache.clear();
                proof {
                    assert(sched == old(self).scheduler.queue@.take(b as int));
                    assert(all_failed(old(self).scheduler.queue@.take(b as int), done@, b as int));
                }
                return (TickOutcome::Failed, Ghost(done@));
            },
        };
        if rows_t.len() != b {
            let message = "the logits split into the wrong number of rows".to_string();
            let done = Self::fail_batch(batch, &message);
            self.cache.clear();
            proof {
                assert(sched == old(self).scheduler.queue@.take(b as int));
                assert(all_failed(old(self).scheduler.queue@.take(b as int), done@, b as int));
            }
            return (TickOutcome::Failed, Ghost(done@));
        }

        let batch = match scatter(&self.cache, batch) {
            Ok(out) => out,
            Err((back, message)) => {
                let done = Self::fail_batch(back, &message);
                self.cache.clear();
                proof {
                    assert(sched == old(self).scheduler.queue@.take(b as int));
                    assert(all_failed(old(self).scheduler.queue@.take(b as int), done@, b as int));
                }
                return (TickOutcome::Failed, Ghost(done@));
            },
        };
        let ghost mid: Seq<Sequence> = batch@;
        let ghost slab: Cache = self.cache;

        let eos = self.pipeline.eos_tok();
        let ghost ell: nat = self.cache.layers@.len();
        let mut rest = batch;
        let mut kept: Vec<Sequence> = Vec::new();
        let mut emitted: usize = 0;
        let mut idx: usize = 0;
        while rest.len() > 0
            invariant
                idx == kept@.len(),
                idx + rest@.len() == b,
                emitted <= idx,
                emitted == sampled_count(kept@),
                b == sched.len(),
                b == mid.len(),
                b >= 1,
                rows_t@.len() == b,
                rest@ == mid.skip(idx as int),
                ell == old(self).cache.layers@.len(),
                self.cache == slab,
                self.cache.layers@.len() == ell,
                self.max_ctx == old(self).max_ctx,
                self.next_id == old(self).next_id,
                self.scheduler.queue@ == old(self).scheduler.queue@.skip(b as int),
                forall|i: int|
                    0 <= i < b ==> crate::marshal::scattered(
                        #[trigger] mid[i],
                        sched[i],
                        ell,
                        crate::cache::cache_rows(slab),
                    ),
                forall|i: int|
                    0 <= i < b ==> sched[i].max_ctx == self.max_ctx && (#[trigger] sched[i]).wf(),
                forall|i: int| 0 <= i < idx ==> ticked(sched[i], #[trigger] kept@[i]),
                forall|i: int|
                    0 <= i < kept@.len() ==> (#[trigger] kept@[i]).wf() && kept@[i].kv@.len()
                        == ell && kept@[i].max_ctx == self.max_ctx,
            decreases rest@.len(),
        {
            let mut s = rest.remove(0);
            let ghost prev_kept: Seq<Sequence> = kept@;
            proof {
                assert(mid.skip(idx as int)[0] == mid[idx as int]);
            }
            s.mark_scheduled();
            match self.pipeline.sample(&rows_t[idx], &s) {
                Err(message) => {
                    s.fail(message);
                    kept.push(s);
                },
                Ok(lp) => {
                    if s.tokens.len() == usize::MAX {
                        s.fail("the token history is full".to_string());
                        kept.push(s);
                    } else {
                        let t = lp.token;
                        s.add_token(t);
                        proof {
                            assert(s.tokens@.take(s.tokens@.len() - 1) =~= sched[
                                idx as int
                            ].tokens@);
                        }
                        emitted += 1;
                        let single = vec![t];
                        let text = self.pipeline.detokenize(&single);
                        let delivered = s.emit_token(t, text, lp);
                        if !delivered {
                            // The caller has dropped its receiving half:
                            // record the cancellation without sending into
                            // the closed sink.
                            s.cancel();
                        } else {
                            match s.is_done(t, eos) {
                                Some(reason) => {
                                    let gen = s.generated_ids();
                                    let full = self.pipeline.detokenize(&gen);
                                    s.finish(reason, full);
                                },
                                None => {},
                            }
                        }
                        kept.push(s);
                    }
                },
            }
            idx += 1;
            proof {
                assert(kept@.drop_last() =~= prev_kept);
                assert(rest@ =~= mid.skip(idx as int));
            }
        }

        let ghost keptg: Seq<Sequence> = kept@;
        proof {
            crate::scheduler::lemma_live_only_wf(keptg, ell, self.max_ctx as nat);
            crate::scheduler::lemma_queue_wf_skip(
                old(self).scheduler.queue@,
                b as int,
                old(self).cache.layers@.len(),
                old(self).max_ctx as nat,
            );
        }
        self.scheduler.requeue(kept);
        proof {
            crate::scheduler::lemma_queue_wf_concat(
                live_only(keptg),
                old(self).scheduler.queue@.skip(b as int),
                ell,
                self.max_ctx as nat,
            );
            let n = vstd::math::min(MAX_BATCH as int, old(self).scheduler.queue@.len() as int);
            assert(keptg.len() == n);
            assert(forall|i: int|
                0 <= i < n ==> ticked(old(self).scheduler.queue@[i], #[trigger] keptg[i]));
            assert(self.scheduler.queue@ == live_only(keptg) + old(self).scheduler.queue@.skip(n));
        }
        (TickOutcome::Ran(emitted), Ghost(keptg))
    }
}

} // verus!
