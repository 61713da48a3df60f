use vstd::prelude::*;

use crate::params::{Logprobs, SamplerState, SamplingParams};
use crate::response::{Response, StopReason};
use crate::channel::send_message;

verus! {

/// What kind of message the engine has committed to a response sink: a
/// streamed token, or the one terminal message (`Done` or `Error`).
pub enum SinkEvent {
    Stream,
    Terminal,
}

/// A request's response sink: the sending half of its channel together
/// with the record of what the engine has committed to it, in order. The
/// log grows only through the methods below, so a contract over it
/// speaks of what the engine really did; a message committed after the
/// caller has dropped the receiving half reaches no one.
pub struct ResponseSink {
    pub sender: std::sync::mpsc::Sender<Response>,
    pub sent: Ghost<Seq<SinkEvent>>,
}

impl ResponseSink {
    /// A fresh sink around a sender; nothing committed yet.
    pub fn new(sender: std::sync::mpsc::Sender<Response>) -> (s: ResponseSink)
        ensures
            s.sender == sender,
            s.sent@.len() == 0,
    {
        ResponseSink { sender, sent: Ghost(Seq::empty()) }
    }

    /// Commit one streamed message. Returns whether the receiving half
    /// was still open to take it.
    pub fn send_stream(&mut self, m: Response) -> (delivered: bool)
        ensures
            final(self).sender == old(self).sender,
            final(self).sent@ == old(self).sent@.push(SinkEvent::Stream),
    {
        let delivered = send_message(&self.sender, m);
        self.sent = Ghost(self.sent@.push(SinkEvent::Stream));
        delivered
    }

    /// Commit the one terminal message. Returns whether the receiving
    /// half was still open to take it.
    pub fn send_terminal(&mut self, m: Response) -> (delivered: bool)
        ensures
            final(self).sender == old(self).sender,
            final(self).sent@ == old(self).sent@.push(SinkEvent::Terminal),
    {
        let delivered = send_message(&self.sender, m);
        self.sent = Ghost(self.sent@.push(SinkEvent::Terminal));
        delivered
    }

    /// Record the terminal event of a cancelled request without touching
    /// the channel: the caller has dropped the receiving half, so there
    /// is no one to send to and nothing further may be committed.
    pub fn seal_terminal(&mut self)
        ensures
            final(self).sender == old(self).sender,
            final(self).sent@ == old(self).sent@.push(SinkEvent::Terminal),
    {
        self.sent = Ghost(self.sent@.push(SinkEvent::Terminal));
    }
}

/// A generation request as it arrives on the engine's channel.
pub struct Request {
    pub prompt: String,
    pub sampling_params: SamplingParams,
    pub response: ResponseSink,
}

/// Where a sequence stands in its lifecycle.
#[derive(Clone, Copy, PartialEq, Eq, Structural, Debug)]
pub enum SequenceState {
    /// Admitted, not yet scheduled.
    Waiting,
    /// Scheduled for its first forward, which ingests the whole prompt.
    RunningPrompt,
    /// Past its first forward; each further tick decodes one token.
    RunningDecode,
    /// Terminated; the reason was committed to the sink.
    Done(StopReason),
    /// Failed; an error message was committed to the sink.
    Errored,
}

/// One layer's cached attention state for a single sequence: the key and
/// value tensors, shaped `[heads, rows, head_dim]`, together with `rows`,
/// the number of cached positions, which the core tracks itself because
/// tensors are opaque to it.
pub struct KvSlot {
    pub k: candle_core::Tensor,
    pub v: candle_core::Tensor,
    pub rows: usize,
}

/// The number of cached positions a slot holds; an empty slot holds none.
pub open spec fn slot_rows(o: Option<KvSlot>) -> nat {
    match o {
        Some(s) => s.rows as nat,
        None => 0nat,
    }
}

/// One row of generation work: the token history, the per-layer KV cache
/// slots, the sampling policy and the response sink of one admitted
/// request.
pub struct Sequence {
    pub id: usize,
    pub tokens: Vec<u32>,
    pub prompt_len: usize,
    pub gen_idx: usize,
    pub kv: Vec<Option<KvSlot>>,
    pub sampler: SamplerState,
    pub stop_tokens: Vec<u32>,
    pub responder: ResponseSink,
    pub state: SequenceState,
    pub max_ctx: usize,
}

impl Sequence {
    /// The sequence has terminated, one way or the other.
    pub open spec fn finished(self) -> bool {
        self.state is Done || self.state is Errored
    }

    /// Either every layer's slot is filled or none is, and all filled
    /// slots hold the same number of cached positions: one forward fills
    /// all layers at once.
    pub open spec fn kv_consistent(self) -> bool {
        forall|i: int, j: int|
            0 <= i < self.kv@.len() && 0 <= j < self.kv@.len() ==> {
                &&& (#[trigger] self.kv@[i] is Some <==> #[trigger] self.kv@[j] is Some)
                &&& slot_rows(self.kv@[i]) == slot_rows(self.kv@[j])
            }
    }

    /// The sink discipline: every message committed so far is a streamed
    /// token, except that a finished sequence's last message is its one
    /// terminal message. In particular a terminal message is committed
    /// exactly once, and nothing follows it.
    pub open spec fn sink_log_ok(self) -> bool {
        &&& forall|i: int|
            0 <= i < self.responder.sent@.len() ==> (#[trigger] self.responder.sent@[i]
                is Terminal <==> (i + 1 == self.responder.sent@.len() && self.finished()))
        &&& (self.finished() ==> self.responder.sent@.len() >= 1)
    }

    /// Well-formedness, established at admission and preserved by every
    /// operation: the prompt is non-empty, the token history grows by
    /// exactly one token per forward pass survived, the KV slots agree
    /// across layers, and the sink discipline holds.
    pub open spec fn wf(self) -> bool {
        &&& self.prompt_len >= 1
        &&& self.tokens@.len() == self.prompt_len + self.gen_idx
        &&& (self.state is Waiting ==> self.gen_idx == 0)
        &&& self.kv_consistent()
        &&& self.sink_log_ok()
    }

    /// A fresh sequence for an admitted request: the tokenized prompt,
    /// empty KV slots for each of the model's `layers`, and no forward
    /// passes yet. The request's sink is taken over as it stands.
    pub fn new_waiting(
        prompt_tokens: Vec<u32>,
        id: usize,
        layers: usize,
        responder: ResponseSink,
        sampler: SamplerState,
        stop_tokens: Vec<u32>,
        max_ctx: usize,
    ) -> (s: Sequence)
        requires
            prompt_tokens@.len() >= 1,
            responder.sent@.len() == 0,
        ensures
            s.wf(),
            s.id == id,
            s.tokens == prompt_tokens,
            s.prompt_len == prompt_tokens@.len(),
            s.gen_idx == 0,
            s.kv@.len() == layers,
            forall|l: int| 0 <= l < s.kv@.len() ==> #[trigger] s.kv@[l] is None,
            s.sampler == sampler,
            s.stop_tokens == stop_tokens,
            s.responder == responder,
            s.state == SequenceState::Waiting,
            s.max_ctx == max_ctx,
    {
        let prompt_len = prompt_tokens.len();
        let mut kv: Vec<Option<KvSlot>> = Vec::new();
        let mut l: usize = 0;
        while l < layers
            invariant
                l <= layers,
                kv@.len() == l,
                forall|i: int| 0 <= i < kv@.len() ==> #[trigger] kv@[i] is None,
            decreases layers - l,
        {
            kv.push(None);
            l += 1;
        }
        Sequence {
            id,
            tokens: prompt_tokens,
            prompt_len,
            gen_idx: 0,
            kv,
            sampler,
            stop_tokens,
            responder,
            state: SequenceState::Waiting,
            max_ctx,
        }
    }

    /// Record the token a forward pass produced for this sequence: append
    /// it to the history and count the pass. The history is append-only.
    pub fn add_token(&mut self, t: u32)
        requires
            old(self).wf(),
            !old(self).finished(),
            old(self).tokens@.len() < usize::MAX,
        ensures
            final(self).wf(),
            final(self).tokens@ == old(self).tokens@.push(t),
            final(self).gen_idx == old(self).gen_idx + 1,
            final(self).state == (if old(self).state is Waiting || old(self).state
                is RunningPrompt {
                SequenceState::RunningDecode
            } else {
                old(self).state
            }),
            final(self).id == old(self).id,
            final(self).prompt_len == old(self).prompt_len,
            final(self).kv == old(self).kv,
            final(self).sampler == old(self).sampler,
            final(self).stop_tokens == old(self).stop_tokens,
            final(self).responder == old(self).responder,
            final(self).max_ctx == old(self).max_ctx,
    {
        self.tokens.push(t);
        self.gen_idx += 1;
        if matches!(self.state, SequenceState::Waiting | SequenceState::RunningPrompt) {
            self.state = SequenceState::RunningDecode;
        }
    }

    /// Promote the sequence for the tick it was just scheduled into: its
    /// first inclusion is the prompt-ingest pass, every later one a decode
    /// step.
    pub fn mark_scheduled(&mut self)
        requires
            old(self).wf(),
            !old(self).finished(),
        ensures
            final(self).wf(),
            !final(self).finished(),
            final(self).state == (if old(self).gen_idx == 0 {
                SequenceState::RunningPrompt
            } else {
                SequenceState::RunningDecode
            }),
            final(self).tokens == old(self).tokens,
            final(self).gen_idx == old(self).gen_idx,
            final(self).id == old(self).id,
            final(self).prompt_len == old(self).prompt_len,
            final(self).kv == old(self).kv,
            final(self).sampler == old(self).sampler,
            final(self).stop_tokens == old(self).stop_tokens,
            final(self).responder == old(self).responder,
            final(self).max_ctx == old(self).max_ctx,
    {
        if self.gen_idx == 0 {
            self.state = SequenceState::RunningPrompt;
        } else {
            self.state = SequenceState::RunningDecode;
        }
    }

    /// Whether token `t`, just sampled, terminates this sequence: the
    /// end-of-sequence token wins, then the request's stop set, then the
    /// context-length bound.
    pub fn is_done(&self, t: u32, eos_tok: u32) -> (r: Option<StopReason>)
        ensures
            r == (if t == eos_tok {
                Some(StopReason::EosToken)
            } else if self.stop_tokens@.contains(t) {
                Some(StopReason::StopToken)
            } else if self.tokens@.len() >= self.max_ctx {
                Some(StopReason::MaxLen)
            } else {
                None::<StopReason>
            }),
    {
        if t == eos_tok {
            return Some(StopReason::EosToken);
        }
        let mut i: usize = 0;
        while i < self.stop_tokens.len()
            invariant
                t != eos_tok,
                i <= self.stop_tokens@.len(),
                forall|j: int| 0 <= j < i ==> self.stop_tokens@[j] != t,
            decreases self.stop_tokens@.len() - i,
        {
            if self.stop_tokens[i] == t {
                assert(self.stop_tokens@.contains(t));
                return Some(StopReason::StopToken);
            }
            i += 1;
        }
        assert(!self.stop_tokens@.contains(t));
        if self.tokens.len() >= self.max_ctx {
            return Some(StopReason::MaxLen);
        }
        None
    }

    /// The tokens generated after the prompt, in order.
    pub fn generated_ids(&self) -> (r: Vec<u32>)
        requires
            self.wf(),
        ensures
            r@ == self.tokens@.skip(self.prompt_len as int),
    {
        let mut r: Vec<u32> = Vec::new();
        let mut i: usize = self.prompt_len;
        while i < self.tokens.len()
            invariant
                self.prompt_len <= i <= self.tokens@.len(),
                r@ == self.tokens@.subrange(self.prompt_len as int, i as int),
            decreases self.tokens@.len() - i,
        {
            r.push(self.tokens[i]);
            i += 1;
        }
        assert(r@ =~= self.tokens@.skip(self.prompt_len as int));
        r
    }

    /// Stream one sampled token on the sink. Returns whether the caller's
    /// receiving half was still open; a closed sink means the request was
    /// cancelled.
    pub fn emit_token(&mut self, id: u32, text: String, logprobs: Logprobs) -> (delivered: bool)
        requires
            old(self).wf(),
            !old(self).finished(),
        ensures
            final(self).wf(),
            !final(self).finished(),
            final(self).responder.sender == old(self).responder.sender,
            final(self).responder.sent@ == old(self).responder.sent@.push(SinkEvent::Stream),
            final(self).tokens == old(self).tokens,
            final(self).gen_idx == old(self).gen_idx,
            final(self).state == old(self).state,
            final(self).id == old(self).id,
            final(self).prompt_len == old(self).prompt_len,
            final(self).kv == old(self).kv,
            final(self).sampler == old(self).sampler,
            final(self).stop_tokens == old(self).stop_tokens,
            final(self).max_ctx == old(self).max_ctx,
    {
        self.responder.send_stream(Response::Token { id, text, logprobs })
    }

    /// Terminate the sequence: commit its one terminal `Done` message to
    /// the sink and mark it `Done(reason)`. Nothing may follow.
    pub fn finish(&mut self, reason: StopReason, full_text: String) -> (delivered: bool)
        requires
            old(self).wf(),
            !old(self).finished(),
        ensures
            final(self).wf(),
            final(self).state == SequenceState::Done(reason),
            final(self).responder.sender == old(self).responder.sender,
            final(self).responder.sent@ == old(self).responder.sent@.push(SinkEvent::Terminal),
            final(self).tokens == old(self).tokens,
            final(self).gen_idx == old(self).gen_idx,
            final(self).id == old(self).id,
            final(self).prompt_len == old(self).prompt_len,
            final(self).kv == old(self).kv,
            final(self).sampler == old(self).sampler,
            final(self).stop_tokens == old(self).stop_tokens,
            final(self).max_ctx == old(self).max_ctx,
    {
        let generated_ids = self.generated_ids();
        let delivered = self.responder.send_terminal(
            Response::Done { reason, full_text, generated_ids },
        );
        self.state = SequenceState::Done(reason);
        delivered
    }

    /// Cancel the sequence: its caller has dropped the receiving half, so
    /// the terminal event is recorded without attempting a send, and the
    /// sequence is marked `Done(Cancelled)`. Nothing may follow.
    pub fn cancel(&mut self)
        requires
            old(self).wf(),
            !old(self).finished(),
        ensures
            final(self).wf(),
            final(self).state == SequenceState::Done(StopReason::Cancelled),
            final(self).responder.sender == old(self).responder.sender,
            final(self).responder.sent@ == old(self).responder.sent@.push(SinkEvent::Terminal),
            final(self).tokens == old(self).tokens,
            final(self).gen_idx == old(self).gen_idx,
            final(self).id == old(self).id,
            final(self).prompt_len == old(self).prompt_len,
            final(self).kv == old(self).kv,
            final(self).sampler == old(self).sampler,
            final(self).stop_tokens == old(self).stop_tokens,
            final(self).max_ctx == old(self).max_ctx,
    {
        self.responder.seal_terminal();
        self.state = SequenceState::Done(StopReason::Cancelled);
    }

    /// Fail the sequence: commit its one terminal `Error` message to the
    /// sink and mark it errored. Nothing may follow.
    pub fn fail(&mut self, message: String) -> (delivered: bool)
        requires
            old(self).wf(),
            !old(self).finished(),
        ensures
            final(self).wf(),
            final(self).state == SequenceState::Errored,
            final(self).responder.sender == old(self).responder.sender,
            final(self).responder.sent@ == old(self).responder.sent@.push(SinkEvent::Terminal),
            final(self).tokens == old(self).tokens,
            final(self).gen_idx == old(self).gen_idx,
            final(self).id == old(self).id,
            final(self).prompt_len == old(self).prompt_len,
            final(self).kv == old(self).kv,
            final(self).sampler == old(self).sampler,
            final(self).stop_tokens == old(self).stop_tokens,
            final(self).max_ctx == old(self).max_ctx,
    {
        let delivered = self.responder.send_terminal(Response::Error { message });
        self.state = SequenceState::Errored;
        delivered
    }
}

/// How many terminal messages a sink log holds.
pub open spec fn terminal_count(events: Seq<SinkEvent>) -> nat
    decreases events.len(),
{
    if events.len() == 0 {
        0nat
    } else {
        terminal_count(events.drop_last()) + (if events.last() is Terminal {
            1nat
        } else {
            0nat
        })
    }
}

/// Exactly one terminal message per terminated sequence, none before
/// termination: the sink discipline implies the count.
pub proof fn lemma_one_terminal_message(s: Sequence)
    requires
        s.wf(),
    ensures
        terminal_count(s.responder.sent@) == (if s.finished() {
            1nat
        } else {
            0nat
        }),
{
    lemma_terminal_count_from_log(s.responder.sent@, s.finished());
}

proof fn lemma_terminal_count_from_log(events: Seq<SinkEvent>, fin: bool)
    requires
        forall|i: int|
            0 <= i < events.len() ==> (#[trigger] events[i] is Terminal <==> (i + 1 == events.len()
                && fin)),
    ensures
        terminal_count(events) == (if fin && events.len() > 0 {
            1nat
        } else {
            0nat
        }),
    decreases events.len(),
{
    if events.len() > 0 {
        let front = events.drop_last();
        assert(forall|i: int|
            0 <= i < front.len() ==> (#[trigger] front[i] is Terminal <==> (i + 1 == front.len()
                && false))) by {
            assert(forall|i: int| 0 <= i < front.len() ==> front[i] == events[i]);
        }
        lemma_terminal_count_from_log(front, false);
    }
}

/// A sequence's history grows in lockstep with the forward passes it has
/// survived: after `n` of them it holds its prompt plus exactly `n`
/// sampled tokens.
pub proof fn lemma_history_tracks_passes(s: Sequence)
    requires
        s.wf(),
    ensures
        s.tokens@.len() == s.prompt_len + s.gen_idx,
{
}

/// Layer slots agree: whenever one layer's slot is filled, every layer's
/// slot is filled and holds the same number of cached positions.
pub proof fn lemma_kv_layers_agree(s: Sequence, l1: int, l2: int)
    requires
        s.wf(),
        0 <= l1 < s.kv@.len(),
        0 <= l2 < s.kv@.len(),
        s.kv@[l1] is Some,
    ensures
        s.kv@[l2] is Some,
        slot_rows(s.kv@[l2]) == slot_rows(s.kv@[l1]),
{
}

} // verus!
