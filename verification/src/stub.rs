use vstd::prelude::*;

use crate::cache::{Cache, LayerKv};
use crate::params::Logprobs;
use crate::pipeline::{Pipeline, build_contexts};
use crate::request::Sequence;
use crate::tensors::{byte_dtype, cpu_device, zeros4};

verus! {

/// The echo model's vocabulary size.
pub const ECHO_VOCAB: u32 = 16;

/// The echo model's end-of-sequence token.
pub const ECHO_EOS: u32 = 15;

/// The echo model's hidden layer count.
pub const ECHO_LAYERS: usize = 2;

/// The sum of the first `toks.len()` token ids.
pub open spec fn token_sum(toks: Seq<u32>) -> int
    decreases toks.len(),
{
    if toks.len() == 0 {
        0
    } else {
        token_sum(toks.drop_last()) + toks.last()
    }
}

/// The token the echo model emits for a sequence on its next pass: the
/// sum of its prompt plus the one-based step number, modulo the
/// vocabulary. Greedy decoding over its one-hot logits always picks it.
pub open spec fn echo_token(s: Sequence) -> u32 {
    (((token_sum(s.tokens@.take(s.prompt_len as int)) + s.gen_idx + 1) % (
    ECHO_VOCAB as int)) as u32)
}

/// The echo model's sampling rule, computed from the sequence alone.
pub fn next_echo_token(seq: &Sequence) -> (t: u32)
    requires
        seq.wf(),
    ensures
        t == echo_token(*seq),
{
    let mut acc: u32 = 0;
    let mut i: usize = 0;
    let n = seq.prompt_len;
    while i < n
        invariant
            seq.wf(),
            i <= n,
            n == seq.prompt_len,
            n <= seq.tokens@.len(),
            acc < 16,
            acc as int == token_sum(seq.tokens@.take(i as int)) % 16,
        decreases n - i,
    {
        let t = seq.tokens[i];
        proof {
            assert(seq.tokens@.take(i + 1).drop_last() =~= seq.tokens@.take(i as int));
            assert(seq.tokens@.take(i + 1).last() == seq.tokens@[i as int]);
            vstd::arithmetic::div_mod::lemma_add_mod_noop(
                token_sum(seq.tokens@.take(i as int)),
                seq.tokens@[i as int] as int,
                16,
            );
        }
        acc = (acc + t % 16) % 16;
        i += 1;
    }
    let g: u32 = (seq.gen_idx % 16) as u32;
    proof {
        let ps = token_sum(seq.tokens@.take(seq.prompt_len as int));
        let gi = seq.gen_idx as int;
        vstd::arithmetic::div_mod::lemma_add_mod_noop(ps, gi, 16);
        vstd::arithmetic::div_mod::lemma_add_mod_noop(ps + gi, 1, 16);
        vstd::arithmetic::div_mod::lemma_add_mod_noop((ps % 16) + (gi % 16), 1, 16);
    }
    (acc + g + 1) % 16
}

/// A deterministic stand-in for a real model, for exercising the engine:
/// two layers, a sixteen-token vocabulary with `15` as end-of-sequence,
/// placeholder byte tensors for its KV slab and logits, and one-hot
/// logits whose greedy choice is `echo_token`.
pub struct EchoPipeline {
    pub device: candle_core::Device,
    pub dtype: candle_core::DType,
}

impl EchoPipeline {
    pub fn new() -> (p: EchoPipeline)
    {
        EchoPipeline { device: cpu_device(), dtype: byte_dtype() }
    }
}

impl Pipeline for EchoPipeline {
    fn num_hidden_layers(&self) -> (r: usize)
        ensures
            r == ECHO_LAYERS,
    {
        ECHO_LAYERS
    }

    fn eos_tok(&self) -> (r: u32)
        ensures
            r == ECHO_EOS,
    {
        ECHO_EOS
    }

    /// Each prompt character is one hexadecimal digit, encoded as its
    /// value; anything else is rejected.
    fn tokenize_prompt(&self, prompt: &String) -> (r: Result<Vec<u32>, String>) {
        hex_tokens(prompt.as_str().as_bytes())
    }

    /// Each token id decodes to its hexadecimal digit.
    fn detokenize(&self, toks: &Vec<u32>) -> String {
        hex_text(toks)
    }

    fn device(&self) -> &candle_core::Device {
        &self.device
    }

    fn forward(&mut self, batch: &Vec<Sequence>, cache: &mut Cache) -> (r: Result<
        candle_core::Tensor,
        String,
    >) {
        // Assemble the padded input exactly as a real model would, to keep
        // the position bookkeeping honest; the placeholder tensors below
        // stand in for the logits it would compute from it.
        let _input = build_contexts(batch);
        let b: usize = batch.len();

        let mut rows: usize = 1;
        let mut i: usize = 0;
        while i < b
            invariant
                i <= b,
                b == batch@.len(),
                forall|x: int| 0 <= x < batch@.len() ==> (#[trigger] batch@[x]).wf(),
                rows >= 1,
            decreases b - i,
        {
            if batch[i].tokens.len() > rows {
                rows = batch[i].tokens.len();
            }
            i += 1;
        }

        let ell = cache.num_layers();
        let mut new_layers: Vec<Option<LayerKv>> = Vec::new();
        let mut l: usize = 0;
        while l < ell
            invariant
                l <= ell,
                rows >= 1,
                new_layers@.len() == l,
                forall|x: int|
                    0 <= x < new_layers@.len() ==> crate::cache::layer_full(
                        #[trigger] new_layers@[x],
                        b as nat,
                        rows as nat,
                    ),
                cache.layers == old(cache).layers,
            decreases ell - l,
        {
            let k = zeros4(b, 1, rows, 1, &self.dtype, &self.device)?;
            let v = zeros4(b, 1, rows, 1, &self.dtype, &self.device)?;
            new_layers.push(Some(LayerKv { k, v, batch: b, rows }));
            l += 1;
        }
        cache.layers = new_layers;
        proof {
            if cache.layers@.len() > 0 {
                assert(crate::cache::layer_full(cache.layers@[0], b as nat, rows as nat));
                assert(crate::cache::cache_rows(*cache) == rows as nat);
            }
        }

        zeros4(b, 1, 1, 1, &self.dtype, &self.device)
    }

    /// The greedy choice over the echo model's one-hot logits row; the
    /// row itself carries no further information, so sampling always
    /// succeeds and always picks `echo_token`.
    fn sample(&mut self, logits: &candle_core::Tensor, seq: &Sequence) -> (r: Result<
        Logprobs,
        String,
    >)
        ensures
            r matches Ok(lp) && lp.token == echo_token(*seq),
    {
        let t = next_echo_token(seq);
        Ok(Logprobs { token: t, logprob_bits: 0, top_logprobs: Vec::new() })
    }
}

/// Greedy decoding on the echo model is deterministic: what it samples
/// next is a function of the sequence's history and step counter alone,
/// so two sequences in the same position always receive the same token.
pub proof fn lemma_echo_deterministic(a: Sequence, b: Sequence)
    requires
        a.tokens@ == b.tokens@,
        a.prompt_len == b.prompt_len,
        a.gen_idx == b.gen_idx,
    ensures
        echo_token(a) == echo_token(b),
{
}

/// The value of one hexadecimal digit character, if it is one.
pub open spec fn hex_val(b: u8) -> Option<u32> {
    if 48 <= b <= 57 {
        Some((b - 48) as u32)
    } else if 97 <= b <= 102 {
        Some((b - 87) as u32)
    } else {
        None
    }
}

/// Encode a prompt of hexadecimal digit characters, one token per digit;
/// an empty prompt or any other character is rejected.
pub fn hex_tokens(bs: &[u8]) -> (r: Result<Vec<u32>, String>)
    ensures
        r is Ok <==> (bs@.len() >= 1 && forall|i: int|
            0 <= i < bs@.len() ==> hex_val(#[trigger] bs@[i]) is Some),
        r matches Ok(v) ==> v@.len() == bs@.len() && forall|i: int|
            0 <= i < v@.len() ==> Some(#[trigger] v@[i]) == hex_val(bs@[i]),
{
    if bs.len() == 0 {
        return Err("the prompt is empty".to_string());
    }
    let mut v: Vec<u32> = Vec::new();
    let mut i: usize = 0;
    while i < bs.len()
        invariant
            i <= bs@.len(),
            v@.len() == i,
            forall|j: int| 0 <= j < i ==> hex_val(#[trigger] bs@[j]) is Some,
            forall|j: int| 0 <= j < i ==> Some(#[trigger] v@[j]) == hex_val(bs@[j]),
        decreases bs@.len() - i,
    {
        let b = bs[i];
        if 48 <= b && b <= 57 {
            v.push((b - 48) as u32);
        } else if 97 <= b && b <= 102 {
            v.push((b - 87) as u32);
        } else {
            return Err("the prompt may hold hexadecimal digits only".to_string());
        }
        i += 1;
    }
    Ok(v)
}

/// The hexadecimal digit of a token id taken modulo the vocabulary.
fn hex_digit_str(t: u32) -> &'static str {
    match t % 16 {
        0 => "0",
        1 => "1",
        2 => "2",
        3 => "3",
        4 => "4",
        5 => "5",
        6 => "6",
        7 => "7",
        8 => "8",
        9 => "9",
        10 => "a",
        11 => "b",
        12 => "c",
        13 => "d",
        14 => "e",
        _ => "f",
    }
}

/// Decode token ids to text, one hexadecimal digit per token.
fn hex_text(toks: &Vec<u32>) -> String {
    let mut s = String::new();
    let mut i: usize = 0;
    while i < toks.len()
        decreases toks@.len() - i,
    {
        s.append(hex_digit_str(toks[i]));
        i += 1;
    }
    s
}

} // verus!
