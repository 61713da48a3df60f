use vstd::prelude::*;

use crate::cache::{Cache, cache_rows, cache_uniform};
use crate::params::Logprobs;
use crate::request::Sequence;

verus! {

/// Where the loader finds an access token for the model hub: an
/// environment variable, a file, or the hub's cached login.
pub enum TokenSource {
    EnvVar(String),
    Path(String),
    CacheToken,
}

/// The files a loaded model is read from.
pub trait ModelPaths {
    fn get_weight_filenames(&self) -> &Vec<std::path::PathBuf>;

    fn get_config_filename(&self) -> &std::path::PathBuf;

    fn get_tokenizer_filename(&self) -> &std::path::PathBuf;
}

/// The standard file system path type, opaque here: the core only passes
/// paths between the loader's stages.
#[verifier::external_type_specification]
#[verifier::external_body]
pub struct ExPathBuf(std::path::PathBuf);

/// Model files laid out as three plain paths.
pub struct SimpleModelPaths<P> {
    pub tokenizer_filename: P,
    pub config_filename: P,
    pub filenames: Vec<P>,
}

impl ModelPaths for SimpleModelPaths<std::path::PathBuf> {
    fn get_weight_filenames(&self) -> &Vec<std::path::PathBuf> {
        &self.filenames
    }

    fn get_config_filename(&self) -> &std::path::PathBuf {
        &self.config_filename
    }

    fn get_tokenizer_filename(&self) -> &std::path::PathBuf {
        &self.tokenizer_filename
    }
}

/// Settings specific to the Mistral model family.
pub struct MistralSpecificConfig {
    pub use_flash_attn: bool,
}

/// The narrow contract the engine sees of a model. One forward pass per
/// tick reads the batched input and the gathered KV slab and must leave
/// every layer of the slab filled for the same batch with the same number
/// of cached positions; sampling turns one logits row into one token.
pub trait Pipeline: Sized {
    /// How many hidden layers the model has; the engine sizes the KV slab
    /// by it once, at construction.
    fn num_hidden_layers(&self) -> usize;

    /// The model's end-of-sequence token.
    fn eos_tok(&self) -> u32;

    /// Encode a prompt; an accepted prompt yields at least one token.
    fn tokenize_prompt(&self, prompt: &String) -> (r: Result<Vec<u32>, String>)
        ensures
            r matches Ok(toks) ==> toks@.len() >= 1,
    ;

    /// Decode token ids to text for the caller's benefit.
    fn detokenize(&self, toks: &Vec<u32>) -> String;

    /// The placement new tensors should live on.
    fn device(&self) -> &candle_core::Device;

    /// One forward pass over the scheduled batch. On success the slab
    /// holds, for every layer, the batch's updated keys and values with
    /// one shared positive cached length.
    fn forward(&mut self, batch: &Vec<Sequence>, cache: &mut Cache) -> (r: Result<
        candle_core::Tensor,
        String,
    >)
        requires
            batch@.len() >= 1,
            forall|i: int| 0 <= i < batch@.len() ==> (#[trigger] batch@[i]).wf(),
        ensures
            final(cache).layers@.len() == old(cache).layers@.len(),
            r is Ok ==> cache_uniform(*final(cache), batch@.len() as nat),
            r is Ok && final(cache).layers@.len() > 0 ==> cache_rows(*final(cache)) >= 1,
    ;

    /// Sample the next token for `seq` from its logits row.
    fn sample(&mut self, logits: &candle_core::Tensor, seq: &Sequence) -> (r: Result<
        Logprobs,
        String,
    >)
        requires
            seq.wf(),
    ;
}

/// The context a sequence contributes to the next forward pass: its whole
/// prompt on its first pass, only its last token afterwards.
pub open spec fn ctx_len(s: Sequence) -> nat {
    if s.gen_idx > 0 {
        1nat
    } else {
        s.tokens@.len()
    }
}

/// Where that context starts in the sequence's history: the position
/// offset handed to the model.
pub open spec fn ctx_offset(s: Sequence) -> nat {
    (s.tokens@.len() - ctx_len(s)) as nat
}

/// The widest context in a batch; every input row is padded to it.
pub open spec fn max_ctx_len(batch: Seq<Sequence>) -> nat
    decreases batch.len(),
{
    if batch.len() == 0 {
        0nat
    } else {
        let rest = max_ctx_len(batch.drop_last());
        if ctx_len(batch.last()) > rest {
            ctx_len(batch.last())
        } else {
            rest
        }
    }
}

/// One padded input row: the sequence's context, right-padded with the
/// padding token to the batch's width.
pub open spec fn padded_row(s: Sequence, width: nat) -> Seq<u32> {
    s.tokens@.skip(ctx_offset(s) as int) + Seq::new((width - ctx_len(s)) as nat, |j: int| 0u32)
}

/// The dense rectangular input of one tick: one padded token row and one
/// position offset per scheduled sequence, in batch order.
pub struct BatchInput {
    pub rows: Vec<Vec<u32>>,
    pub offsets: Vec<usize>,
    pub width: usize,
}

/// Every context fits within the batch's width.
pub proof fn lemma_ctx_le_max(batch: Seq<Sequence>, i: int)
    requires
        0 <= i < batch.len(),
    ensures
        ctx_len(batch[i]) <= max_ctx_len(batch),
    decreases batch.len(),
{
    if i + 1 == batch.len() {
        assert(batch.last() == batch[i]);
    } else {
        lemma_ctx_le_max(batch.drop_last(), i);
        assert(batch.drop_last()[i] == batch[i]);
    }
}

/// The context length of one sequence.
fn ctx_len_of(s: &Sequence) -> (r: usize)
    requires
        s.wf(),
    ensures
        r as nat == ctx_len(*s),
{
    if s.gen_idx > 0 {
        1
    } else {
        s.tokens.len()
    }
}

/// Assemble the model's input for one tick: for each scheduled sequence,
/// its context (the whole prompt on a prompt-ingest pass, the last token
/// on a decode pass) right-padded with token `0` to the batch's widest
/// context, together with its position offset.
pub fn build_contexts(batch: &Vec<Sequence>) -> (r: BatchInput)
    requires
        batch@.len() >= 1,
        forall|i: int| 0 <= i < batch@.len() ==> (#[trigger] batch@[i]).wf(),
    ensures
        r.rows@.len() == batch@.len(),
        r.offsets@.len() == batch@.len(),
        r.width as nat == max_ctx_len(batch@),
        forall|i: int|
            0 <= i < batch@.len() ==> (#[trigger] r.offsets@[i]) as nat == ctx_offset(batch@[i]),
        forall|i: int|
            0 <= i < batch@.len() ==> (#[trigger] r.rows@[i])@ == padded_row(
                batch@[i],
                r.width as nat,
            ),
{
    let b: usize = batch.len();

    let mut width: usize = 0;
    let mut i: usize = 0;
    while i < b
        invariant
            i <= b,
            b == batch@.len(),
            forall|x: int| 0 <= x < batch@.len() ==> (#[trigger] batch@[x]).wf(),
            width as nat == max_ctx_len(batch@.take(i as int)),
        decreases b - i,
    {
        let cl = ctx_len_of(&batch[i]);
        if cl > width {
            width = cl;
        }
        i += 1;
        proof {
            assert(batch@.take(i as int).drop_last() =~= batch@.take(i - 1));
            assert(batch@.take(i as int).last() == batch@[i - 1]);
        }
    }
    proof {
        assert(batch@.take(b as int) =~= batch@);
    }

    let mut rows: Vec<Vec<u32>> = Vec::new();
    let mut offsets: Vec<usize> = Vec::new();
    let mut i: usize = 0;
    while i < b
        invariant
            i <= b,
            b == batch@.len(),
            forall|x: int| 0 <= x < batch@.len() ==> (#[trigger] batch@[x]).wf(),
            width as nat == max_ctx_len(batch@),
            rows@.len() == i,
            offsets@.len() == i,
            forall|x: int|
                0 <= x < i ==> (#[trigger] offsets@[x]) as nat == ctx_offset(batch@[x]),
            forall|x: int|
                0 <= x < i ==> (#[trigger] rows@[x])@ == padded_row(batch@[x], width as nat),
        decreases b - i,
    {
        proof {
            lemma_ctx_le_max(batch@, i as int);
        }
        let s = &batch[i];
        let cl = ctx_len_of(s);
        let off: usize = s.tokens.len() - cl;
        let mut row: Vec<u32> = Vec::new();
        let mut j: usize = off;
        while j < s.tokens.len()
            invariant
                s.wf(),
                off as nat == ctx_offset(*s),
                off <= j <= s.tokens@.len(),
                row@ == s.tokens@.subrange(off as int, j as int),
            decreases s.tokens@.len() - j,
        {
            let t = s.tokens[j];
            row.push(t);
            j += 1;
            proof {
                assert(row@ =~= s.tokens@.subrange(off as int, j as int));
            }
        }
        let mut p: usize = row.len();
        while p < width
            invariant
                row@.len() == p,
                cl <= p <= width,
                cl as nat == ctx_len(*s),
                off as nat == ctx_offset(*s),
                s.wf(),
                row@ == s.tokens@.skip(off as int) + Seq::new((p - cl) as nat, |x: int| 0u32),
            decreases width - p,
        {
            row.push(0);
            p += 1;
            proof {
                assert(row@ =~= s.tokens@.skip(off as int) + Seq::new(
                    (p - cl) as nat,
                    |x: int| 0u32,
                ));
            }
        }
        proof {
            assert(row@ =~= padded_row(batch@[i as int], width as nat));
        }
        rows.push(row);
        offsets.push(off);
        i += 1;
    }
    BatchInput { rows, offsets, width }
}

} // verus!
