use vstd::prelude::*;

use crate::cache::{Cache, LayerKv, cache_rows, cache_uniform, layer_full};
use crate::request::{KvSlot, Sequence, slot_rows};
use crate::tensors::{
    cat_front,
    chunk_front,
    clone_tensor,
    device_of,
    dims_of,
    dtype_of,
    pad_positions,
    squeeze_front,
    unsqueeze_front,
    zeros4,
};

verus! {

/// The number of cached positions a sequence holds, read off its first
/// layer; a well-formed sequence's layers all agree.
pub open spec fn seq_rows(s: Sequence) -> nat {
    if s.kv@.len() > 0 {
        slot_rows(s.kv@[0])
    } else {
        0nat
    }
}

/// The largest per-sequence cached length in a batch; the tick pads every
/// gathered slab to it.
pub open spec fn max_kv_rows(batch: Seq<Sequence>) -> nat
    decreases batch.len(),
{
    if batch.len() == 0 {
        0nat
    } else {
        let rest = max_kv_rows(batch.drop_last());
        if seq_rows(batch.last()) > rest {
            seq_rows(batch.last())
        } else {
            rest
        }
    }
}

/// The cached length of a sequence's first layer slot.
fn slot0_rows(s: &Sequence) -> (r: usize)
    ensures
        r as nat == seq_rows(*s),
{
    if s.kv.len() > 0 {
        match &s.kv[0] {
            Some(slot) => slot.rows,
            None => 0,
        }
    } else {
        0
    }
}

/// Shape and element information of the first filled slot a batch has at
/// layer `l`, used to size the zero-filled stand-ins of sequences that
/// have no cached positions yet.
fn template_info(batch: &Vec<Sequence>, l: usize) -> (r: Option<
    (Vec<usize>, candle_core::DType, candle_core::Device),
>)
    requires
        forall|i: int| 0 <= i < batch@.len() ==> l < (#[trigger] batch@[i]).kv@.len(),
{
    let mut j: usize = 0;
    while j < batch.len()
        invariant
            forall|i: int| 0 <= i < batch@.len() ==> l < (#[trigger] batch@[i]).kv@.len(),
        decreases batch@.len() - j,
    {
        match &batch[j].kv[l] {
            Some(slot) => {
                return Some((dims_of(&slot.k), dtype_of(&slot.k), device_of(&slot.k)));
            },
            None => {},
        }
        j += 1;
    }
    None
}

/// Gather the scheduled sequences' per-layer KV slots into the pipeline's
/// batched slab: each filled slot is lifted to `[1, heads, rows, head_dim]`
/// and right-padded to the batch's largest cached length, an empty slot
/// contributes a zero-filled stand-in of the same shape, and the parts are
/// concatenated in batch order. When no sequence has cached positions yet
/// (a pure prompt-ingest tick) every layer is left empty instead. On any
/// backend error the slab is left as it was.
pub fn gather(cache: &mut Cache, batch: &Vec<Sequence>) -> (r: Result<(), String>)
    requires
        batch@.len() >= 1,
        forall|i: int|
            0 <= i < batch@.len() ==> (#[trigger] batch@[i]).wf() && batch@[i].kv@.len() == old(
                cache,
            ).layers@.len(),
    ensures
        final(cache).layers@.len() == old(cache).layers@.len(),
        r is Err ==> final(cache).layers == old(cache).layers,
        max_kv_rows(batch@) == 0 ==> r is Ok,
        r is Ok ==> forall|l: int|
            0 <= l < final(cache).layers@.len() ==> (if max_kv_rows(batch@) == 0 {
                final(cache).layers@[l] is None
            } else {
                layer_full(
                    #[trigger] final(cache).layers@[l],
                    batch@.len() as nat,
                    max_kv_rows(batch@),
                )
            }),
{
    let b: usize = batch.len();
    let ell: usize = cache.num_layers();

    // The padded width of this tick's slab.
    let mut m: usize = 0;
    let mut i: usize = 0;
    while i < b
        invariant
            i <= b,
            b == batch@.len(),
            m as nat == max_kv_rows(batch@.take(i as int)),
            cache.layers == old(cache).layers,
        decreases b - i,
    {
        let ri = slot0_rows(&batch[i]);
        if ri > m {
            m = ri;
        }
        i += 1;
        proof {
            assert(batch@.take(i as int).drop_last() =~= batch@.take(i - 1));
            assert(batch@.take(i as int).last() == batch@[i - 1]);
        }
    }
    proof {
        assert(batch@.take(b as int) =~= batch@);
    }

    let mut new_layers: Vec<Option<LayerKv>> = Vec::new();
    if m == 0 {
        let mut l: usize = 0;
        while l < ell
            invariant
                l <= ell,
                new_layers@.len() == l,
                forall|x: int| 0 <= x < new_layers@.len() ==> #[trigger] new_layers@[x] is None,
                cache.layers == old(cache).layers,
                ell == old(cache).layers@.len(),
            decreases ell - l,
        {
            new_layers.push(None);
            l += 1;
        }
        cache.layers = new_layers;
        return Ok(());
    }

    let mut l: usize = 0;
    while l < ell
        invariant
            l <= ell,
            b == batch@.len(),
            b >= 1,
            m >= 1,
            m as nat == max_kv_rows(batch@),
            forall|i: int|
                0 <= i < batch@.len() ==> (#[trigger] batch@[i]).wf() && batch@[i].kv@.len()
                    == ell,
            new_layers@.len() == l,
            forall|x: int|
                0 <= x < new_layers@.len() ==> layer_full(
                    #[trigger] new_layers@[x],
                    b as nat,
                    m as nat,
                ),
            cache.layers == old(cache).layers,
            ell == old(cache).layers@.len(),
        decreases ell - l,
    {
        let tmpl = match template_info(batch, l) {
            Some(t) => t,
            None => {
                return Err("a sequence holds cached positions but this layer's slot is empty"
                    .to_string());
            },
        };
        let (dims, dt, dev) = tmpl;
        if dims.len() != 3 {
            return Err("a cached key tensor is not of rank three".to_string());
        }
        let heads: usize = dims[0];
        let head_dim: usize = dims[2];

        let mut k_parts: Vec<candle_core::Tensor> = Vec::new();
        let mut v_parts: Vec<candle_core::Tensor> = Vec::new();
        let mut i: usize = 0;
        while i < b
            invariant
                i <= b,
                b == batch@.len(),
                l < ell,
                m >= 1,
                m as nat == max_kv_rows(batch@),
                forall|x: int|
                    0 <= x < batch@.len() ==> (#[trigger] batch@[x]).wf() && batch@[x].kv@.len()
                        == ell,
                cache.layers == old(cache).layers,
                ell == old(cache).layers@.len(),
            decreases b - i,
        {
            match &batch[i].kv[l] {
                Some(slot) => {
                    let ku = unsqueeze_front(&slot.k)?;
                    let vu = unsqueeze_front(&slot.v)?;
                    let kp = if slot.rows < m {
                        pad_positions(&ku, m - slot.rows)?
                    } else {
                        ku
                    };
                    let vp = if slot.rows < m {
                        pad_positions(&vu, m - slot.rows)?
                    } else {
                        vu
                    };
                    k_parts.push(kp);
                    v_parts.push(vp);
                },
                None => {
                    k_parts.push(zeros4(1, heads, m, head_dim, &dt, &dev)?);
                    v_parts.push(zeros4(1, heads, m, head_dim, &dt, &dev)?);
                },
            }
            i += 1;
        }
        let k = cat_front(&k_parts)?;
        let v = cat_front(&v_parts)?;
        new_layers.push(Some(LayerKv { k, v, batch: b, rows: m }));
        l += 1;
    }
    cache.layers = new_layers;
    Ok(())
}

/// The relation scatter establishes between a scheduled sequence before
/// and after the tick's slab is distributed back: every layer slot is
/// filled with the slab's cached length, and everything else is unchanged.
pub open spec fn scattered(post: Sequence, pre: Sequence, layers: nat, rows: nat) -> bool {
    &&& post.kv@.len() == layers
    &&& forall|l: int|
        0 <= l < post.kv@.len() ==> #[trigger] post.kv@[l] is Some && slot_rows(post.kv@[l])
            == rows
    &&& post.tokens == pre.tokens
    &&& post.prompt_len == pre.prompt_len
    &&& post.gen_idx == pre.gen_idx
    &&& post.id == pre.id
    &&& post.state == pre.state
    &&& post.sampler == pre.sampler
    &&& post.stop_tokens == pre.stop_tokens
    &&& post.responder == pre.responder
    &&& post.max_ctx == pre.max_ctx
    &&& post.wf()
    &&& !post.finished()
}

/// Scatter the pipeline's batched slab back into per-sequence slots: each
/// layer is split along the batch axis into one chunk per scheduled
/// sequence, and chunk `i`, squeezed back to `[heads, rows, head_dim]`,
/// becomes sequence `i`'s slot for that layer. All tensor work happens
/// before any sequence is touched, so on a backend error the batch comes
/// back unchanged.
pub fn scatter(cache: &Cache, batch: Vec<Sequence>) -> (r: Result<
    Vec<Sequence>,
    (Vec<Sequence>, String),
>)
    requires
        batch@.len() >= 1,
        cache_uniform(*cache, batch@.len() as nat),
        forall|i: int|
            0 <= i < batch@.len() ==> (#[trigger] batch@[i]).wf() && !batch@[i].finished(),
    ensures
        r matches Ok(out) ==> {
            &&& out@.len() == batch@.len()
            &&& forall|i: int|
                0 <= i < out@.len() ==> scattered(
                    #[trigger] out@[i],
                    batch@[i],
                    cache.layers@.len() as nat,
                    cache_rows(*cache),
                )
        },
        r matches Err(e) ==> e.0 == batch,
{
    let b: usize = batch.len();
    let ell: usize = cache.num_layers();

    let rows: usize = if ell > 0 {
        match &cache.layers[0] {
            Some(kv) => kv.rows,
            None => 0,
        }
    } else {
        0
    };
    assert(rows as nat == cache_rows(*cache));

    // Split and squeeze every layer before any sequence is modified.
    let mut k_chunks: Vec<Vec<candle_core::Tensor>> = Vec::new();
    let mut v_chunks: Vec<Vec<candle_core::Tensor>> = Vec::new();
    let mut l: usize = 0;
    while l < ell
        invariant
            l <= ell,
            ell == cache.layers@.len(),
            b == batch@.len(),
            b >= 1,
            cache_uniform(*cache, b as nat),
            k_chunks@.len() == l,
            v_chunks@.len() == l,
            forall|x: int| 0 <= x < l ==> (#[trigger] k_chunks@[x])@.len() == b,
            forall|x: int| 0 <= x < l ==> (#[trigger] v_chunks@[x])@.len() == b,
        decreases ell - l,
    {
        match &cache.layers[l] {
            Some(kv) => {
                let kc = match chunk_front(&kv.k, b) {
                    Ok(c) => c,
                    Err(e) => {
                        return Err((batch, e));
                    },
                };
                let vc = match chunk_front(&kv.v, b) {
                    Ok(c) => c,
                    Err(e) => {
                        return Err((batch, e));
                    },
                };
                if kc.len() != b || vc.len() != b {
                    return Err((batch, "the slab split into the wrong number of chunks"
                        .to_string()));
                }
                let mut ks: Vec<candle_core::Tensor> = Vec::new();
                let mut vs: Vec<candle_core::Tensor> = Vec::new();
                let mut i: usize = 0;
                while i < b
                    invariant
                        i <= b,
                        kc@.len() == b,
                        vc@.len() == b,
                        ks@.len() == i,
                        vs@.len() == i,
                    decreases b - i,
                {
                    let kt = match squeeze_front(&kc[i]) {
                        Ok(t) => t,
                        Err(e) => {
                            return Err((batch, e));
                        },
                    };
                    let vt = match squeeze_front(&vc[i]) {
                        Ok(t) => t,
                        Err(e) => {
                            return Err((batch, e));
                        },
                    };
                    ks.push(kt);
                    vs.push(vt);
                    i += 1;
                }
                k_chunks.push(ks);
                v_chunks.push(vs);
            },
            None => {
                return Err((batch, "the slab has an empty layer".to_string()));
            },
        }
        l += 1;
    }

    // Hand each sequence its column of the slab.
    let ghost orig: Seq<Sequence> = batch@;
    let mut rest = batch;
    let mut out: Vec<Sequence> = Vec::new();
    while rest.len() > 0
        invariant
            out@.len() + rest@.len() == orig.len(),
            rest@ == orig.skip(out@.len() as int),
            ell == cache.layers@.len(),
            rows as nat == cache_rows(*cache),
            k_chunks@.len() == ell,
            v_chunks@.len() == ell,
            forall|x: int| 0 <= x < ell ==> (#[trigger] k_chunks@[x])@.len() == orig.len(),
            forall|x: int| 0 <= x < ell ==> (#[trigger] v_chunks@[x])@.len() == orig.len(),
            forall|i: int|
                0 <= i < orig.len() ==> (#[trigger] orig[i]).wf() && !orig[i].finished(),
            forall|i: int|
                0 <= i < out@.len() ==> scattered(
                    #[trigger] out@[i],
                    orig[i],
                    ell as nat,
                    rows as nat,
                ),
        decreases rest@.len(),
    {
        let mut s = rest.remove(0);
        let idx: usize = out.len();
        assert(s == orig[idx as int]);
        let mut new_kv: Vec<Option<KvSlot>> = Vec::new();
        let mut l: usize = 0;
        while l < ell
            invariant
                l <= ell,
                idx < orig.len(),
                k_chunks@.len() == ell,
                v_chunks@.len() == ell,
                forall|x: int| 0 <= x < ell ==> (#[trigger] k_chunks@[x])@.len() == orig.len(),
                forall|x: int| 0 <= x < ell ==> (#[trigger] v_chunks@[x])@.len() == orig.len(),
                new_kv@.len() == l,
                forall|x: int|
                    0 <= x < new_kv@.len() ==> #[trigger] new_kv@[x] is Some && slot_rows(
                        new_kv@[x],
                    ) == rows as nat,
            decreases ell - l,
        {
            let kt = clone_tensor(&k_chunks[l][idx]);
            let vt = clone_tensor(&v_chunks[l][idx]);
            new_kv.push(Some(KvSlot { k: kt, v: vt, rows }));
            l += 1;
        }
        s.kv = new_kv;
        proof {
            assert(rest@ =~= orig.skip(out@.len() as int + 1));
        }
        out.push(s);
    }
    Ok(out)
}

/// The shape round trip of the slab: once scatter has distributed a
/// filled slab of batch `b` and cached length `rows` to the scheduled
/// sequences, every sequence holds `rows` positions, so the padded width
/// a re-gather computes is again `rows` — by gather's contract the
/// rebuilt slab has exactly the original batch and row shape. The tensor
/// payloads are opaque to the core and are not compared.
pub proof fn lemma_scatter_gather_shape(pre: Cache, mid: Seq<Sequence>, b: nat)
    requires
        b >= 1,
        mid.len() == b,
        forall|i: int| 0 <= i < mid.len() ==> seq_rows(#[trigger] mid[i]) == cache_rows(pre),
    ensures
        max_kv_rows(mid) == cache_rows(pre),
    decreases mid.len(),
{
    assert(seq_rows(mid.last()) == cache_rows(pre));
    if mid.len() == 1 {
        assert(mid.drop_last().len() == 0);
        assert(max_kv_rows(mid.drop_last()) == 0);
    } else {
        assert(forall|i: int|
            0 <= i < mid.drop_last().len() ==> #[trigger] mid.drop_last()[i] == mid[i]);
        lemma_scatter_gather_shape(pre, mid.drop_last(), (b - 1) as nat);
    }
    assert(max_kv_rows(mid) == (if seq_rows(mid.last()) > max_kv_rows(mid.drop_last()) {
        seq_rows(mid.last())
    } else {
        max_kv_rows(mid.drop_last())
    }));
}

} // verus!
