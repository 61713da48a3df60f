use vstd::prelude::*;

verus! {

/// One layer of the pipeline's batched KV slab: key and value tensors
/// shaped `[batch, heads, rows, head_dim]`, with the batch size and the
/// number of cached positions tracked by the core itself.
pub struct LayerKv {
    pub k: candle_core::Tensor,
    pub v: candle_core::Tensor,
    pub batch: usize,
    pub rows: usize,
}

/// The per-layer batched KV slab the model reads and writes during one
/// forward pass. It is scratch for exactly one tick: gather overwrites
/// every layer before the forward, scatter distributes every layer back
/// to the scheduled sequences after it.
pub struct Cache {
    pub layers: Vec<Option<LayerKv>>,
}

/// A layer slot that is filled for a batch of `b` sequences with `rows`
/// cached positions each.
pub open spec fn layer_full(o: Option<LayerKv>, b: nat, rows: nat) -> bool {
    match o {
        Some(kv) => kv.batch == b && kv.rows == rows,
        None => false,
    }
}

/// The number of cached positions the slab holds, read off its first
/// layer; layers always agree when the slab is filled.
pub open spec fn cache_rows(c: Cache) -> nat {
    if c.layers@.len() > 0 {
        match c.layers@[0] {
            Some(kv) => kv.rows as nat,
            None => 0nat,
        }
    } else {
        0nat
    }
}

/// Every layer of the slab is filled for the same batch of `b` sequences
/// with the same number of cached positions.
pub open spec fn cache_uniform(c: Cache, b: nat) -> bool {
    forall|l: int| 0 <= l < c.layers@.len() ==> layer_full(#[trigger] c.layers@[l], b, cache_rows(c))
}

impl Cache {
    /// A slab with `len` empty layers.
    pub fn new(len: usize) -> (c: Cache)
        ensures
            c.layers@.len() == len,
            forall|l: int| 0 <= l < c.layers@.len() ==> #[trigger] c.layers@[l] is None,
    {
        let mut layers: Vec<Option<LayerKv>> = Vec::new();
        let mut i: usize = 0;
        while i < len
            invariant
                i <= len,
                layers@.len() == i,
                forall|l: int| 0 <= l < layers@.len() ==> #[trigger] layers@[l] is None,
            decreases len - i,
        {
            layers.push(None);
            i += 1;
        }
        Cache { layers }
    }

    pub fn num_layers(&self) -> (r: usize)
        ensures
            r == self.layers@.len(),
    {
        self.layers.len()
    }

    /// Empty every layer, keeping the layer count.
    pub fn clear(&mut self)
        ensures
            final(self).layers@.len() == old(self).layers@.len(),
            forall|l: int|
                0 <= l < final(self).layers@.len() ==> #[trigger] final(self).layers@[l] is None,
    {
        let n = self.layers.len();
        let fresh = Cache::new(n);
        self.layers = fresh.layers;
    }
}

} // verus!
