use std::sync::mpsc::channel;

use candle_core::{DType, Device, Tensor};
use fx_core::cache::{Cache, LayerKv};
use fx_core::marshal::{gather, scatter};
use fx_core::params::{SamplerState, SamplingMethod, SamplingParams, choose_method};
use fx_core::pipeline::build_contexts;
use fx_core::request::{ResponseSink, Sequence, SequenceState};
use fx_core::response::{Response, StopReason};
use fx_core::stub::{hex_tokens, next_echo_token};

fn sampler() -> SamplerState {
    SamplerState {
        seed: 0,
        temperature_bits: 0,
        method: SamplingMethod::TopK(1),
        top_n_logprobs: 0,
        repeat_penalty_bits: 1.0f32.to_bits(),
    }
}

fn seq_with(prompt: Vec<u32>, layers: usize, max_ctx: usize) -> Sequence {
    let (tx, _rx) = channel::<Response>();
    Sequence::new_waiting(prompt, 0, layers, ResponseSink::new(tx), sampler(), Vec::new(), max_ctx)
}

#[test]
fn choose_method_takes_exactly_one_filter() {
    assert_eq!(choose_method(Some(3), None), Some(SamplingMethod::TopK(3)));
    assert_eq!(choose_method(None, Some(7)), Some(SamplingMethod::TopP(7)));
    assert_eq!(choose_method(None, None), None);
    assert_eq!(choose_method(Some(3), Some(7)), None);
}

#[test]
fn hex_tokens_encodes_digits_and_rejects_the_rest() {
    assert_eq!(hex_tokens(b"123").unwrap(), vec![1, 2, 3]);
    assert_eq!(hex_tokens(b"0e9af").unwrap(), vec![0, 14, 9, 10, 15]);
    assert!(hex_tokens(b"").is_err());
    assert!(hex_tokens(b"1g").is_err());
    assert!(hex_tokens(b"A").is_err());
}

#[test]
fn is_done_orders_eos_stop_and_max_len() {
    let mut s = seq_with(vec![1, 2], 2, 3);
    s.add_token(5);
    // history now has 3 tokens, at the bound
    assert_eq!(s.is_done(15, 15), Some(StopReason::EosToken));
    assert_eq!(s.is_done(5, 15), Some(StopReason::MaxLen));

    let s2 = seq_with(vec![1, 2], 2, 10);
    assert_eq!(s2.is_done(5, 15), None);

    let (tx, _rx) = channel::<Response>();
    let s3 = Sequence::new_waiting(vec![1], 0, 2, ResponseSink::new(tx), sampler(), vec![4], 10);
    assert_eq!(s3.is_done(4, 15), Some(StopReason::StopToken));
    assert_eq!(s3.is_done(15, 15), Some(StopReason::EosToken));
}

#[test]
fn add_token_counts_the_pass_and_appends() {
    let mut s = seq_with(vec![3, 1], 2, 10);
    assert_eq!(s.gen_idx, 0);
    assert!(matches!(s.state, SequenceState::Waiting));
    s.add_token(9);
    assert_eq!(s.tokens, vec![3, 1, 9]);
    assert_eq!(s.gen_idx, 1);
    assert!(matches!(s.state, SequenceState::RunningDecode));
}

#[test]
fn echo_token_follows_the_formula() {
    let mut s = seq_with(vec![1, 2, 3], 2, 100);
    assert_eq!(next_echo_token(&s), 7);
    s.add_token(7);
    assert_eq!(next_echo_token(&s), 8);
    s.add_token(8);
    assert_eq!(next_echo_token(&s), 9);

    let e = seq_with(vec![14], 2, 100);
    assert_eq!(next_echo_token(&e), 15);
}

#[test]
fn build_contexts_pads_and_offsets_a_mixed_batch() {
    let r1 = seq_with(vec![1, 1], 2, 100);
    let r2 = seq_with(vec![2, 2, 2], 2, 100);
    let input = build_contexts(&vec![r1, r2]);
    assert_eq!(input.width, 3);
    assert_eq!(input.offsets, vec![0, 0]);
    assert_eq!(input.rows, vec![vec![1, 1, 0], vec![2, 2, 2]]);
}

#[test]
fn build_contexts_uses_one_token_for_decode_steps() {
    let mut r1 = seq_with(vec![1, 1], 2, 100);
    r1.add_token(9);
    let r2 = seq_with(vec![2, 2, 2], 2, 100);
    let input = build_contexts(&vec![r1, r2]);
    // the decode row contributes its last token at offset 2
    assert_eq!(input.width, 3);
    assert_eq!(input.offsets, vec![2, 0]);
    assert_eq!(input.rows, vec![vec![9, 0, 0], vec![2, 2, 2]]);
}

fn filled_cache(layers: usize, batch: usize, rows: usize) -> Cache {
    let dev = Device::Cpu;
    let mut slots = Vec::new();
    for _ in 0..layers {
        let k = Tensor::zeros((batch, 1, rows, 1), DType::U8, &dev).unwrap();
        let v = Tensor::zeros((batch, 1, rows, 1), DType::U8, &dev).unwrap();
        slots.push(Some(LayerKv { k, v, batch, rows }));
    }
    Cache { layers: slots }
}

#[test]
fn scatter_then_gather_restores_the_slab_shape() {
    let cache = filled_cache(2, 2, 3);
    let batch = vec![seq_with(vec![1, 2, 3], 2, 100), seq_with(vec![4, 5], 2, 100)];

    let batch = scatter(&cache, batch).ok().unwrap();
    for s in &batch {
        assert_eq!(s.kv.len(), 2);
        for slot in &s.kv {
            let slot = slot.as_ref().unwrap();
            assert_eq!(slot.rows, 3);
            assert_eq!(slot.k.dims(), &[1, 3, 1]);
            assert_eq!(slot.v.dims(), &[1, 3, 1]);
        }
    }

    let mut rebuilt = Cache::new(2);
    gather(&mut rebuilt, &batch).unwrap();
    assert_eq!(rebuilt.layers.len(), 2);
    for (before, after) in cache.layers.iter().zip(rebuilt.layers.iter()) {
        let before = before.as_ref().unwrap();
        let after = after.as_ref().unwrap();
        assert_eq!(after.batch, before.batch);
        assert_eq!(after.rows, before.rows);
        assert_eq!(after.k.dims(), before.k.dims());
        assert_eq!(after.v.dims(), before.v.dims());
    }
}

#[test]
fn gather_with_no_cached_positions_leaves_the_slab_empty() {
    let mut cache = Cache::new(2);
    let batch = vec![seq_with(vec![1, 2], 2, 100)];
    gather(&mut cache, &batch).unwrap();
    assert_eq!(cache.layers.len(), 2);
    for layer in &cache.layers {
        assert!(layer.is_none());
    }
}

#[test]
fn gather_pads_shorter_sequences() {
    // one sequence with three cached positions, one with none yet
    let cache = filled_cache(2, 1, 3);
    let with_kv = scatter(&cache, vec![seq_with(vec![1, 2, 3], 2, 100)]).ok().unwrap();
    let fresh = seq_with(vec![7], 2, 100);
    let batch = vec![with_kv.into_iter().next().unwrap(), fresh];

    let mut slab = Cache::new(2);
    gather(&mut slab, &batch).unwrap();
    for layer in &slab.layers {
        let layer = layer.as_ref().unwrap();
        assert_eq!(layer.batch, 2);
        assert_eq!(layer.rows, 3);
        assert_eq!(layer.k.dims(), &[2, 1, 3, 1]);
    }
}

#[test]
fn sampling_params_carry_their_bits() {
    let p = SamplingParams {
        temperature_bits: 0.7f64.to_bits(),
        top_k: None,
        top_p_bits: Some(0.9f64.to_bits()),
        top_n_logprobs: 2,
        repeat_penalty_bits: 1.2f32.to_bits(),
        stop_toks: Some(vec![2, 3]),
    };
    assert_eq!(f64::from_bits(p.temperature_bits), 0.7);
    assert_eq!(f64::from_bits(p.top_p_bits.unwrap()), 0.9);
    assert_eq!(f32::from_bits(p.repeat_penalty_bits), 1.2);
}
