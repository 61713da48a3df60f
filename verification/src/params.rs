use vstd::prelude::*;

verus! {

/// How the next token is drawn once the logits row has been prepared:
/// either keep the `k` most probable entries, or keep the shortest
/// descending prefix whose cumulative probability mass reaches `p`.
///
/// The nucleus threshold is carried as the raw bit pattern of the
/// caller's 64-bit value; the verified core never interprets it, it
/// only routes it to whichever sampler backend performs the draw.
#[derive(Clone, Copy, PartialEq, Eq, Structural, Debug)]
pub enum SamplingMethod {
    TopK(u32),
    TopP(u64),
}

/// Per-request sampling policy. Real-valued knobs (temperature, the
/// nucleus threshold, the repetition penalty) travel as raw bit
/// patterns: the core only tests them for presence and routes them to
/// the sampler backend, which reinterprets them.
#[derive(Clone, Debug)]
pub struct SamplingParams {
    pub temperature_bits: u64,
    pub top_k: Option<u32>,
    pub top_p_bits: Option<u64>,
    pub top_n_logprobs: u32,
    pub repeat_penalty_bits: u32,
    pub stop_toks: Option<Vec<u32>>,
}

/// A request is admissible only when exactly one of `top_k` / `top_p`
/// is given.
pub open spec fn params_admissible(top_k: Option<u32>, top_p_bits: Option<u64>) -> bool {
    (top_k is Some && top_p_bits is None) || (top_k is None && top_p_bits is Some)
}

/// The sampling method an admissible pair of filter knobs resolves to.
pub open spec fn spec_method(top_k: Option<u32>, top_p_bits: Option<u64>) -> Option<
    SamplingMethod,
> {
    match (top_k, top_p_bits) {
        (Some(k), None) => Some(SamplingMethod::TopK(k)),
        (None, Some(p)) => Some(SamplingMethod::TopP(p)),
        _ => None,
    }
}

/// Resolve the admission constraint on the filter knobs: exactly one of
/// `top_k` / `top_p` must be given; both or neither is rejected.
pub fn choose_method(top_k: Option<u32>, top_p_bits: Option<u64>) -> (r: Option<SamplingMethod>)
    ensures
        r == spec_method(top_k, top_p_bits),
        r is Some <==> params_admissible(top_k, top_p_bits),
{
    match (top_k, top_p_bits) {
        (Some(k), None) => Some(SamplingMethod::TopK(k)),
        (None, Some(p)) => Some(SamplingMethod::TopP(p)),
        _ => None,
    }
}

/// Everything a sequence keeps for its own sampler: the RNG seed, the
/// temperature bits, the resolved filter method and the tracing knobs.
/// Owned per sequence so that reproducibility does not depend on how
/// ticks are packed.
#[derive(Clone, Debug)]
pub struct SamplerState {
    pub seed: u64,
    pub temperature_bits: u64,
    pub method: SamplingMethod,
    pub top_n_logprobs: u32,
    pub repeat_penalty_bits: u32,
}

/// One alternative considered for a sampled position, with the log
/// probability carried as its raw 32-bit pattern.
#[derive(Clone, Debug)]
pub struct TopLogprob {
    pub token: u32,
    pub logprob_bits: u32,
}

/// The outcome of sampling one position: the chosen token, its log
/// probability (as raw bits) and the traced alternatives, sorted by the
/// backend in descending log-probability order.
#[derive(Clone, Debug)]
pub struct Logprobs {
    pub token: u32,
    pub logprob_bits: u32,
    pub top_logprobs: Vec<TopLogprob>,
}

} // verus!
