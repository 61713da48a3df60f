use vstd::prelude::*;

use crate::params::Logprobs;

verus! {

/// Why a sequence stopped generating.
#[derive(Clone, Copy, PartialEq, Eq, Structural, Debug)]
pub enum StopReason {
    /// The model emitted its end-of-sequence token.
    EosToken,
    /// The sampled token is in the request's stop set.
    StopToken,
    /// The token history reached the model's maximum context length.
    MaxLen,
    /// The caller dropped its response sink.
    Cancelled,
}

/// One message on a request's response sink. `Token` messages stream while
/// the sequence runs; the last message is terminal, either a `Done` with
/// the generated ids or a single `Error`.
pub enum Response {
    Token { id: u32, text: String, logprobs: Logprobs },
    Done { reason: StopReason, full_text: String, generated_ids: Vec<u32> },
    Error { message: String },
}

} // verus!
