use vstd::prelude::*;

verus! {

/// The dense tensor type of the accelerator backend, carried through the
/// core as an opaque value: the core does its own shape bookkeeping and
/// never looks inside a tensor.
#[verifier::external_type_specification]
#[verifier::external_body]
pub struct ExTensor(candle_core::Tensor);

/// The backend's error type; it reaches the core only through tensor
/// operations, whose wrappers turn it into a message string.
#[verifier::external_type_specification]
#[verifier::external_body]
pub struct ExCandleError(candle_core::Error);

/// The placement handle (host or accelerator) tensors are created on.
#[verifier::external_type_specification]
#[verifier::external_body]
pub struct ExDevice(candle_core::Device);

/// The element-type tag of a tensor.
#[verifier::external_type_specification]
#[verifier::external_body]
pub struct ExDType(candle_core::DType);

/// Relies on candle_core::Tensor::clone: a tensor is a reference-counted
/// view onto shared storage, so the clone denotes the same data.
#[verifier::external_body]
pub(crate) fn clone_tensor(t: &candle_core::Tensor) -> candle_core::Tensor {
    t.clone()
}

/// Relies on candle_core::Tensor::unsqueeze with axis 0: prepends an axis
/// of size one.
#[verifier::external_body]
pub(crate) fn unsqueeze_front(t: &candle_core::Tensor) -> Result<candle_core::Tensor, String> {
    t.unsqueeze(0).map_err(|e| e.to_string())
}

/// Relies on candle_core::Tensor::squeeze with axis 0: removes the leading
/// axis when its size is one.
#[verifier::external_body]
pub(crate) fn squeeze_front(t: &candle_core::Tensor) -> Result<candle_core::Tensor, String> {
    t.squeeze(0).map_err(|e| e.to_string())
}

/// Relies on candle_core::Tensor::cat with axis 0: concatenates the given
/// tensors along their leading axis.
#[verifier::external_body]
pub(crate) fn cat_front(parts: &Vec<candle_core::Tensor>) -> Result<candle_core::Tensor, String> {
    candle_core::Tensor::cat(parts, 0).map_err(|e| e.to_string())
}

/// Relies on candle_core::Tensor::chunk with axis 0: it returns exactly
/// `n` pieces when the axis is at least `n` long and one per position
/// otherwise, so never more than `n`; callers needing an exact count
/// check it themselves. Asking for zero chunks would divide by zero
/// inside the backend, so that is ruled out.
#[verifier::external_body]
pub(crate) fn chunk_front(t: &candle_core::Tensor, n: usize) -> (r: Result<
    Vec<candle_core::Tensor>,
    String,
>)
    requires
        n >= 1,
    ensures
        r matches Ok(v) ==> v@.len() <= n,
{
    t.chunk(n, 0).map_err(|e| e.to_string())
}

/// Relies on candle_core::Tensor::pad_with_zeros on axis 2, the cached
/// position axis of a `[batch, heads, positions, head_dim]` tensor: appends
/// `extra` zero-filled positions.
#[verifier::external_body]
pub(crate) fn pad_positions(t: &candle_core::Tensor, extra: usize) -> Result<
    candle_core::Tensor,
    String,
> {
    t.pad_with_zeros(2, 0, extra).map_err(|e| e.to_string())
}

/// Relies on candle_core::Tensor::zeros: a fresh zero-filled rank-4 tensor
/// of the given sizes.
#[verifier::external_body]
pub(crate) fn zeros4(
    d0: usize,
    d1: usize,
    d2: usize,
    d3: usize,
    dtype: &candle_core::DType,
    device: &candle_core::Device,
) -> Result<candle_core::Tensor, String> {
    candle_core::Tensor::zeros((d0, d1, d2, d3), *dtype, device).map_err(|e| e.to_string())
}

/// Relies on candle_core::Tensor::dims: the size of each axis, in order.
#[verifier::external_body]
pub(crate) fn dims_of(t: &candle_core::Tensor) -> Vec<usize> {
    t.dims().to_vec()
}

/// Relies on candle_core::Tensor::dtype: the element-type tag of the tensor.
#[verifier::external_body]
pub(crate) fn dtype_of(t: &candle_core::Tensor) -> candle_core::DType {
    t.dtype()
}

/// Relies on candle_core::Tensor::device: the placement the tensor lives
/// on; device handles are cheaply clonable.
#[verifier::external_body]
pub(crate) fn device_of(t: &candle_core::Tensor) -> candle_core::Device {
    t.device().clone()
}

/// Relies on candle_core::Device::Cpu being the host placement.
#[verifier::external_body]
pub(crate) fn cpu_device() -> candle_core::Device {
    candle_core::Device::Cpu
}

/// Relies on candle_core::DType::U8, a one-byte element tag; the test
/// pipeline uses it for its placeholder tensors.
#[verifier::external_body]
pub(crate) fn byte_dtype() -> candle_core::DType {
    candle_core::DType::U8
}

} // verus!
