//! What the library takes from candle and safetensors: tensors, caches of keys and values, and
//! files of tensors.
use vstd::prelude::*;
use vstd::string::*;

use byteorder::ByteOrder;

use crate::gguf::cursor::{le_value, ByteCursor};
use crate::text::same_text;

verus! {

#[verifier::external_type_specification]
#[verifier::external_body]
pub struct ExTensor(candle_core::Tensor);

#[verifier::external_type_specification]
#[verifier::external_body]
pub struct ExCandleError(candle_core::Error);

#[verifier::external_type_specification]
#[verifier::external_body]
pub struct ExDevice(candle_core::Device);

#[verifier::external_type_specification]
#[verifier::external_body]
pub struct ExConcatKvCache(candle_nn::kv_cache::ConcatKvCache);

#[verifier::external_type_specification]
#[verifier::external_body]
pub struct ExSafeTensors<'data>(safetensors::SafeTensors<'data>);

#[verifier::external_type_specification]
#[verifier::external_body]
pub struct ExMetadata(safetensors::tensor::Metadata);

/// What a tensor holds: the name of its number format, its shape, and its numbers as bytes, the
/// last dimension running fastest.
#[verifier::ext_equal]
pub struct RawView {
    pub dtype: Seq<char>,
    pub shape: Seq<usize>,
    pub data: Seq<u8>,
}

/// The number of elements of a shape.
pub open spec fn elements(shape: Seq<usize>) -> nat
    decreases shape.len(),
{
    if shape.len() == 0 {
        1
    } else {
        elements(shape.drop_last()) * (shape.last() as nat)
    }
}

/// The number of elements can be counted, dimension by dimension.
pub open spec fn countable(shape: Seq<usize>) -> bool {
    forall|i: int| 0 <= i <= shape.len() ==> #[trigger] elements(shape.take(i)) <= usize::MAX
}

/// Whether the dimensions can be multiplied from the last to the first.
pub fn is_countable_from_last(shape: &Vec<usize>) -> (result: bool)
    ensures
        result == countable(shape@.reverse()),
{
    let ghost back = shape@.reverse();
    let n: usize = shape.len();
    let mut product: usize = 1;
    let mut i: usize = 0;
    assert(elements(back.take(0)) == 1);
    while i < n
        invariant
            i <= n == shape@.len(),
            back == shape@.reverse(),
            product == elements(back.take(i as int)),
            forall|j: int| 0 <= j <= i ==> #[trigger] elements(back.take(j)) <= usize::MAX,
        decreases n - i,
    {
        assert(back.take(i + 1).drop_last() =~= back.take(i as int));
        assert(back.take(i + 1).last() == shape@[n - 1 - i]);
        match product.checked_mul(shape[n - 1 - i]) {
            Some(next) => {
                product = next;
            },
            None => {
                assert(elements(back.take(i + 1)) > usize::MAX);
                return false;
            },
        }
        i = i + 1;
    }
    true
}

/// The part of a tensor from `start` on, `len` long, along a dimension.
pub open spec fn narrowed_view(raw: RawView, dim: int, start: int, len: usize) -> RawView {
    let outer = elements(raw.shape.take(dim)) as int;
    let n = raw.shape[dim] as int;
    let chunk = raw.data.len() as int / (outer * n);
    RawView {
        dtype: raw.dtype,
        shape: raw.shape.update(dim, len),
        data: Seq::new(
            (outer * len * chunk) as nat,
            |i: int|
                raw.data[(i / (len * chunk) * n + start) * chunk + i % (len * chunk)],
        ),
    }
}

/// `narrow` has something to give.
pub open spec fn can_narrow(raw: RawView, dim: int, start: int, len: int) -> bool {
    0 <= dim < raw.shape.len() && start + len <= raw.shape[dim]
}

/// The data of a tensor are as long as its shape and the width of an element say.
pub open spec fn has_width(raw: RawView, width: nat) -> bool {
    raw.data.len() == elements(raw.shape) * width
}

proof fn lemma_elements_split(shape: Seq<usize>, d: int)
    requires
        0 <= d <= shape.len(),
    ensures
        elements(shape) == elements(shape.take(d)) * elements(shape.skip(d)),
    decreases shape.len() - d,
{
    if d == shape.len() {
        assert(shape.take(d) =~= shape);
        assert(shape.skip(d).len() == 0);
        vstd::arithmetic::mul::lemma_mul_basics(elements(shape) as int);
    } else {
        lemma_elements_split(shape.drop_last(), d);
        assert(shape.drop_last().take(d) =~= shape.take(d));
        assert(shape.skip(d).drop_last() =~= shape.drop_last().skip(d));
        assert(shape.skip(d).last() == shape.last());
        vstd::arithmetic::mul::lemma_mul_is_associative(
            elements(shape.take(d)) as int,
            elements(shape.drop_last().skip(d)) as int,
            shape.last() as int,
        );
    }
}

/// Positions in the part of a part.
proof fn lemma_position_twice(i: int, outer: int, a: int, b: int, chunk: int)
    requires
        0 <= i < outer * b * chunk,
        0 < b <= a,
        0 < chunk,
        0 < outer,
    ensures
        0 < b * chunk <= a * chunk,
        0 <= i / (b * chunk) < outer,
        0 <= i % (b * chunk) < b * chunk,
        0 <= (i / (b * chunk) * a + 0) * chunk + i % (b * chunk) < outer * a * chunk,
        ((i / (b * chunk) * a + 0) * chunk + i % (b * chunk)) / (a * chunk) == i / (b * chunk),
        ((i / (b * chunk) * a + 0) * chunk + i % (b * chunk)) % (a * chunk) == i % (b * chunk),
{
    let m = b * chunk;
    assert(0 < m && m <= a * chunk) by (nonlinear_arith)
        requires
            m == b * chunk,
            0 < b <= a,
            0 < chunk,
    ;
    let o = i / m;
    let r = i % m;
    vstd::arithmetic::div_mod::lemma_fundamental_div_mod(i, m);
    vstd::arithmetic::div_mod::lemma_mod_bound(i, m);
    vstd::arithmetic::div_mod::lemma_div_pos_is_pos(i, m);
    assert(o < outer) by (nonlinear_arith)
        requires
            i == m * o + r,
            0 <= r,
            m == b * chunk,
            0 < m,
            i < outer * b * chunk,
    ;
    let w = a * chunk;
    let x = (o * a + 0) * chunk + r;
    assert(x == w * o + r) by (nonlinear_arith)
        requires
            x == (o * a + 0) * chunk + r,
            w == a * chunk,
    ;
    assert(x < outer * a * chunk) by (nonlinear_arith)
        requires
            x == w * o + r,
            r < w,
            w == a * chunk,
            o + 1 <= outer,
            0 < w,
    ;
    assert(0 <= x) by (nonlinear_arith)
        requires
            x == w * o + r,
            0 <= r,
            0 <= o,
            0 < w,
    ;
    vstd::arithmetic::div_mod::lemma_fundamental_div_mod_converse(x, w, o, r);
}

/// To cut a tensor to a length and then to a shorter one is to cut it to the shorter one.
pub proof fn law_narrow_twice(raw: RawView, width: nat, dim: int, a: usize, b: usize)
    requires
        has_width(raw, width),
        can_narrow(raw, dim, 0, a as int),
        b <= a,
    ensures
        can_narrow(narrowed_view(raw, dim, 0, a), dim, 0, b as int),
        narrowed_view(narrowed_view(raw, dim, 0, a), dim, 0, b) == narrowed_view(raw, dim, 0, b),
{
    let outer = elements(raw.shape.take(dim)) as int;
    let n = raw.shape[dim] as int;
    let chunk = raw.data.len() as int / (outer * n);
    let first = narrowed_view(raw, dim, 0, a);
    let twice = narrowed_view(first, dim, 0, b);
    let once = narrowed_view(raw, dim, 0, b);
    assert(first.shape.take(dim) =~= raw.shape.take(dim));
    assert(twice.shape =~= once.shape);
    let chunk1 = first.data.len() as int / (outer * a);
    if outer == 0 || b == 0 {
        assert(outer * b == 0) by (nonlinear_arith)
            requires
                outer == 0 || b == 0,
        ;
        assert(outer * b * chunk == 0) by (nonlinear_arith)
            requires
                outer * b == 0,
        ;
        assert(outer * b * chunk1 == 0) by (nonlinear_arith)
            requires
                outer * b == 0,
        ;
        assert(twice.data =~= once.data);
    } else {
        lemma_elements_split(raw.shape, dim + 1);
        assert(raw.shape.take(dim + 1).drop_last() =~= raw.shape.take(dim));
        let inner = elements(raw.shape.skip(dim + 1)) as int;
        assert(outer * n > 0 && outer * a > 0) by (nonlinear_arith)
            requires
                outer > 0,
                n >= a,
                a > 0,
        ;
        assert(raw.data.len() == (outer * n) * (inner * width)) by (nonlinear_arith)
            requires
                raw.data.len() == ((outer * n) * inner) * width,
        ;
        assert(inner * width >= 0) by (nonlinear_arith)
            requires
                inner >= 0,
                width >= 0,
        ;
        vstd::arithmetic::div_mod::lemma_div_multiples_vanish(inner * width, outer * n);
        assert(chunk == inner * width);
        assert(outer * a * chunk >= 0) by (nonlinear_arith)
            requires
                outer * a > 0,
                chunk >= 0,
        ;
        assert(first.data.len() == (outer * a) * chunk);
        vstd::arithmetic::div_mod::lemma_div_multiples_vanish(chunk, outer * a);
        assert(chunk1 == chunk);
        assert(outer * b * chunk >= 0) by (nonlinear_arith)
            requires
                outer > 0,
                b >= 0,
                chunk >= 0,
        ;
        assert(twice.data.len() == once.data.len());
        assert forall|i: int| 0 <= i < once.data.len() implies twice.data[i] == once.data[i] by {
            assert(chunk > 0) by (nonlinear_arith)
                requires
                    0 <= i < outer * b * chunk,
                    chunk >= 0,
            ;
            lemma_position_twice(i, outer, a as int, b as int, chunk);
        }
        assert(twice.data =~= once.data);
    }
}

/// What a tensor holds.
pub uninterp spec fn tensor_view(tensor: candle_core::Tensor) -> RawView;

/// A tensor is kept in the memory of the processor.
pub uninterp spec fn tensor_on_cpu(tensor: candle_core::Tensor) -> bool;

/// A device is the processor.
pub uninterp spec fn device_on_cpu(device: candle_core::Device) -> bool;

/// Wraps `Tensor::dim`: the extent of a dimension, if there is such a dimension. The message of
/// an error is left unsaid: candle may add a backtrace to it.
#[verifier::external_body]
pub(crate) fn extent(tensor: &candle_core::Tensor, dim: usize) -> (result: Result<usize, String>)
    ensures
        result is Ok <==> dim < tensor_view(*tensor).shape.len(),
        result matches Ok(n) ==> n == tensor_view(*tensor).shape[dim as int],
{
    tensor.dim(dim).map_err(|e| e.to_string())
}

/// Wraps `Tensor::narrow`: the part from `start` on, `len` long, along a dimension, if the tensor
/// reaches that far. The part stays where the tensor is. The end of the part has to be a number:
/// along a dimension of the greatest extent candle adds the two without a test. The message of an
/// error is left unsaid: candle may add a backtrace to it.
#[verifier::external_body]
fn narrowed(tensor: &candle_core::Tensor, dim: usize, start: usize, len: usize) -> (result: Result<
    candle_core::Tensor,
    String,
>)
    requires
        start + len <= usize::MAX,
    ensures
        result is Ok <==> can_narrow(tensor_view(*tensor), dim as int, start as int, len as int),
        result matches Ok(part) ==> tensor_view(part) == narrowed_view(
            tensor_view(*tensor),
            dim as int,
            start as int,
            len,
        ) && tensor_on_cpu(part) == tensor_on_cpu(*tensor),
{
    tensor.narrow(dim, start, len).map_err(|e| e.to_string())
}

/// The part of a tensor from `start` on, `len` long, along a dimension.
pub fn narrow(tensor: &candle_core::Tensor, dim: usize, start: usize, len: usize) -> (result: Result<
    candle_core::Tensor,
    String,
>)
    ensures
        result is Ok <==> can_narrow(tensor_view(*tensor), dim as int, start as int, len as int),
        result matches Ok(part) ==> tensor_view(part) == narrowed_view(
            tensor_view(*tensor),
            dim as int,
            start as int,
            len,
        ) && tensor_on_cpu(part) == tensor_on_cpu(*tensor),
{
    if len > usize::MAX - start {
        return Err(String::from_str("start + len > dim_len"));
    }
    narrowed(tensor, dim, start, len)
}

/// The clone of a tensor is another handle of the same tensor.
pub assume_specification[ <candle_core::Tensor as std::clone::Clone>::clone ](
    tensor: &candle_core::Tensor,
) -> (result: candle_core::Tensor)
    ensures
        tensor_view(result) == tensor_view(*tensor),
        tensor_on_cpu(result) == tensor_on_cpu(*tensor),
;

/// Wraps `Device::is_cpu`.
#[verifier::external_body]
pub(crate) fn is_cpu(device: &candle_core::Device) -> (result: bool)
    ensures
        result == device_on_cpu(*device),
{
    device.is_cpu()
}

/// Wraps the device `Cpu`, which is the processor.
#[verifier::external_body]
pub(crate) fn cpu() -> (result: candle_core::Device)
    ensures
        device_on_cpu(result),
{
    candle_core::Device::Cpu
}

/// What a cache of keys and values holds, and the dimension along which it grows.
pub struct KvView {
    pub keys: Option<RawView>,
    pub values: Option<RawView>,
    pub dim: usize,
}

/// What a cache of keys and values holds.
pub uninterp spec fn kv_view(cache: candle_nn::kv_cache::ConcatKvCache) -> KvView;

/// The clone of a cache holds what the cache holds.
pub assume_specification[ <candle_nn::kv_cache::ConcatKvCache as std::clone::Clone>::clone ](
    cache: &candle_nn::kv_cache::ConcatKvCache,
) -> (result: candle_nn::kv_cache::ConcatKvCache)
    ensures
        kv_view(result) == kv_view(*cache),
;

/// What an optional tensor holds.
pub open spec fn view_of(tensor: Option<&candle_core::Tensor>) -> Option<RawView> {
    match tensor {
        Some(t) => Some(tensor_view(*t)),
        None => None,
    }
}

/// Wraps `ConcatKvCache::new`: an empty cache that grows along a dimension.
#[verifier::external_body]
pub(crate) fn new_kv_cache(dim: usize) -> (result: candle_nn::kv_cache::ConcatKvCache)
    ensures
        kv_view(result) == (KvView { keys: None, values: None, dim }),
{
    candle_nn::kv_cache::ConcatKvCache::new(dim)
}

/// Wraps `ConcatKvCache::k`.
#[verifier::external_body]
pub(crate) fn keys_of(cache: &candle_nn::kv_cache::ConcatKvCache) -> (result: Option<
    &candle_core::Tensor,
>)
    ensures
        view_of(result) == kv_view(*cache).keys,
{
    cache.k()
}

/// Wraps `ConcatKvCache::v`.
#[verifier::external_body]
pub(crate) fn values_of(cache: &candle_nn::kv_cache::ConcatKvCache) -> (result: Option<
    &candle_core::Tensor,
>)
    ensures
        view_of(result) == kv_view(*cache).values,
{
    cache.v()
}

/// Wraps an assignment through `ConcatKvCache::k_mut`, which reaches the keys if there are any.
#[verifier::external_body]
pub(crate) fn set_keys(cache: &mut candle_nn::kv_cache::ConcatKvCache, keys: candle_core::Tensor)
    ensures
        kv_view(*final(cache)) == (KvView {
            keys: if kv_view(*old(cache)).keys is Some {
                Some(tensor_view(keys))
            } else {
                None
            },
            ..kv_view(*old(cache))
        }),
{
    if let Some(slot) = cache.k_mut() {
        *slot = keys;
    }
}

/// Wraps an assignment through `ConcatKvCache::v_mut`, which reaches the values if there are any.
#[verifier::external_body]
pub(crate) fn set_values(
    cache: &mut candle_nn::kv_cache::ConcatKvCache,
    values: candle_core::Tensor,
)
    ensures
        kv_view(*final(cache)) == (KvView {
            values: if kv_view(*old(cache)).values is Some {
                Some(tensor_view(values))
            } else {
                None
            },
            ..kv_view(*old(cache))
        }),
{
    if let Some(slot) = cache.v_mut() {
        *slot = values;
    }
}

/// Wraps `ConcatKvCache::append` to an empty cache: the cache then holds the two tensors, or is
/// still empty where the device could not make a contiguous copy of them. The processor can, of
/// all formats that can be written to a file.
#[verifier::external_body]
pub(crate) fn fill_kv_cache(
    cache: &mut candle_nn::kv_cache::ConcatKvCache,
    keys: &candle_core::Tensor,
    values: &candle_core::Tensor,
) -> (result: Result<(), String>)
    requires
        kv_view(*old(cache)).keys is None,
        kv_view(*old(cache)).values is None,
    ensures
        kv_view(*final(cache)) == (match result {
            Ok(_) => KvView {
                keys: Some(tensor_view(*keys)),
                values: Some(tensor_view(*values)),
                ..kv_view(*old(cache))
            },
            Err(_) => kv_view(*old(cache)),
        }),
        tensor_on_cpu(*keys) && tensor_on_cpu(*values) && writable(tensor_view(*keys).dtype)
            && writable(tensor_view(*values).dtype) ==> result is Ok,
{
    cache.append(keys, values).map(|_| ()).map_err(|e| e.to_string())
}

/// The number formats that a cache can be loaded in.
#[derive(Debug, Clone, Copy, PartialEq, Eq, Structural)]
pub enum TensorDtype {
    F16,
    BF16,
    F32,
    F64,
    U8,
    U32,
}

impl TensorDtype {
    /// The name of the format.
    pub open spec fn text(self) -> Seq<char> {
        match self {
            TensorDtype::F16 => "F16"@,
            TensorDtype::BF16 => "BF16"@,
            TensorDtype::F32 => "F32"@,
            TensorDtype::F64 => "F64"@,
            TensorDtype::U8 => "U8"@,
            TensorDtype::U32 => "U32"@,
        }
    }

    /// The number of bytes of an element.
    pub open spec fn width(self) -> nat {
        match self {
            TensorDtype::F16 => 2,
            TensorDtype::BF16 => 2,
            TensorDtype::F32 => 4,
            TensorDtype::F64 => 8,
            TensorDtype::U8 => 1,
            TensorDtype::U32 => 4,
        }
    }
}

/// Shape and data of a tensor go together, where the format is one that can be loaded.
pub open spec fn consistent(raw: RawView) -> bool {
    &&& countable(raw.shape)
    &&& forall|dtype: TensorDtype|
        raw.dtype == #[trigger] dtype.text() ==> raw.data.len() == elements(raw.shape)
            * dtype.width()
}

/// Wraps `Tensor::from_raw_buffer`: a tensor on the device that holds the data, or an error of
/// the device; the processor gives none. The products of the dimensions have to be numbers from
/// either side: candle takes them from the right to find the strides. The message of an error is
/// left unsaid: candle may add a backtrace to it.
#[verifier::external_body]
pub(crate) fn tensor_from(
    data: &[u8],
    dtype: TensorDtype,
    shape: &Vec<usize>,
    device: &candle_core::Device,
) -> (result: Result<candle_core::Tensor, String>)
    requires
        countable(shape@),
        countable(shape@.reverse()),
        data@.len() == elements(shape@) * dtype.width(),
    ensures
        result matches Ok(tensor) ==> tensor_view(tensor) == (RawView {
            dtype: dtype.text(),
            shape: shape@,
            data: data@,
        }) && tensor_on_cpu(tensor) == device_on_cpu(*device),
        device_on_cpu(*device) ==> result is Ok,
{
    let candle_dtype = match dtype {
        TensorDtype::F16 => candle_core::DType::F16,
        TensorDtype::BF16 => candle_core::DType::BF16,
        TensorDtype::F32 => candle_core::DType::F32,
        TensorDtype::F64 => candle_core::DType::F64,
        TensorDtype::U8 => candle_core::DType::U8,
        TensorDtype::U32 => candle_core::DType::U32,
    };
    candle_core::Tensor::from_raw_buffer(data, candle_dtype, shape.as_slice(), device)
        .map_err(|e| e.to_string())
}

/// The bytes of a list of ids, four for each, the lowest first.
pub open spec fn id_bytes(ids: Seq<u32>) -> Seq<u8>
    decreases ids.len(),
{
    if ids.len() == 0 {
        seq![]
    } else {
        id_bytes(ids.drop_last()) + seq![
            (ids.last() as int % 256) as u8,
            (ids.last() as int / 256 % 256) as u8,
            (ids.last() as int / 65536 % 256) as u8,
            (ids.last() as int / 16777216) as u8,
        ]
    }
}

/// Wraps `Tensor::from_slice`: the ids in a row on a device, in the byte order of the machines
/// that candle supports, or an error of the device; the processor gives none. The message of an
/// error is left unsaid: candle may add a backtrace to it.
#[verifier::external_body]
pub(crate) fn ids_tensor(ids: &[u32], device: &candle_core::Device) -> (result: Result<
    candle_core::Tensor,
    String,
>)
    ensures
        result matches Ok(tensor) ==> tensor_view(tensor) == (RawView {
            dtype: TensorDtype::U32.text(),
            shape: seq![ids@.len() as usize],
            data: id_bytes(ids@),
        }) && tensor_on_cpu(tensor) == device_on_cpu(*device),
        device_on_cpu(*device) ==> result is Ok,
{
    candle_core::Tensor::from_slice(ids, ids.len(), device).map_err(|e| e.to_string())
}

/// Wraps `Tensor::unsqueeze` at the front: the same numbers with a first dimension of one.
#[verifier::external_body]
pub(crate) fn as_batch(tensor: &candle_core::Tensor) -> (result: Result<
    candle_core::Tensor,
    String,
>)
    ensures
        result is Ok,
        result matches Ok(batch) ==> tensor_view(batch) == (RawView {
            shape: seq![1usize] + tensor_view(*tensor).shape,
            ..tensor_view(*tensor)
        }) && tensor_on_cpu(batch) == tensor_on_cpu(*tensor),
{
    tensor.unsqueeze(0).map_err(|e| e.to_string())
}

/// A tensor without its first dimension, if that is of one.
pub open spec fn squeezed_view(raw: RawView) -> RawView {
    RawView {
        shape: if raw.shape[0] == 1 {
            raw.shape.skip(1)
        } else {
            raw.shape
        },
        ..raw
    }
}

/// Wraps `Tensor::squeeze` at the front: the same numbers without the first dimension, if that is
/// of one. A tensor without dimensions is an error. The message of an error is left unsaid:
/// candle may add a backtrace to it.
#[verifier::external_body]
pub(crate) fn squeezed(tensor: &candle_core::Tensor) -> (result: Result<
    candle_core::Tensor,
    String,
>)
    ensures
        result is Ok <==> tensor_view(*tensor).shape.len() > 0,
        result matches Ok(part) ==> tensor_view(part) == squeezed_view(tensor_view(*tensor))
            && tensor_on_cpu(part) == tensor_on_cpu(*tensor),
{
    tensor.squeeze(0).map_err(|e| e.to_string())
}

/// Wraps `Tensor::rank`: the number of dimensions.
#[verifier::external_body]
pub(crate) fn rank_of(tensor: &candle_core::Tensor) -> (result: usize)
    ensures
        result == tensor_view(*tensor).shape.len(),
{
    tensor.rank()
}

/// Wraps `LittleEndian::read_u32_into`: each group of four bytes makes a number, the lowest byte
/// first.
#[verifier::external_body]
pub(crate) fn read_ids(data: &[u8], count: usize) -> (result: Vec<u32>)
    requires
        data@.len() == 4 * count,
    ensures
        result@.len() == count,
        forall|i: int|
            0 <= i < count ==> #[trigger] result@[i] as int == le_value(
                data@.subrange(4 * i, 4 * i + 4),
            ),
{
    let mut ids = vec![0u32; count];
    byteorder::LittleEndian::read_u32_into(data, &mut ids);
    ids
}

/// Wraps `Tensor::dtype`, as the format's name in files of tensors.
#[verifier::external_body]
pub(crate) fn dtype_of(tensor: &candle_core::Tensor) -> (result: String)
    ensures
        result@ == tensor_view(*tensor).dtype,
{
    format!("{:?}", safetensors::Dtype::from(tensor.dtype()))
}

/// The numbers of a tensor of this format can be written to a file.
pub open spec fn writable(dtype: Seq<char>) -> bool {
    ||| dtype == "U8"@
    ||| dtype == "U32"@
    ||| dtype == "I16"@
    ||| dtype == "I32"@
    ||| dtype == "I64"@
    ||| dtype == "BF16"@
    ||| dtype == "F16"@
    ||| dtype == "F32"@
    ||| dtype == "F64"@
    ||| dtype == "F8_E4M3"@
}

pub fn is_writable(dtype: &str) -> (result: bool)
    ensures
        result == writable(dtype@),
{
    same_text(dtype, "U8") || same_text(dtype, "U32") || same_text(dtype, "I16") || same_text(
        dtype,
        "I32",
    ) || same_text(dtype, "I64") || same_text(dtype, "BF16") || same_text(dtype, "F16")
        || same_text(dtype, "F32") || same_text(dtype, "F64") || same_text(dtype, "F8_E4M3")
}

/// A file of tensors: notes on it, and tensors under their names.
#[verifier::ext_equal]
pub struct FileView {
    pub notes: Option<Map<Seq<char>, Seq<char>>>,
    pub tensors: Map<Seq<char>, RawView>,
}

/// The notes of a file.
pub open spec fn notes_of(list: Seq<(String, String)>) -> Map<Seq<char>, Seq<char>>
    decreases list.len(),
{
    if list.len() == 0 {
        Map::empty()
    } else {
        notes_of(list.drop_last()).insert(list.last().0@, list.last().1@)
    }
}

/// The tensors of a file.
pub open spec fn tensors_of(list: Seq<(String, candle_core::Tensor)>) -> Map<Seq<char>, RawView>
    decreases list.len(),
{
    if list.len() == 0 {
        Map::empty()
    } else {
        tensors_of(list.drop_last()).insert(list.last().0@, tensor_view(list.last().1))
    }
}

/// The names are all different.
pub open spec fn distinct_names<V>(list: Seq<(String, V)>) -> bool {
    forall|i: int, j: int|
        0 <= i < j < list.len() ==> (#[trigger] list[i]).0@ != (#[trigger] list[j]).0@
}

/// A list of tensors that can be written to a file.
pub open spec fn storable(list: Seq<(String, candle_core::Tensor)>) -> bool {
    &&& distinct_names(list)
    &&& forall|i: int|
        0 <= i < list.len() ==> (#[trigger] list[i]).0@ != "__metadata__"@ && writable(
            tensor_view(list[i].1).dtype,
        )
}

/// What a file of tensors holds, if it can be read.
pub uninterp spec fn parsed_file(bytes: Seq<u8>) -> Option<FileView>;

/// Why no file can hold these notes and tensors, if none can: their header is too large for it.
pub uninterp spec fn write_error(file: FileView) -> Option<Seq<char>>;

/// Where the data end that a header declares, counted from their beginning, if it is a header.
pub uninterp spec fn declared_end(header: Seq<u8>) -> Option<usize>;

/// Where the data of a header end, counted from their beginning.
pub uninterp spec fn data_end(header: safetensors::tensor::Metadata) -> usize;

/// The header of a file: its length in eight bytes, then its bytes.
pub open spec fn header_part(bytes: Seq<u8>) -> Option<Seq<u8>> {
    if bytes.len() < 8 {
        None
    } else {
        let n = le_value(bytes.subrange(0, 8));
        if 8 + n <= bytes.len() {
            Some(bytes.subrange(8, 8 + n as int))
        } else {
            None
        }
    }
}

/// The data that a file declares end at a place that can be counted from its beginning.
pub open spec fn end_fits(bytes: Seq<u8>) -> bool {
    header_part(bytes) matches Some(header) ==> declared_end(header) matches Some(end) ==> end
        + bytes.len() <= usize::MAX
}

/// What a file of tensors holds, if it declares no more data than can be counted and can be read.
pub open spec fn file_in(bytes: Seq<u8>) -> Option<FileView> {
    if end_fits(bytes) {
        parsed_file(bytes)
    } else {
        None
    }
}

/// A file can hold these notes and tensors.
pub open spec fn fits_in_file(file: FileView) -> bool {
    write_error(file) is None
}

/// Wraps `safetensors::serialize`: the bytes of a file, which when they are read give back the
/// notes and the tensors, and which declare no more data than follow. Notes and tensors that no
/// file can hold are an error.
#[verifier::external_body]
pub(crate) fn file_of(
    tensors: Vec<(String, candle_core::Tensor)>,
    notes: Vec<(String, String)>,
) -> (result: Result<Vec<u8>, String>)
    requires
        storable(tensors@),
        distinct_names(notes@),
    ensures
        ({
            let file = FileView {
                notes: Some(notes_of(notes@)),
                tensors: tensors_of(tensors@),
            };
            match result {
                Ok(bytes) => {
                    &&& parsed_file(bytes@) == Some(file)
                    &&& end_fits(bytes@)
                    &&& write_error(file) is None
                },
                Err(message) => write_error(file) == Some(message@),
            }
        }),
{
    safetensors::serialize(tensors, Some(notes.into_iter().collect())).map_err(|e| e.to_string())
}

/// What an opened file holds.
pub uninterp spec fn file_view(file: safetensors::SafeTensors<'_>) -> FileView;

/// The header of a file: the notes, and the names of the tensors.
pub struct HeaderView {
    pub notes: Option<Map<Seq<char>, Seq<char>>>,
    pub names: Set<Seq<char>>,
}

/// What a header holds.
pub uninterp spec fn header_view(header: safetensors::tensor::Metadata) -> HeaderView;

/// The header of a file with these contents.
pub open spec fn header_for(file: FileView) -> HeaderView {
    HeaderView { notes: file.notes, names: file.tensors.dom() }
}

/// Wraps `serde_json::from_slice` into a header of a file, which gives one where the bytes are one.
/// Whether they are, and where the data of the header end, depends on the bytes alone.
#[verifier::external_body]
fn parsed_header(bytes: &[u8]) -> (result: Option<safetensors::tensor::Metadata>)
    ensures
        match result {
            Some(header) => declared_end(bytes@) == Some(data_end(header)),
            None => declared_end(bytes@) is None,
        },
{
    serde_json::from_slice::<safetensors::tensor::Metadata>(bytes).ok()
}

/// Wraps `Metadata::data_len`: where the data of a header end.
#[verifier::external_body]
fn data_len(header: &safetensors::tensor::Metadata) -> (result: usize)
    ensures
        result == data_end(*header),
{
    header.data_len()
}

/// Whether the data that a file declares end at a place that can be counted.
pub fn has_countable_end(bytes: &[u8]) -> (result: bool)
    ensures
        result == end_fits(bytes@),
{
    let mut cursor = ByteCursor::new(bytes);
    let n: u64 = match cursor.read_u64("reading header length") {
        Ok(n) => n,
        Err(_) => {
            return true;
        },
    };
    let len: usize = bytes.len();
    if n > len as u64 - 8 {
        return true;
    }
    match parsed_header(vstd::slice::slice_subrange(bytes, 8, 8 + n as usize)) {
        Some(header) => data_len(&header) <= usize::MAX - len,
        None => true,
    }
}

fn too_long() -> (result: String)
    ensures
        result@ == "the file declares more data than can be counted"@,
{
    String::from_str("the file declares more data than can be counted")
}

/// Opens a file.
pub(crate) fn opened<'a>(bytes: &'a [u8]) -> (result: Result<
    safetensors::SafeTensors<'a>,
    String,
>)
    ensures
        match result {
            Ok(file) => file_in(bytes@) == Some(file_view(file)),
            Err(_) => file_in(bytes@) is None,
        },
{
    if has_countable_end(bytes) {
        open_file(bytes)
    } else {
        Err(too_long())
    }
}

/// Reads the header of a file.
pub(crate) fn header_of(bytes: &[u8]) -> (result: Result<safetensors::tensor::Metadata, String>)
    ensures
        match result {
            Ok(header) => file_in(bytes@) matches Some(file) && header_view(header) == header_for(
                file,
            ),
            Err(_) => file_in(bytes@) is None,
        },
{
    if has_countable_end(bytes) {
        read_header(bytes)
    } else {
        Err(too_long())
    }
}

/// Wraps `SafeTensors::deserialize`. The data that the file declares have to end at a place that
/// can be counted: safetensors adds their end to the length of the header without a test. The
/// message of an error is left unsaid: of several tensors in one place it names one by chance.
#[verifier::external_body]
fn open_file<'a>(bytes: &'a [u8]) -> (result: Result<safetensors::SafeTensors<'a>, String>)
    requires
        end_fits(bytes@),
    ensures
        match result {
            Ok(file) => parsed_file(bytes@) == Some(file_view(file)),
            Err(_) => parsed_file(bytes@) is None,
        },
{
    safetensors::SafeTensors::deserialize(bytes).map_err(|e| e.to_string())
}

/// Wraps `SafeTensors::read_metadata`, which fails on the files that cannot be read at all. What
/// is asked of the file, and what is left unsaid of an error, is as for `open_file`.
#[verifier::external_body]
fn read_header(bytes: &[u8]) -> (result: Result<safetensors::tensor::Metadata, String>)
    requires
        end_fits(bytes@),
    ensures
        match result {
            Ok(header) => parsed_file(bytes@) matches Some(file) && header_view(header)
                == header_for(file),
            Err(_) => parsed_file(bytes@) is None,
        },
{
    safetensors::SafeTensors::read_metadata(bytes).map(|(_, header)| header).map_err(
        |e| e.to_string(),
    )
}

/// The note under a key, if there is one.
pub open spec fn note_of(notes: Option<Map<Seq<char>, Seq<char>>>, key: Seq<char>) -> Option<
    Seq<char>,
> {
    match notes {
        Some(map) => if map.contains_key(key) {
            Some(map[key])
        } else {
            None
        },
        None => None,
    }
}

/// Wraps `Metadata::metadata` and a lookup in the map that it gives.
#[verifier::external_body]
pub(crate) fn header_note(header: &safetensors::tensor::Metadata, key: &str) -> (result: Option<
    String,
>)
    ensures
        match result {
            Some(note) => note_of(header_view(*header).notes, key@) == Some(note@),
            None => note_of(header_view(*header).notes, key@) is None,
        },
{
    header.metadata().as_ref().and_then(|notes| notes.get(key).cloned())
}

/// Wraps `Metadata::offset_keys`: the names of the tensors, each once. Their order, which is that
/// of the data, is left unsaid.
#[verifier::external_body]
pub(crate) fn header_names(header: &safetensors::tensor::Metadata) -> (result: Vec<String>)
    ensures
        forall|name: Seq<char>|
            #[trigger] header_view(*header).names.contains(name) <==> exists|i: int|
                0 <= i < result@.len() && (#[trigger] result@[i])@ == name,
{
    header.offset_keys()
}

/// A tensor of a file.
pub struct RawTensor<'a> {
    pub dtype: String,
    pub shape: Vec<usize>,
    pub data: &'a [u8],
}

impl<'a> View for RawTensor<'a> {
    type V = RawView;

    open spec fn view(&self) -> RawView {
        RawView { dtype: self.dtype@, shape: self.shape@, data: self.data@ }
    }
}

/// What is said of a tensor that is not in a file.
pub open spec fn not_found(name: Seq<char>) -> Seq<char> {
    "tensor `"@ + name + "` not found"@
}

/// Wraps `SafeTensors::tensor`: the tensor under a name, whose data are as long as its shape and
/// format say.
#[verifier::external_body]
pub(crate) fn find_tensor<'a>(file: &safetensors::SafeTensors<'a>, name: &str) -> (result: Result<
    RawTensor<'a>,
    String,
>)
    ensures
        match result {
            Ok(raw) => {
                &&& file_view(*file).tensors.contains_key(name@)
                &&& file_view(*file).tensors[name@] == raw@
                &&& consistent(raw@)
            },
            Err(message) => {
                &&& !file_view(*file).tensors.contains_key(name@)
                &&& message@ == not_found(name@)
            },
        },
{
    file.tensor(name).map_err(|e| e.to_string()).map(|tensor| RawTensor {
        dtype: format!("{:?}", tensor.dtype()),
        shape: tensor.shape().to_vec(),
        data: tensor.data(),
    })
}

} // verus!
