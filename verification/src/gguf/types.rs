//! The data model of a GGUF file.
use vstd::prelude::*;
use vstd::string::*;

use crate::float::{float32_bits, Float32, Float64};

verus! {

/// The types of metadata values.
#[derive(Debug, Clone, Copy, PartialEq, Eq, Structural)]
pub enum GgufType {
    Uint8,
    Int8,
    Uint16,
    Int16,
    Uint32,
    Int32,
    Float32,
    Bool,
    String,
    Array,
    Uint64,
    Int64,
    Float64,
}

/// The code that stands for a type in a file.
pub open spec fn type_code(t: GgufType) -> int {
    match t {
        GgufType::Uint8 => 0,
        GgufType::Int8 => 1,
        GgufType::Uint16 => 2,
        GgufType::Int16 => 3,
        GgufType::Uint32 => 4,
        GgufType::Int32 => 5,
        GgufType::Float32 => 6,
        GgufType::Bool => 7,
        GgufType::String => 8,
        GgufType::Array => 9,
        GgufType::Uint64 => 10,
        GgufType::Int64 => 11,
        GgufType::Float64 => 12,
    }
}

/// The type that a code stands for.
pub open spec fn type_of_code(code: int) -> Option<GgufType> {
    if code == 0 {
        Some(GgufType::Uint8)
    } else if code == 1 {
        Some(GgufType::Int8)
    } else if code == 2 {
        Some(GgufType::Uint16)
    } else if code == 3 {
        Some(GgufType::Int16)
    } else if code == 4 {
        Some(GgufType::Uint32)
    } else if code == 5 {
        Some(GgufType::Int32)
    } else if code == 6 {
        Some(GgufType::Float32)
    } else if code == 7 {
        Some(GgufType::Bool)
    } else if code == 8 {
        Some(GgufType::String)
    } else if code == 9 {
        Some(GgufType::Array)
    } else if code == 10 {
        Some(GgufType::Uint64)
    } else if code == 11 {
        Some(GgufType::Int64)
    } else if code == 12 {
        Some(GgufType::Float64)
    } else {
        None
    }
}

/// Type codes and types stand in a one to one relation.
pub proof fn law_type_codes(code: int, t: GgufType)
    ensures
        type_of_code(code) == Some(t) <==> code == type_code(t),
{
}

/// The name of a type.
pub open spec fn name_of_type(t: GgufType) -> Seq<char> {
    match t {
        GgufType::Uint8 => "Uint8"@,
        GgufType::Int8 => "Int8"@,
        GgufType::Uint16 => "Uint16"@,
        GgufType::Int16 => "Int16"@,
        GgufType::Uint32 => "Uint32"@,
        GgufType::Int32 => "Int32"@,
        GgufType::Float32 => "Float32"@,
        GgufType::Bool => "Bool"@,
        GgufType::String => "String"@,
        GgufType::Array => "Array"@,
        GgufType::Uint64 => "Uint64"@,
        GgufType::Int64 => "Int64"@,
        GgufType::Float64 => "Float64"@,
    }
}

impl GgufType {
    pub fn from_i32(n: i32) -> (result: Option<Self>)
        ensures
            result == type_of_code(n as int),
    {
        match n {
            0 => Some(GgufType::Uint8),
            1 => Some(GgufType::Int8),
            2 => Some(GgufType::Uint16),
            3 => Some(GgufType::Int16),
            4 => Some(GgufType::Uint32),
            5 => Some(GgufType::Int32),
            6 => Some(GgufType::Float32),
            7 => Some(GgufType::Bool),
            8 => Some(GgufType::String),
            9 => Some(GgufType::Array),
            10 => Some(GgufType::Uint64),
            11 => Some(GgufType::Int64),
            12 => Some(GgufType::Float64),
            _ => None,
        }
    }

    pub fn name(&self) -> (result: &'static str)
        ensures
            result@ == name_of_type(*self),
    {
        match self {
            GgufType::Uint8 => "Uint8",
            GgufType::Int8 => "Int8",
            GgufType::Uint16 => "Uint16",
            GgufType::Int16 => "Int16",
            GgufType::Uint32 => "Uint32",
            GgufType::Int32 => "Int32",
            GgufType::Float32 => "Float32",
            GgufType::Bool => "Bool",
            GgufType::String => "String",
            GgufType::Array => "Array",
            GgufType::Uint64 => "Uint64",
            GgufType::Int64 => "Int64",
            GgufType::Float64 => "Float64",
        }
    }
}

/// The storage types of tensors.
#[derive(Debug, Clone, Copy, PartialEq, Eq, Structural)]
pub enum GgmlType {
    F32,
    F16,
    Q40,
    Q41,
    Q50,
    Q51,
    Q80,
    Q81,
    Q2K,
    Q3K,
    Q4K,
    Q5K,
    Q6K,
    Q8K,
    Iq2Xxs,
    Iq2Xs,
    Iq3Xxs,
    Iq1S,
    Iq4Nl,
    Iq3S,
    Iq2S,
    Iq4Xs,
    I8,
    I16,
    I32,
    I64,
    F64,
    Iq1M,
    Bf16,
    Tq10,
    Tq20,
    Mxfp4,
    Count,
}

/// The code that stands for a storage type in a file.
pub open spec fn ggml_code(t: GgmlType) -> int {
    match t {
        GgmlType::F32 => 0,
        GgmlType::F16 => 1,
        GgmlType::Q40 => 2,
        GgmlType::Q41 => 3,
        GgmlType::Q50 => 6,
        GgmlType::Q51 => 7,
        GgmlType::Q80 => 8,
        GgmlType::Q81 => 9,
        GgmlType::Q2K => 10,
        GgmlType::Q3K => 11,
        GgmlType::Q4K => 12,
        GgmlType::Q5K => 13,
        GgmlType::Q6K => 14,
        GgmlType::Q8K => 15,
        GgmlType::Iq2Xxs => 16,
        GgmlType::Iq2Xs => 17,
        GgmlType::Iq3Xxs => 18,
        GgmlType::Iq1S => 19,
        GgmlType::Iq4Nl => 20,
        GgmlType::Iq3S => 21,
        GgmlType::Iq2S => 22,
        GgmlType::Iq4Xs => 23,
        GgmlType::I8 => 24,
        GgmlType::I16 => 25,
        GgmlType::I32 => 26,
        GgmlType::I64 => 27,
        GgmlType::F64 => 28,
        GgmlType::Iq1M => 29,
        GgmlType::Bf16 => 30,
        GgmlType::Tq10 => 34,
        GgmlType::Tq20 => 35,
        GgmlType::Mxfp4 => 39,
        GgmlType::Count => 40,
    }
}

impl GgmlType {
    pub fn from_i32(n: i32) -> (result: Option<Self>)
        ensures
            result matches Some(t) ==> ggml_code(t) == n,
            result is None ==> forall|t: GgmlType| #[trigger] ggml_code(t) != n,
    {
        match n {
            0 => Some(GgmlType::F32),
            1 => Some(GgmlType::F16),
            2 => Some(GgmlType::Q40),
            3 => Some(GgmlType::Q41),
            6 => Some(GgmlType::Q50),
            7 => Some(GgmlType::Q51),
            8 => Some(GgmlType::Q80),
            9 => Some(GgmlType::Q81),
            10 => Some(GgmlType::Q2K),
            11 => Some(GgmlType::Q3K),
            12 => Some(GgmlType::Q4K),
            13 => Some(GgmlType::Q5K),
            14 => Some(GgmlType::Q6K),
            15 => Some(GgmlType::Q8K),
            16 => Some(GgmlType::Iq2Xxs),
            17 => Some(GgmlType::Iq2Xs),
            18 => Some(GgmlType::Iq3Xxs),
            19 => Some(GgmlType::Iq1S),
            20 => Some(GgmlType::Iq4Nl),
            21 => Some(GgmlType::Iq3S),
            22 => Some(GgmlType::Iq2S),
            23 => Some(GgmlType::Iq4Xs),
            24 => Some(GgmlType::I8),
            25 => Some(GgmlType::I16),
            26 => Some(GgmlType::I32),
            27 => Some(GgmlType::I64),
            28 => Some(GgmlType::F64),
            29 => Some(GgmlType::Iq1M),
            30 => Some(GgmlType::Bf16),
            34 => Some(GgmlType::Tq10),
            35 => Some(GgmlType::Tq20),
            39 => Some(GgmlType::Mxfp4),
            40 => Some(GgmlType::Count),
            _ => None,
        }
    }
}

/// What a GGUF file says of its contents.
#[derive(Debug, Clone, PartialEq)]
pub struct GgufInfo {
    pub headers: GgufHeaders,
    pub kv_meta: Vec<GgufKVMeta>,
    pub tensor_info: Vec<GgufTensorInfo>,
    pub tensor_offset_start: i64,
}

#[derive(Debug, Clone, PartialEq)]
pub struct GgufHeaders {
    pub path: String,
    pub magic: String,
    pub version: u32,
    pub tensor_count: u64,
    pub metadata_kv_count: u64,
}

/// One metadata entry.
#[derive(Debug, Clone, PartialEq)]
pub struct GgufKVMeta {
    pub key: String,
    pub value_type: GgufType,
    pub value: GgufValue,
}

/// One tensor description.
#[derive(Debug, Clone, PartialEq)]
pub struct GgufTensorInfo {
    pub name: String,
    pub n_dims: i32,
    pub shapes: Vec<i64>,
    pub ggml_type: i32,
    pub offset: i64,
}

/// A metadata value.
#[derive(Debug, PartialEq)]
pub enum GgufValue {
    Uint8(u8),
    Int8(i8),
    Uint16(u16),
    Int16(i16),
    Uint32(u32),
    Int32(i32),
    Float32(Float32),
    Bool(bool),
    String(String),
    Array(Vec<GgufValue>),
    Uint64(u64),
    Int64(i64),
    Float64(Float64),
}

/// The mathematical model of a metadata value.
pub enum ValueView {
    Uint8(u8),
    Int8(i8),
    Uint16(u16),
    Int16(i16),
    Uint32(u32),
    Int32(i32),
    Float32(Float32),
    Bool(bool),
    String(Seq<char>),
    Array(Seq<ValueView>),
    Uint64(u64),
    Int64(i64),
    Float64(Float64),
}

/// The mathematical model of a metadata entry.
pub struct KVView {
    pub key: Seq<char>,
    pub value_type: GgufType,
    pub value: ValueView,
}

/// The mathematical model of a tensor description.
pub struct TensorView {
    pub name: Seq<char>,
    pub n_dims: i32,
    pub shapes: Seq<i64>,
    pub ggml_type: i32,
    pub offset: i64,
}

/// The models of the first `n` values of a list.
pub open spec fn value_models(list: Seq<GgufValue>, n: nat) -> Seq<ValueView>
    decreases list, n,
{
    if n == 0 || n > list.len() {
        seq![]
    } else {
        value_models(list, (n - 1) as nat).push(list[n - 1].model())
    }
}

/// As many models as values, each in the place of its value.
pub proof fn lemma_value_models(list: Seq<GgufValue>, n: nat)
    requires
        n <= list.len(),
    ensures
        value_models(list, n).len() == n,
        forall|i: int| 0 <= i < n ==> #[trigger] value_models(list, n)[i] == list[i].model(),
    decreases n,
{
    if n > 0 {
        lemma_value_models(list, (n - 1) as nat);
    }
}

/// The models of a prefix depend on the prefix alone.
pub proof fn lemma_value_models_push(list: Seq<GgufValue>, last: GgufValue, n: nat)
    requires
        n <= list.len(),
    ensures
        value_models(list.push(last), n) == value_models(list, n),
        value_models(list.push(last), (list.len() + 1) as nat) == value_models(list, list.len()).push(
            last.model(),
        ),
{
    lemma_value_models(list, n);
    lemma_value_models(list.push(last), n);
    assert(value_models(list.push(last), n) =~= value_models(list, n));
    lemma_value_models(list, list.len());
    lemma_value_models(list.push(last), list.len());
    assert(value_models(list.push(last), list.len()) =~= value_models(list, list.len()));
}

impl GgufValue {
    /// The mathematical model of this value.
    pub open spec fn model(self) -> ValueView
        decreases self,
    {
        match self {
            GgufValue::Uint8(v) => ValueView::Uint8(v),
            GgufValue::Int8(v) => ValueView::Int8(v),
            GgufValue::Uint16(v) => ValueView::Uint16(v),
            GgufValue::Int16(v) => ValueView::Int16(v),
            GgufValue::Uint32(v) => ValueView::Uint32(v),
            GgufValue::Int32(v) => ValueView::Int32(v),
            GgufValue::Float32(v) => ValueView::Float32(v),
            GgufValue::Bool(v) => ValueView::Bool(v),
            GgufValue::String(v) => ValueView::String(v@),
            GgufValue::Array(v) => ValueView::Array(value_models(v@, v@.len())),
            GgufValue::Uint64(v) => ValueView::Uint64(v),
            GgufValue::Int64(v) => ValueView::Int64(v),
            GgufValue::Float64(v) => ValueView::Float64(v),
        }
    }

    /// The value as a size, if it is a small integer that is not negative.
    pub open spec fn usize_value(self) -> Option<usize> {
        match self {
            GgufValue::Uint8(v) => Some(v as usize),
            GgufValue::Uint16(v) => Some(v as usize),
            GgufValue::Uint32(v) => Some(v as usize),
            GgufValue::Int16(v) => if v >= 0 {
                Some(v as usize)
            } else {
                None
            },
            GgufValue::Int32(v) => if v >= 0 {
                Some(v as usize)
            } else {
                None
            },
            _ => None,
        }
    }

    pub fn as_usize(&self) -> (result: Option<usize>)
        ensures
            result == self.usize_value(),
    {
        match self {
            GgufValue::Uint8(v) => Some(*v as usize),
            GgufValue::Uint16(v) => Some(*v as usize),
            GgufValue::Uint32(v) => Some(*v as usize),
            GgufValue::Int16(v) => if *v >= 0 {
                Some(*v as usize)
            } else {
                None
            },
            GgufValue::Int32(v) => if *v >= 0 {
                Some(*v as usize)
            } else {
                None
            },
            _ => None,
        }
    }

    /// The value as a single precision number: small integers are converted, single precision
    /// values are kept.
    pub open spec fn f32_value(self) -> Option<Float32> {
        match self {
            GgufValue::Uint8(v) => Some(Float32 { bits: float32_bits(v as int) }),
            GgufValue::Uint16(v) => Some(Float32 { bits: float32_bits(v as int) }),
            GgufValue::Int16(v) => Some(Float32 { bits: float32_bits(v as int) }),
            GgufValue::Float32(v) => Some(v),
            _ => None,
        }
    }

    pub fn as_f32(&self) -> (result: Option<Float32>)
        ensures
            result == self.f32_value(),
    {
        match self {
            GgufValue::Uint8(v) => Some(Float32::from_integer(*v as i32)),
            GgufValue::Uint16(v) => Some(Float32::from_integer(*v as i32)),
            GgufValue::Int16(v) => Some(Float32::from_integer(*v as i32)),
            GgufValue::Float32(v) => Some(*v),
            _ => None,
        }
    }

    pub open spec fn u32_value(self) -> Option<u32> {
        match self {
            GgufValue::Uint8(v) => Some(v as u32),
            GgufValue::Uint16(v) => Some(v as u32),
            GgufValue::Uint32(v) => Some(v),
            _ => None,
        }
    }

    pub fn as_u32(&self) -> (result: Option<u32>)
        ensures
            result == self.u32_value(),
    {
        match self {
            GgufValue::Uint8(v) => Some(*v as u32),
            GgufValue::Uint16(v) => Some(*v as u32),
            GgufValue::Uint32(v) => Some(*v),
            _ => None,
        }
    }

    pub open spec fn i32_value(self) -> Option<i32> {
        match self {
            GgufValue::Uint8(v) => Some(v as i32),
            GgufValue::Uint16(v) => Some(v as i32),
            GgufValue::Int8(v) => Some(v as i32),
            GgufValue::Int16(v) => Some(v as i32),
            GgufValue::Int32(v) => Some(v),
            _ => None,
        }
    }

    pub fn as_i32(&self) -> (result: Option<i32>)
        ensures
            result == self.i32_value(),
    {
        match self {
            GgufValue::Uint8(v) => Some(*v as i32),
            GgufValue::Uint16(v) => Some(*v as i32),
            GgufValue::Int8(v) => Some(*v as i32),
            GgufValue::Int16(v) => Some(*v as i32),
            GgufValue::Int32(v) => Some(*v),
            _ => None,
        }
    }

    pub open spec fn i64_value(self) -> Option<i64> {
        match self {
            GgufValue::Uint8(v) => Some(v as i64),
            GgufValue::Uint16(v) => Some(v as i64),
            GgufValue::Uint32(v) => Some(v as i64),
            GgufValue::Int32(v) => Some(v as i64),
            _ => None,
        }
    }

    pub fn as_i64(&self) -> (result: Option<i64>)
        ensures
            result == self.i64_value(),
    {
        match self {
            GgufValue::Uint8(v) => Some(*v as i64),
            GgufValue::Uint16(v) => Some(*v as i64),
            GgufValue::Uint32(v) => Some(*v as i64),
            GgufValue::Int32(v) => Some(*v as i64),
            _ => None,
        }
    }

    pub open spec fn bool_value(self) -> Option<bool> {
        match self {
            GgufValue::Bool(v) => Some(v),
            GgufValue::Uint8(v) => if v == 0 {
                Some(false)
            } else if v == 1 {
                Some(true)
            } else {
                None
            },
            _ => None,
        }
    }

    pub fn as_bool(&self) -> (result: Option<bool>)
        ensures
            result == self.bool_value(),
    {
        match self {
            GgufValue::Bool(v) => Some(*v),
            GgufValue::Uint8(v) => if *v == 0 {
                Some(false)
            } else if *v == 1 {
                Some(true)
            } else {
                None
            },
            _ => None,
        }
    }

    /// The text of a string value.
    pub open spec fn str_value(self) -> Option<Seq<char>> {
        match self {
            GgufValue::String(v) => Some(v@),
            _ => None,
        }
    }

    pub fn as_str(&self) -> (result: Option<&str>)
        ensures
            result is Some <==> self.str_value() is Some,
            result matches Some(text) ==> self.str_value() == Some(text@),
    {
        match self {
            GgufValue::String(v) => Some(v.as_str()),
            _ => None,
        }
    }

    pub fn as_slice(&self) -> (result: Option<&[GgufValue]>)
        ensures
            result is Some <==> *self is Array,
            result matches Some(items) ==> items@ == self->Array_0@,
    {
        match self {
            GgufValue::Array(v) => Some(v.as_slice()),
            _ => None,
        }
    }
}

/// A copy of a metadata value.
fn copy_of(value: &GgufValue) -> (result: GgufValue)
    ensures
        result.model() == value.model(),
    decreases value,
{
    match value {
        GgufValue::Uint8(v) => GgufValue::Uint8(*v),
        GgufValue::Int8(v) => GgufValue::Int8(*v),
        GgufValue::Uint16(v) => GgufValue::Uint16(*v),
        GgufValue::Int16(v) => GgufValue::Int16(*v),
        GgufValue::Uint32(v) => GgufValue::Uint32(*v),
        GgufValue::Int32(v) => GgufValue::Int32(*v),
        GgufValue::Float32(v) => GgufValue::Float32(*v),
        GgufValue::Bool(v) => GgufValue::Bool(*v),
        GgufValue::String(v) => GgufValue::String(v.clone()),
        GgufValue::Array(list) => {
            let mut out: Vec<GgufValue> = Vec::new();
            let mut i: usize = 0;
            while i < list.len()
                invariant
                    i <= list@.len(),
                    *value == GgufValue::Array(*list),
                    out@.len() == i,
                    value_models(out@, i as nat) == value_models(list@, i as nat),
                decreases list.len() - i,
            {
                assert(decreases_to!(*value => value->Array_0));
                assert(decreases_to!(*list => list@));
                assert(decreases_to!(list@ => list@[i as int]));
                let item = copy_of(&list[i]);
                proof {
                    lemma_value_models_push(out@, item, i as nat);
                }
                out.push(item);
                i = i + 1;
            }
            GgufValue::Array(out)
        },
        GgufValue::Uint64(v) => GgufValue::Uint64(*v),
        GgufValue::Int64(v) => GgufValue::Int64(*v),
        GgufValue::Float64(v) => GgufValue::Float64(*v),
    }
}

impl Clone for GgufValue {
    fn clone(&self) -> (result: Self)
        ensures
            result.model() == self.model(),
    {
        copy_of(self)
    }
}

impl GgufKVMeta {
    pub open spec fn model(self) -> KVView {
        KVView { key: self.key@, value_type: self.value_type, value: self.value.model() }
    }
}

impl GgufTensorInfo {
    pub open spec fn model(self) -> TensorView {
        TensorView {
            name: self.name@,
            n_dims: self.n_dims,
            shapes: self.shapes@,
            ggml_type: self.ggml_type,
            offset: self.offset,
        }
    }
}

} // verus!
