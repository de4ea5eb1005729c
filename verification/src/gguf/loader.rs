//! Reading the header, the metadata and the tensor descriptions of a GGUF file.
use vstd::arithmetic::power2::*;
use vstd::prelude::*;
use vstd::string::*;

use crate::error::{ErrorView, LociError};
use crate::float::{Float32, Float64};
use crate::gguf::cursor::{
    decode_text, le_value, mapped, parse_bytes, parse_int, parse_uint, text_or_error, yields,
    ByteCursor, Parsed,
};
use crate::gguf::types::{
    lemma_value_models_push, type_of_code, value_models, GgufHeaders, GgufInfo, GgufKVMeta,
    GgufTensorInfo, GgufType, GgufValue, KVView, TensorView, ValueView,
};
use crate::text::same_text;

verus! {

/// The longest string that is read, in bytes.
pub const MAX_STRING_LEN: u64 = 33_554_432;

/// The longest array that is read, in elements.
pub const MAX_ARRAY_ELEMENTS: u64 = 5_000_000;

/// The longest file that is read, in bytes. Longer ones leave no room for an aligned position.
pub const MAX_FILE_LEN: u64 = 0x7fff_ffff_0000_0000;

/// A failed step: nothing was gained, and the reader stands at `position`.
pub open spec fn failed<V>(error: ErrorView, position: int) -> Parsed<V> {
    Parsed { outcome: Err(error), position }
}

/// A string: its length in eight bytes, then its bytes.
pub open spec fn parse_string(data: Seq<u8>, pos: int) -> Parsed<Seq<char>> {
    let len = parse_uint(data, pos, 8, "reading string length"@);
    match len.outcome {
        Err(e) => failed(e, len.position),
        Ok(n) => if n > MAX_STRING_LEN {
            failed(
                ErrorView::InvalidFileFormat("String length exceeds safety threshold"@),
                len.position,
            )
        } else {
            let raw = parse_bytes(data, len.position, n as int, "reading string bytes"@);
            match raw.outcome {
                Err(e) => failed(e, raw.position),
                Ok(bytes) => Parsed {
                    outcome: text_or_error(bytes, pos),
                    position: raw.position,
                },
            }
        },
    }
}

/// A type code of four bytes.
pub open spec fn parse_type(data: Seq<u8>, pos: int) -> Parsed<GgufType> {
    let code = parse_int(data, pos, 4, "reading gguf type"@);
    match code.outcome {
        Err(e) => failed(e, code.position),
        Ok(n) => match type_of_code(n) {
            Some(t) => Parsed { outcome: Ok(t), position: code.position },
            None => failed(ErrorView::UnknownGgufType(n as i32), code.position),
        },
    }
}

/// What is left of the bytes.
pub open spec fn left(data: Seq<u8>, pos: int) -> int {
    if pos <= data.len() {
        data.len() - pos
    } else {
        0
    }
}

/// A value of the given type.
pub open spec fn parse_value(data: Seq<u8>, pos: int, t: GgufType) -> Parsed<ValueView>
    decreases left(data, pos), 0nat, 1nat,
{
    match t {
        GgufType::Uint8 => mapped(
            parse_uint(data, pos, 1, "reading u8"@),
            |n: nat| ValueView::Uint8(n as u8),
        ),
        GgufType::Int8 => mapped(
            parse_int(data, pos, 1, "reading i8"@),
            |n: int| ValueView::Int8(n as i8),
        ),
        GgufType::Uint16 => mapped(
            parse_uint(data, pos, 2, "reading u16"@),
            |n: nat| ValueView::Uint16(n as u16),
        ),
        GgufType::Int16 => mapped(
            parse_int(data, pos, 2, "reading i16"@),
            |n: int| ValueView::Int16(n as i16),
        ),
        GgufType::Uint32 => mapped(
            parse_uint(data, pos, 4, "reading u32"@),
            |n: nat| ValueView::Uint32(n as u32),
        ),
        GgufType::Int32 => mapped(
            parse_int(data, pos, 4, "reading i32"@),
            |n: int| ValueView::Int32(n as i32),
        ),
        GgufType::Float32 => mapped(
            parse_uint(data, pos, 4, "reading f32"@),
            |n: nat| ValueView::Float32(Float32 { bits: n as u32 }),
        ),
        GgufType::Bool => mapped(
            parse_int(data, pos, 1, "reading bool"@),
            |n: int| ValueView::Bool(n != 0),
        ),
        GgufType::String => mapped(parse_string(data, pos), |s: Seq<char>| ValueView::String(s)),
        GgufType::Array => mapped(
            parse_array(data, pos),
            |items: Seq<ValueView>| ValueView::Array(items),
        ),
        GgufType::Uint64 => mapped(
            parse_uint(data, pos, 8, "reading u64"@),
            |n: nat| ValueView::Uint64(n as u64),
        ),
        GgufType::Int64 => mapped(
            parse_int(data, pos, 8, "reading i64"@),
            |n: int| ValueView::Int64(n as i64),
        ),
        GgufType::Float64 => mapped(
            parse_uint(data, pos, 8, "reading f64"@),
            |n: nat| ValueView::Float64(Float64 { bits: n as u64 }),
        ),
    }
}

/// An array: the type of its items, their number in eight bytes, then the items.
pub open spec fn parse_array(data: Seq<u8>, pos: int) -> Parsed<Seq<ValueView>>
    decreases left(data, pos), 0nat, 0nat,
{
    let item_type = parse_type(data, pos);
    match item_type.outcome {
        Err(e) => failed(e, item_type.position),
        Ok(t) => {
            let count = parse_uint(data, item_type.position, 8, "reading array length"@);
            match count.outcome {
                Err(e) => failed(e, count.position),
                Ok(n) => if n > MAX_ARRAY_ELEMENTS {
                    failed(
                        ErrorView::InvalidFileFormat("Array length exceeds safety threshold"@),
                        count.position,
                    )
                } else {
                    parse_items(data, count.position, t, n)
                },
            }
        },
    }
}

/// `n` values of one type, one after the other. A value never ends before it starts, so the
/// first branch below is the only one that is taken after a success.
pub open spec fn parse_items(data: Seq<u8>, pos: int, t: GgufType, n: nat) -> Parsed<Seq<ValueView>>
    decreases left(data, pos), n, 2nat,
{
    if n == 0 {
        Parsed { outcome: Ok(seq![]), position: pos }
    } else {
        let before = parse_items(data, pos, t, (n - 1) as nat);
        match before.outcome {
            Ok(items) if pos <= before.position <= data.len() => {
                let next = parse_value(data, before.position, t);
                Parsed {
                    outcome: match next.outcome {
                        Ok(item) => Ok(items.push(item)),
                        Err(e) => Err(e),
                    },
                    position: next.position,
                }
            },
            _ => before,
        }
    }
}

/// A step never moves backwards, nor past the end.
pub proof fn lemma_value_bounds(data: Seq<u8>, pos: int, t: GgufType)
    requires
        0 <= pos <= data.len(),
    ensures
        pos <= parse_value(data, pos, t).position <= data.len(),
    decreases left(data, pos), 0nat, 1nat,
{
    if t is Array {
        lemma_array_bounds(data, pos);
    }
}

pub proof fn lemma_array_bounds(data: Seq<u8>, pos: int)
    requires
        0 <= pos <= data.len(),
    ensures
        pos <= parse_array(data, pos).position <= data.len(),
    decreases left(data, pos), 0nat, 0nat,
{
    let item_type = parse_type(data, pos);
    if let Ok(t) = item_type.outcome {
        let count = parse_uint(data, item_type.position, 8, "reading array length"@);
        if let Ok(n) = count.outcome {
            if n <= MAX_ARRAY_ELEMENTS {
                lemma_items_bounds(data, count.position, t, n);
            }
        }
    }
}

pub proof fn lemma_items_bounds(data: Seq<u8>, pos: int, t: GgufType, n: nat)
    requires
        0 <= pos <= data.len(),
    ensures
        pos <= parse_items(data, pos, t, n).position <= data.len(),
    decreases left(data, pos), n, 2nat,
{
    if n > 0 {
        lemma_items_bounds(data, pos, t, (n - 1) as nat);
        let before = parse_items(data, pos, t, (n - 1) as nat);
        if before.outcome is Ok {
            lemma_value_bounds(data, before.position, t);
        }
    }
}

/// A failed prefix fails the whole.
proof fn lemma_items_fail(data: Seq<u8>, pos: int, t: GgufType, m: nat, n: nat)
    requires
        0 <= pos <= data.len(),
        m <= n,
        parse_items(data, pos, t, m).outcome is Err,
    ensures
        parse_items(data, pos, t, n) == parse_items(data, pos, t, m),
    decreases n,
{
    if m < n {
        lemma_items_fail(data, pos, t, m, (n - 1) as nat);
    }
}

/// A position that cannot be reached.
pub open spec fn bad_seek(context: Seq<char>) -> ErrorView {
    ErrorView::IoWithContext {
        context,
        source: "invalid seek to a negative or overflowing position"@,
    }
}

/// Moves `n` bytes on. The end of the bytes is no limit, only the largest position is.
pub open spec fn seek(pos: int, n: int, context: Seq<char>) -> Parsed<()> {
    if pos + n <= u64::MAX {
        Parsed { outcome: Ok(()), position: pos + n }
    } else {
        failed(bad_seek(context), pos)
    }
}

/// The number of bytes of a value of a fixed size.
pub open spec fn fixed_size(t: GgufType) -> int {
    match t {
        GgufType::Uint8 | GgufType::Int8 | GgufType::Bool => 1,
        GgufType::Uint16 | GgufType::Int16 => 2,
        GgufType::Uint32 | GgufType::Int32 | GgufType::Float32 => 4,
        GgufType::Uint64 | GgufType::Int64 | GgufType::Float64 => 8,
        GgufType::String | GgufType::Array => 0,
    }
}

/// Moves past a value of the given type without reading it.
pub open spec fn skip_value(data: Seq<u8>, pos: int, t: GgufType) -> Parsed<()>
    decreases left(data, pos), 0nat, 1nat,
{
    match t {
        GgufType::String => {
            let len = parse_uint(data, pos, 8, "reading string length for skip"@);
            match len.outcome {
                Err(e) => failed(e, len.position),
                Ok(n) => if n > i64::MAX {
                    failed(bad_seek("skipping string"@), len.position)
                } else {
                    seek(len.position, n as int, "skipping string"@)
                },
            }
        },
        GgufType::Array => {
            let item_type = parse_type(data, pos);
            match item_type.outcome {
                Err(e) => failed(e, item_type.position),
                Ok(item) => {
                    let count = parse_uint(
                        data,
                        item_type.position,
                        8,
                        "reading array length for skip"@,
                    );
                    match count.outcome {
                        Err(e) => failed(e, count.position),
                        Ok(n) => skip_items(data, count.position, item, n),
                    }
                },
            }
        },
        _ => seek(pos, fixed_size(t), "skipping value"@),
    }
}

/// Moves past `n` values of one type. A value never ends before it starts, so the first branch
/// below is the only one that is taken after a success.
pub open spec fn skip_items(data: Seq<u8>, pos: int, t: GgufType, n: nat) -> Parsed<()>
    decreases left(data, pos), n, 2nat,
{
    if n == 0 {
        Parsed { outcome: Ok(()), position: pos }
    } else {
        let before = skip_items(data, pos, t, (n - 1) as nat);
        if before.outcome is Ok && pos <= before.position {
            skip_value(data, before.position, t)
        } else {
            before
        }
    }
}

proof fn lemma_skip_bounds(data: Seq<u8>, pos: int, t: GgufType)
    requires
        0 <= pos,
    ensures
        skip_value(data, pos, t).outcome is Ok ==> pos <= skip_value(data, pos, t).position,
    decreases left(data, pos), 0nat, 1nat,
{
    if t is Array {
        let item_type = parse_type(data, pos);
        if let Ok(item) = item_type.outcome {
            let count = parse_uint(
                data,
                item_type.position,
                8,
                "reading array length for skip"@,
            );
            if let Ok(n) = count.outcome {
                lemma_skip_items_bounds(data, count.position, item, n);
            }
        }
    }
}

proof fn lemma_skip_items_bounds(data: Seq<u8>, pos: int, t: GgufType, n: nat)
    requires
        0 <= pos,
    ensures
        skip_items(data, pos, t, n).outcome is Ok ==> pos <= skip_items(data, pos, t, n).position,
    decreases left(data, pos), n, 2nat,
{
    if n > 0 {
        lemma_skip_items_bounds(data, pos, t, (n - 1) as nat);
        let before = skip_items(data, pos, t, (n - 1) as nat);
        if before.outcome is Ok {
            lemma_skip_bounds(data, before.position, t);
        }
    }
}

proof fn lemma_skip_items_fail(data: Seq<u8>, pos: int, t: GgufType, m: nat, n: nat)
    requires
        m <= n,
        skip_items(data, pos, t, m).outcome is Err,
    ensures
        skip_items(data, pos, t, n) == skip_items(data, pos, t, m),
    decreases n,
{
    if m < n {
        lemma_skip_items_fail(data, pos, t, m, (n - 1) as nat);
    }
}

/// Where in the file an error happened.
pub open spec fn located(field: Seq<char>, offset: int, error: ErrorView) -> ErrorView {
    ErrorView::InvalidFileMetadata {
        file_type: "GGUF"@,
        field,
        offset: offset as u64,
        source: Box::new(error),
    }
}

/// One metadata entry: key, type, value. Errors name the position where the entry starts.
pub open spec fn parse_entry(data: Seq<u8>, pos: int) -> Parsed<KVView> {
    let key = parse_string(data, pos);
    match key.outcome {
        Err(e) => failed(located("metadata key"@, pos, e), key.position),
        Ok(name) => {
            let value_type = parse_type(data, key.position);
            match value_type.outcome {
                Err(e) => failed(located("metadata value type"@, pos, e), value_type.position),
                Ok(t) => {
                    let value = parse_value(data, value_type.position, t);
                    match value.outcome {
                        Err(e) => failed(
                            located("metadata value for key '"@ + name + "'"@, pos, e),
                            value.position,
                        ),
                        Ok(v) => Parsed {
                            outcome: Ok(KVView { key: name, value_type: t, value: v }),
                            position: value.position,
                        },
                    }
                },
            }
        },
    }
}

/// `n` metadata entries.
pub open spec fn parse_entries(data: Seq<u8>, pos: int, n: nat) -> Parsed<Seq<KVView>>
    decreases n,
{
    if n == 0 {
        Parsed { outcome: Ok(seq![]), position: pos }
    } else {
        let before = parse_entries(data, pos, (n - 1) as nat);
        match before.outcome {
            Err(_) => before,
            Ok(entries) => {
                let next = parse_entry(data, before.position);
                Parsed {
                    outcome: match next.outcome {
                        Ok(entry) => Ok(entries.push(entry)),
                        Err(e) => Err(e),
                    },
                    position: next.position,
                }
            },
        }
    }
}

/// The label of a field of a tensor description.
pub open spec fn tensor_field(name: Seq<char>, field: Seq<char>) -> Seq<char> {
    "tensor '"@ + name + "' "@ + field
}

/// `n` dimensions of a tensor. Errors name the position where the reader stopped.
pub open spec fn parse_shapes(data: Seq<u8>, pos: int, name: Seq<char>, n: nat) -> Parsed<Seq<i64>>
    decreases n,
{
    if n == 0 {
        Parsed { outcome: Ok(seq![]), position: pos }
    } else {
        let before = parse_shapes(data, pos, name, (n - 1) as nat);
        match before.outcome {
            Err(_) => before,
            Ok(shapes) => {
                let next = parse_int(data, before.position, 8, "reading i64"@);
                Parsed {
                    outcome: match next.outcome {
                        Ok(shape) => Ok(shapes.push(shape as i64)),
                        Err(e) => Err(located(tensor_field(name, "shape"@), next.position, e)),
                    },
                    position: next.position,
                }
            },
        }
    }
}

/// What is said of a tensor with less than no dimensions.
pub open spec fn negative_dimensions() -> ErrorView {
    ErrorView::InvalidFileFormat("Number of dimensions is negative"@)
}

/// One tensor description: name, number of dimensions, dimensions, storage type, offset.
pub open spec fn parse_tensor(data: Seq<u8>, pos: int) -> Parsed<TensorView> {
    let name = parse_string(data, pos);
    match name.outcome {
        Err(e) => failed(located("tensor name"@, pos, e), name.position),
        Ok(label) => {
            let dims = parse_int(data, name.position, 4, "reading i32"@);
            match dims.outcome {
                Err(e) => failed(
                    located(tensor_field(label, "n_dims"@), dims.position, e),
                    dims.position,
                ),
                Ok(n_dims) => if n_dims < 0 {
                    failed(
                        located(tensor_field(label, "n_dims"@), dims.position, negative_dimensions()),
                        dims.position,
                    )
                } else {
                    let shapes = parse_shapes(data, dims.position, label, n_dims as nat);
                    match shapes.outcome {
                        Err(e) => failed(e, shapes.position),
                        Ok(shape) => parse_tensor_tail(
                            data,
                            shapes.position,
                            label,
                            n_dims as i32,
                            shape,
                        ),
                    }
                },
            }
        },
    }
}

/// The end of a tensor description: storage type and offset.
pub open spec fn parse_tensor_tail(
    data: Seq<u8>,
    pos: int,
    label: Seq<char>,
    n_dims: i32,
    shapes: Seq<i64>,
) -> Parsed<TensorView> {
    let storage = parse_int(data, pos, 4, "reading i32"@);
    match storage.outcome {
        Err(e) => failed(
            located(tensor_field(label, "ggml_type"@), storage.position, e),
            storage.position,
        ),
        Ok(code) => {
            let offset = parse_int(data, storage.position, 8, "reading i64"@);
            match offset.outcome {
                Err(e) => failed(
                    located(tensor_field(label, "offset"@), offset.position, e),
                    offset.position,
                ),
                Ok(at) => Parsed {
                    outcome: Ok(
                        TensorView {
                            name: label,
                            n_dims,
                            shapes,
                            ggml_type: code as i32,
                            offset: at as i64,
                        },
                    ),
                    position: offset.position,
                },
            }
        },
    }
}

/// `n` tensor descriptions.
pub open spec fn parse_tensors(data: Seq<u8>, pos: int, n: nat) -> Parsed<Seq<TensorView>>
    decreases n,
{
    if n == 0 {
        Parsed { outcome: Ok(seq![]), position: pos }
    } else {
        let before = parse_tensors(data, pos, (n - 1) as nat);
        match before.outcome {
            Err(_) => before,
            Ok(tensors) => {
                let next = parse_tensor(data, before.position);
                Parsed {
                    outcome: match next.outcome {
                        Ok(tensor) => Ok(tensors.push(tensor)),
                        Err(e) => Err(e),
                    },
                    position: next.position,
                }
            },
        }
    }
}

/// The integer that a value gives as an alignment.
pub open spec fn integer_of(value: ValueView) -> Option<i64> {
    match value {
        ValueView::Uint8(v) => Some(v as i64),
        ValueView::Uint16(v) => Some(v as i64),
        ValueView::Uint32(v) => Some(v as i64),
        ValueView::Int32(v) => Some(v as i64),
        _ => None,
    }
}

/// The first entry with a key, from index `i` on.
pub open spec fn first_entry(entries: Seq<KVView>, key: Seq<char>, i: int) -> Option<KVView>
    decreases entries.len() - i,
{
    if i < 0 || i >= entries.len() {
        None
    } else if entries[i].key == key {
        Some(entries[i])
    } else {
        first_entry(entries, key, i + 1)
    }
}

/// The alignment that the metadata asks for: that of the first entry with the key, 32 if there is
/// none or if its value is no integer of a fitting type.
pub open spec fn alignment_of(entries: Seq<KVView>) -> i64 {
    match first_entry(entries, "general.alignment"@, 0) {
        Some(entry) => match integer_of(entry.value) {
            Some(v) => v,
            None => 32,
        },
        None => 32,
    }
}

/// The position rounded up by the alignment's bit mask; alignments below one count as one.
pub open spec fn aligned(pos: int, alignment: i64) -> i64 {
    let a: int = if alignment < 1 {
        1
    } else {
        alignment as int
    };
    ((pos + (a - 1)) as i64) & !((a - 1) as i64)
}

/// The mathematical model of what a file says of its contents.
pub struct InfoView {
    pub path: Seq<char>,
    pub magic: Seq<char>,
    pub version: u32,
    pub tensor_count: u64,
    pub metadata_kv_count: u64,
    pub kv_meta: Seq<KVView>,
    pub tensor_info: Seq<TensorView>,
    pub tensor_offset_start: i64,
}

impl GgufInfo {
    pub open spec fn model(self) -> InfoView {
        InfoView {
            path: self.headers.path@,
            magic: self.headers.magic@,
            version: self.headers.version,
            tensor_count: self.headers.tensor_count,
            metadata_kv_count: self.headers.metadata_kv_count,
            kv_meta: self.kv_meta@.map_values(|e: GgufKVMeta| e.model()),
            tensor_info: self.tensor_info@.map_values(|t: GgufTensorInfo| t.model()),
            tensor_offset_start: self.tensor_offset_start,
        }
    }
}

/// The file: magic bytes, version, two counts, the metadata entries, the tensor descriptions. The
/// tensor data start at the next aligned position.
pub open spec fn parse_file(data: Seq<u8>, path: Seq<char>) -> Result<InfoView, ErrorView> {
    let magic = parse_bytes(data, 0, 4, "reading magic bytes"@);
    match magic.outcome {
        Err(e) => Err(e),
        Ok(m) => if m != seq![0x47u8, 0x47u8, 0x55u8, 0x46u8] {
            Err(ErrorView::InvalidFileFormat("GGUF file has magic bytes mismatch"@))
        } else {
            let version = parse_uint(data, 4, 4, "reading version"@);
            let tensor_count = parse_uint(data, 8, 8, "reading tensor_count"@);
            let kv_count = parse_uint(data, 16, 8, "reading metadata_kv_count"@);
            match (version.outcome, tensor_count.outcome, kv_count.outcome) {
                (Err(e), _, _) => Err(e),
                (_, Err(e), _) => Err(e),
                (_, _, Err(e)) => Err(e),
                (Ok(v), Ok(tensors), Ok(entries)) => parse_body(
                    data,
                    path,
                    v as u32,
                    tensors as u64,
                    entries as u64,
                ),
            }
        },
    }
}

/// What follows the counts.
pub open spec fn parse_body(
    data: Seq<u8>,
    path: Seq<char>,
    version: u32,
    tensor_count: u64,
    metadata_kv_count: u64,
) -> Result<InfoView, ErrorView> {
    let entries = parse_entries(data, 24, metadata_kv_count as nat);
    match entries.outcome {
        Err(e) => Err(e),
        Ok(kv_meta) => {
            let tensors = parse_tensors(data, entries.position, tensor_count as nat);
            match tensors.outcome {
                Err(e) => Err(e),
                Ok(tensor_info) => Ok(
                    InfoView {
                        path,
                        magic: "GGUF"@,
                        version,
                        tensor_count,
                        metadata_kv_count,
                        kv_meta,
                        tensor_info,
                        tensor_offset_start: aligned(tensors.position, alignment_of(kv_meta)),
                    },
                ),
            }
        },
    }
}

/// `result` is what the bytes of the file at a path say.
pub open spec fn is_read_from(
    result: Result<GgufInfo, LociError>,
    data: Seq<u8>,
    path: Seq<char>,
) -> bool {
    match result {
        Ok(info) => parse_file(data, path) == Ok::<InfoView, ErrorView>(info.model()),
        Err(e) => parse_file(data, path) == Err::<InfoView, ErrorView>(e@),
    }
}

/// The reader of GGUF files.
pub struct Loader;

impl Loader {
    pub fn read_gguf_uint8(cursor: &mut ByteCursor) -> (result: Result<u8, LociError>)
        ensures
            final(cursor).bytes == old(cursor).bytes,
            yields(
                result,
                final(cursor).position,
                parse_uint(old(cursor).bytes@, old(cursor).position as int, 1, "reading u8"@),
                |v: u8| v as nat,
            ),
    {
        cursor.read_u8("reading u8")
    }

    pub fn read_gguf_int8(cursor: &mut ByteCursor) -> (result: Result<i8, LociError>)
        ensures
            final(cursor).bytes == old(cursor).bytes,
            yields(
                result,
                final(cursor).position,
                parse_int(old(cursor).bytes@, old(cursor).position as int, 1, "reading i8"@),
                |v: i8| v as int,
            ),
    {
        cursor.read_i8("reading i8")
    }

    pub fn read_gguf_uint16(cursor: &mut ByteCursor) -> (result: Result<u16, LociError>)
        ensures
            final(cursor).bytes == old(cursor).bytes,
            yields(
                result,
                final(cursor).position,
                parse_uint(old(cursor).bytes@, old(cursor).position as int, 2, "reading u16"@),
                |v: u16| v as nat,
            ),
    {
        cursor.read_u16("reading u16")
    }

    pub fn read_gguf_int16(cursor: &mut ByteCursor) -> (result: Result<i16, LociError>)
        ensures
            final(cursor).bytes == old(cursor).bytes,
            yields(
                result,
                final(cursor).position,
                parse_int(old(cursor).bytes@, old(cursor).position as int, 2, "reading i16"@),
                |v: i16| v as int,
            ),
    {
        cursor.read_i16("reading i16")
    }

    pub fn read_gguf_uint32(cursor: &mut ByteCursor) -> (result: Result<u32, LociError>)
        ensures
            final(cursor).bytes == old(cursor).bytes,
            yields(
                result,
                final(cursor).position,
                parse_uint(old(cursor).bytes@, old(cursor).position as int, 4, "reading u32"@),
                |v: u32| v as nat,
            ),
    {
        cursor.read_u32("reading u32")
    }

    pub fn read_gguf_int32(cursor: &mut ByteCursor) -> (result: Result<i32, LociError>)
        ensures
            final(cursor).bytes == old(cursor).bytes,
            yields(
                result,
                final(cursor).position,
                parse_int(old(cursor).bytes@, old(cursor).position as int, 4, "reading i32"@),
                |v: i32| v as int,
            ),
    {
        cursor.read_i32("reading i32")
    }

    /// A single precision number, by its bit pattern.
    pub fn read_gguf_float32(cursor: &mut ByteCursor) -> (result: Result<Float32, LociError>)
        ensures
            final(cursor).bytes == old(cursor).bytes,
            yields(
                result,
                final(cursor).position,
                parse_uint(old(cursor).bytes@, old(cursor).position as int, 4, "reading f32"@),
                |v: Float32| v.bits as nat,
            ),
    {
        match cursor.read_u32("reading f32") {
            Ok(bits) => Ok(Float32 { bits }),
            Err(e) => Err(e),
        }
    }

    pub fn read_gguf_uint64(cursor: &mut ByteCursor) -> (result: Result<u64, LociError>)
        ensures
            final(cursor).bytes == old(cursor).bytes,
            yields(
                result,
                final(cursor).position,
                parse_uint(old(cursor).bytes@, old(cursor).position as int, 8, "reading u64"@),
                |v: u64| v as nat,
            ),
    {
        cursor.read_u64("reading u64")
    }

    pub fn read_gguf_int64(cursor: &mut ByteCursor) -> (result: Result<i64, LociError>)
        ensures
            final(cursor).bytes == old(cursor).bytes,
            yields(
                result,
                final(cursor).position,
                parse_int(old(cursor).bytes@, old(cursor).position as int, 8, "reading i64"@),
                |v: i64| v as int,
            ),
    {
        cursor.read_i64("reading i64")
    }

    /// A double precision number, by its bit pattern.
    pub fn read_gguf_float64(cursor: &mut ByteCursor) -> (result: Result<Float64, LociError>)
        ensures
            final(cursor).bytes == old(cursor).bytes,
            yields(
                result,
                final(cursor).position,
                parse_uint(old(cursor).bytes@, old(cursor).position as int, 8, "reading f64"@),
                |v: Float64| v.bits as nat,
            ),
    {
        match cursor.read_u64("reading f64") {
            Ok(bits) => Ok(Float64 { bits }),
            Err(e) => Err(e),
        }
    }

    /// A truth value: any byte but zero is true.
    pub fn read_gguf_bool(cursor: &mut ByteCursor) -> (result: Result<bool, LociError>)
        ensures
            final(cursor).bytes == old(cursor).bytes,
            yields(
                result,
                final(cursor).position,
                mapped(
                    parse_int(old(cursor).bytes@, old(cursor).position as int, 1, "reading bool"@),
                    |n: int| n != 0,
                ),
                |v: bool| v,
            ),
    {
        match cursor.read_i8("reading bool") {
            Ok(value) => Ok(value != 0),
            Err(e) => Err(e),
        }
    }

    pub fn read_gguf_string(cursor: &mut ByteCursor) -> (result: Result<String, LociError>)
        ensures
            final(cursor).bytes == old(cursor).bytes,
            yields(
                result,
                final(cursor).position,
                parse_string(old(cursor).bytes@, old(cursor).position as int),
                |v: String| v@,
            ),
    {
        let pos: u64 = cursor.position;
        let len: u64 = match cursor.read_u64("reading string length") {
            Ok(len) => len,
            Err(e) => {
                return Err(e);
            },
        };
        if len > MAX_STRING_LEN {
            return Err(
                LociError::InvalidFileFormat(
                    String::from_str("String length exceeds safety threshold"),
                ),
            );
        }
        match cursor.read_bytes(len, "reading string bytes") {
            Ok(bytes) => decode_text(bytes, pos),
            Err(e) => Err(e),
        }
    }

    pub fn read_gguf_type(cursor: &mut ByteCursor) -> (result: Result<GgufType, LociError>)
        ensures
            final(cursor).bytes == old(cursor).bytes,
            yields(
                result,
                final(cursor).position,
                parse_type(old(cursor).bytes@, old(cursor).position as int),
                |v: GgufType| v,
            ),
    {
        match cursor.read_i32("reading gguf type") {
            Ok(n) => match GgufType::from_i32(n) {
                Some(t) => Ok(t),
                None => Err(LociError::UnknownGgufType(n)),
            },
            Err(e) => Err(e),
        }
    }

    pub fn read_gguf_array(cursor: &mut ByteCursor) -> (result: Result<Vec<GgufValue>, LociError>)
        requires
            old(cursor).position <= old(cursor).bytes@.len(),
        ensures
            final(cursor).bytes == old(cursor).bytes,
            yields(
                result,
                final(cursor).position,
                parse_array(old(cursor).bytes@, old(cursor).position as int),
                |v: Vec<GgufValue>| value_models(v@, v@.len()),
            ),
        decreases old(cursor).bytes@.len() - old(cursor).position, 0nat,
    {
        let ghost data = cursor.bytes@;
        let ghost start = cursor.position as int;
        let value_type = match Self::read_gguf_type(cursor) {
            Ok(t) => t,
            Err(e) => {
                return Err(e);
            },
        };
        let entries_num: u64 = match cursor.read_u64("reading array length") {
            Ok(n) => n,
            Err(e) => {
                return Err(e);
            },
        };
        if entries_num > MAX_ARRAY_ELEMENTS {
            return Err(
                LociError::InvalidFileFormat(
                    String::from_str("Array length exceeds safety threshold"),
                ),
            );
        }
        let mut values: Vec<GgufValue> = Vec::new();
        let ghost first = cursor.position as int;
        let mut i: u64 = 0;
        while i < entries_num
            invariant
                i <= entries_num,
                cursor.bytes == old(cursor).bytes,
                data == cursor.bytes@,
                start == old(cursor).position,
                start < first <= cursor.position <= data.len(),
                values@.len() == i,
                parse_items(data, first, value_type, i as nat) == (Parsed {
                    outcome: Ok::<Seq<ValueView>, ErrorView>(value_models(values@, i as nat)),
                    position: cursor.position as int,
                }),
                parse_array(data, start) == parse_items(
                    data,
                    first,
                    value_type,
                    entries_num as nat,
                ),
            decreases entries_num - i,
        {
            proof {
                lemma_items_bounds(data, first, value_type, (i + 1) as nat);
            }
            match Self::get_gguf_value(cursor, &value_type) {
                Ok(value) => {
                    proof {
                        lemma_value_models_push(values@, value, i as nat);
                    }
                    values.push(value);
                },
                Err(e) => {
                    proof {
                        lemma_items_fail(
                            data,
                            first,
                            value_type,
                            (i + 1) as nat,
                            entries_num as nat,
                        );
                    }
                    return Err(e);
                },
            }
            i = i + 1;
        }
        Ok(values)
    }

    pub fn get_gguf_value(cursor: &mut ByteCursor, value_type: &GgufType) -> (result: Result<
        GgufValue,
        LociError,
    >)
        requires
            old(cursor).position <= old(cursor).bytes@.len(),
        ensures
            final(cursor).bytes == old(cursor).bytes,
            yields(
                result,
                final(cursor).position,
                parse_value(old(cursor).bytes@, old(cursor).position as int, *value_type),
                |v: GgufValue| v.model(),
            ),
        decreases old(cursor).bytes@.len() - old(cursor).position, 1nat,
    {
        match value_type {
            GgufType::Uint8 => match Self::read_gguf_uint8(cursor) {
                Ok(v) => Ok(GgufValue::Uint8(v)),
                Err(e) => Err(e),
            },
            GgufType::Int8 => match Self::read_gguf_int8(cursor) {
                Ok(v) => Ok(GgufValue::Int8(v)),
                Err(e) => Err(e),
            },
            GgufType::Uint16 => match Self::read_gguf_uint16(cursor) {
                Ok(v) => Ok(GgufValue::Uint16(v)),
                Err(e) => Err(e),
            },
            GgufType::Int16 => match Self::read_gguf_int16(cursor) {
                Ok(v) => Ok(GgufValue::Int16(v)),
                Err(e) => Err(e),
            },
            GgufType::Uint32 => match Self::read_gguf_uint32(cursor) {
                Ok(v) => Ok(GgufValue::Uint32(v)),
                Err(e) => Err(e),
            },
            GgufType::Int32 => match Self::read_gguf_int32(cursor) {
                Ok(v) => Ok(GgufValue::Int32(v)),
                Err(e) => Err(e),
            },
            GgufType::Float32 => match Self::read_gguf_float32(cursor) {
                Ok(v) => Ok(GgufValue::Float32(v)),
                Err(e) => Err(e),
            },
            GgufType::Bool => match Self::read_gguf_bool(cursor) {
                Ok(v) => Ok(GgufValue::Bool(v)),
                Err(e) => Err(e),
            },
            GgufType::String => match Self::read_gguf_string(cursor) {
                Ok(v) => Ok(GgufValue::String(v)),
                Err(e) => Err(e),
            },
            GgufType::Array => match Self::read_gguf_array(cursor) {
                Ok(v) => Ok(GgufValue::Array(v)),
                Err(e) => Err(e),
            },
            GgufType::Uint64 => match Self::read_gguf_uint64(cursor) {
                Ok(v) => Ok(GgufValue::Uint64(v)),
                Err(e) => Err(e),
            },
            GgufType::Int64 => match Self::read_gguf_int64(cursor) {
                Ok(v) => Ok(GgufValue::Int64(v)),
                Err(e) => Err(e),
            },
            GgufType::Float64 => match Self::read_gguf_float64(cursor) {
                Ok(v) => Ok(GgufValue::Float64(v)),
                Err(e) => Err(e),
            },
        }
    }

    /// Moves the cursor `n` bytes on.
    fn seek_forward(cursor: &mut ByteCursor, n: u64, context: &'static str) -> (result: Result<
        (),
        LociError,
    >)
        ensures
            final(cursor).bytes == old(cursor).bytes,
            yields(
                result,
                final(cursor).position,
                seek(old(cursor).position as int, n as int, context@),
                |v: ()| v,
            ),
    {
        if n > u64::MAX - cursor.position {
            return Err(
                LociError::IoWithContext {
                    context,
                    source: String::from_str("invalid seek to a negative or overflowing position"),
                },
            );
        }
        cursor.position = cursor.position + n;
        Ok(())
    }

    /// Moves past a value. A string whose length has the top bit set cannot be passed.
    pub fn skip_gguf_value(cursor: &mut ByteCursor, value_type: &GgufType) -> (result: Result<
        (),
        LociError,
    >)
        ensures
            final(cursor).bytes == old(cursor).bytes,
            yields(
                result,
                final(cursor).position,
                skip_value(old(cursor).bytes@, old(cursor).position as int, *value_type),
                |v: ()| v,
            ),
        decreases left(old(cursor).bytes@, old(cursor).position as int),
    {
        match value_type {
            GgufType::Uint8 | GgufType::Int8 | GgufType::Bool => Self::seek_forward(
                cursor,
                1,
                "skipping value",
            ),
            GgufType::Uint16 | GgufType::Int16 => Self::seek_forward(cursor, 2, "skipping value"),
            GgufType::Uint32 | GgufType::Int32 | GgufType::Float32 => Self::seek_forward(
                cursor,
                4,
                "skipping value",
            ),
            GgufType::Uint64 | GgufType::Int64 | GgufType::Float64 => Self::seek_forward(
                cursor,
                8,
                "skipping value",
            ),
            GgufType::String => {
                let len: u64 = match cursor.read_u64("reading string length for skip") {
                    Ok(n) => n,
                    Err(e) => {
                        return Err(e);
                    },
                };
                if len > 0x7fff_ffff_ffff_ffff {
                    return Err(
                        LociError::IoWithContext {
                            context: "skipping string",
                            source: String::from_str(
                                "invalid seek to a negative or overflowing position",
                            ),
                        },
                    );
                }
                Self::seek_forward(cursor, len, "skipping string")
            },
            GgufType::Array => {
                let ghost data = cursor.bytes@;
                let ghost start = cursor.position as int;
                let item_type = match Self::read_gguf_type(cursor) {
                    Ok(t) => t,
                    Err(e) => {
                        return Err(e);
                    },
                };
                let entries_num: u64 = match cursor.read_u64("reading array length for skip") {
                    Ok(n) => n,
                    Err(e) => {
                        return Err(e);
                    },
                };
                let ghost first = cursor.position as int;
                let mut i: u64 = 0;
                while i < entries_num
                    invariant
                        i <= entries_num,
                        cursor.bytes == old(cursor).bytes,
                        data == cursor.bytes@,
                        start == old(cursor).position,
                        start < first <= data.len(),
                        first <= cursor.position,
                        skip_items(data, first, item_type, i as nat) == (Parsed {
                            outcome: Ok::<(), ErrorView>(()),
                            position: cursor.position as int,
                        }),
                        skip_value(data, start, GgufType::Array) == skip_items(
                            data,
                            first,
                            item_type,
                            entries_num as nat,
                        ),
                        *value_type == GgufType::Array,
                    decreases entries_num - i,
                {
                    proof {
                        lemma_skip_bounds(data, cursor.position as int, item_type);
                    }
                    match Self::skip_gguf_value(cursor, &item_type) {
                        Ok(()) => {},
                        Err(e) => {
                            proof {
                                lemma_skip_items_fail(
                                    data,
                                    first,
                                    item_type,
                                    (i + 1) as nat,
                                    entries_num as nat,
                                );
                            }
                            return Err(e);
                        },
                    }
                    i = i + 1;
                }
                Ok(())
            },
        }
    }

    /// The alignment of the tensor data.
    pub fn get_byte_alignment(kv_meta: &[GgufKVMeta]) -> (result: i64)
        ensures
            result == alignment_of(kv_meta@.map_values(|e: GgufKVMeta| e.model())),
            -0x8000_0000 <= result <= 0xffff_ffff,
    {
        let ghost entries = kv_meta@.map_values(|e: GgufKVMeta| e.model());
        let mut i: usize = 0;
        while i < kv_meta.len()
            invariant
                i <= kv_meta@.len(),
                entries == kv_meta@.map_values(|e: GgufKVMeta| e.model()),
                first_entry(entries, "general.alignment"@, 0) == first_entry(
                    entries,
                    "general.alignment"@,
                    i as int,
                ),
            decreases kv_meta.len() - i,
        {
            assert(entries[i as int] == kv_meta@[i as int].model());
            if same_text(kv_meta[i].key.as_str(), "general.alignment") {
                return match kv_meta[i].value.as_i64() {
                    Some(v) => v,
                    None => 32,
                };
            }
            i = i + 1;
        }
        32
    }

    /// The next aligned position.
    pub fn get_pos_with_byte_alignment(cursor: &ByteCursor, alignment: i64) -> (result: i64)
        requires
            cursor.position + alignment <= i64::MAX,
            cursor.position <= i64::MAX,
        ensures
            result == aligned(cursor.position as int, alignment),
    {
        let alignment: i64 = if alignment < 1 {
            1
        } else {
            alignment
        };
        let current_pos: i64 = cursor.position as i64;
        (current_pos + (alignment - 1)) & !(alignment - 1)
    }

    /// One metadata entry.
    fn read_entry(cursor: &mut ByteCursor) -> (result: Result<GgufKVMeta, LociError>)
        requires
            old(cursor).position <= old(cursor).bytes@.len(),
        ensures
            final(cursor).bytes == old(cursor).bytes,
            yields(
                result,
                final(cursor).position,
                parse_entry(old(cursor).bytes@, old(cursor).position as int),
                |v: GgufKVMeta| v.model(),
            ),
    {
        let position: u64 = cursor.position;
        let key = match Self::read_gguf_string(cursor) {
            Ok(key) => key,
            Err(e) => {
                return Err(e.with_meta_ctx("GGUF", "metadata key", position));
            },
        };
        let value_type = match Self::read_gguf_type(cursor) {
            Ok(t) => t,
            Err(e) => {
                return Err(e.with_meta_ctx("GGUF", "metadata value type", position));
            },
        };
        match Self::get_gguf_value(cursor, &value_type) {
            Ok(value) => Ok(GgufKVMeta { key, value_type, value }),
            Err(e) => {
                let mut field = String::from_str("metadata value for key '");
                field.append(key.as_str());
                field.append("'");
                Err(e.with_meta_ctx("GGUF", field.as_str(), position))
            },
        }
    }

    /// Labels an error with the tensor's name, the field and the position reached.
    fn tensor_error(e: LociError, name: &str, field: &str, position: u64) -> (result: LociError)
        ensures
            result@ == located(tensor_field(name@, field@), position as int, e@),
    {
        let mut label = String::from_str("tensor '");
        label.append(name);
        label.append("' ");
        label.append(field);
        e.with_meta_ctx("GGUF", label.as_str(), position)
    }

    /// One tensor description.
    fn read_tensor(cursor: &mut ByteCursor) -> (result: Result<GgufTensorInfo, LociError>)
        requires
            old(cursor).position <= old(cursor).bytes@.len(),
        ensures
            final(cursor).bytes == old(cursor).bytes,
            yields(
                result,
                final(cursor).position,
                parse_tensor(old(cursor).bytes@, old(cursor).position as int),
                |v: GgufTensorInfo| v.model(),
            ),
    {
        let ghost data = cursor.bytes@;
        let ghost start = cursor.position as int;
        let position: u64 = cursor.position;
        let name = match Self::read_gguf_string(cursor) {
            Ok(name) => name,
            Err(e) => {
                return Err(e.with_meta_ctx("GGUF", "tensor name", position));
            },
        };
        let n_dims: i32 = match Self::read_gguf_int32(cursor) {
            Ok(n) => n,
            Err(e) => {
                return Err(
                    Self::tensor_error(e, name.as_str(), "n_dims", cursor.position),
                );
            },
        };
        if n_dims < 0 {
            return Err(
                Self::tensor_error(
                    LociError::InvalidFileFormat(
                        String::from_str("Number of dimensions is negative"),
                    ),
                    name.as_str(),
                    "n_dims",
                    cursor.position,
                ),
            );
        }
        let ghost first = cursor.position as int;
        let mut shapes: Vec<i64> = Vec::new();
        let mut i: i32 = 0;
        while i < n_dims
            invariant
                0 <= i <= n_dims,
                cursor.bytes == old(cursor).bytes,
                data == cursor.bytes@,
                start == old(cursor).position,
                start <= data.len(),
                first <= cursor.position <= data.len(),
                parse_shapes(data, first, name@, i as nat) == (Parsed {
                    outcome: Ok::<Seq<i64>, ErrorView>(shapes@),
                    position: cursor.position as int,
                }),
                parse_string(data, start).outcome == Ok::<Seq<char>, ErrorView>(name@),
                parse_int(
                    data,
                    parse_string(data, start).position,
                    4,
                    "reading i32"@,
                ) == (Parsed { outcome: Ok::<int, ErrorView>(n_dims as int), position: first }),
            decreases n_dims - i,
        {
            match Self::read_gguf_int64(cursor) {
                Ok(shape) => {
                    shapes.push(shape);
                },
                Err(e) => {
                    proof {
                        lemma_shapes_fail(data, first, name@, (i + 1) as nat, n_dims as nat);
                    }
                    return Err(Self::tensor_error(e, name.as_str(), "shape", cursor.position));
                },
            }
            i = i + 1;
        }
        let ggml_type: i32 = match Self::read_gguf_int32(cursor) {
            Ok(n) => n,
            Err(e) => {
                return Err(
                    Self::tensor_error(e, name.as_str(), "ggml_type", cursor.position),
                );
            },
        };
        match Self::read_gguf_int64(cursor) {
            Ok(offset) => Ok(GgufTensorInfo { name, n_dims, shapes, ggml_type, offset }),
            Err(e) => Err(Self::tensor_error(e, name.as_str(), "offset", cursor.position)),
        }
    }

    /// Reads what the GGUF file at a path says of its contents, given what came of reading it. A
    /// file that cannot be read is an error, and so is one that no machine can hold.
    pub fn load_gguf_info(path: &str, read: Result<&[u8], LociError>) -> (result: Result<
        GgufInfo,
        LociError,
    >)
        ensures
            match read {
                Err(error) => result == Err::<GgufInfo, LociError>(error),
                Ok(bytes) => if bytes@.len() > MAX_FILE_LEN {
                    result matches Err(e) && e@ == ErrorView::InvalidFileFormat(
                        "The file is too long"@,
                    )
                } else {
                    is_read_from(result, bytes@, path@)
                },
            },
    {
        let bytes = match read {
            Ok(bytes) => bytes,
            Err(error) => {
                return Err(error);
            },
        };
        if bytes.len() as u64 > MAX_FILE_LEN {
            return Err(LociError::InvalidFileFormat(String::from_str("The file is too long")));
        }
        Self::load_gguf_info_from_bytes(bytes, path)
    }

    /// Reads what a GGUF file says of its contents from the file's bytes.
    pub fn load_gguf_info_from_bytes(bytes: &[u8], path: &str) -> (result: Result<
        GgufInfo,
        LociError,
    >)
        requires
            bytes@.len() <= MAX_FILE_LEN,
        ensures
            is_read_from(result, bytes@, path@),
    {
        let ghost data = bytes@;
        let mut cursor = ByteCursor::new(bytes);
        let magic: Vec<u8> = match cursor.read_bytes(4, "reading magic bytes") {
            Ok(magic) => magic,
            Err(e) => {
                return Err(e);
            },
        };
        if magic[0] != 0x47 || magic[1] != 0x47 || magic[2] != 0x55 || magic[3] != 0x46 {
            assert(magic@ != seq![0x47u8, 0x47u8, 0x55u8, 0x46u8]);
            return Err(
                LociError::InvalidFileFormat(String::from_str("GGUF file has magic bytes mismatch")),
            );
        }
        assert(magic@ =~= seq![0x47u8, 0x47u8, 0x55u8, 0x46u8]);
        let version: u32 = match cursor.read_u32("reading version") {
            Ok(n) => n,
            Err(e) => {
                return Err(e);
            },
        };
        let tensor_count: u64 = match cursor.read_u64("reading tensor_count") {
            Ok(n) => n,
            Err(e) => {
                return Err(e);
            },
        };
        let metadata_kv_count: u64 = match cursor.read_u64("reading metadata_kv_count") {
            Ok(n) => n,
            Err(e) => {
                return Err(e);
            },
        };
        assert(parse_file(data, path@) == parse_body(
            data,
            path@,
            version,
            tensor_count,
            metadata_kv_count,
        ));
        let mut kv_meta: Vec<GgufKVMeta> = Vec::new();
        assert(kv_meta@.map_values(|e: GgufKVMeta| e.model()) =~= seq![]);
        let mut i: u64 = 0;
        while i < metadata_kv_count
            invariant
                i <= metadata_kv_count,
                cursor.bytes@ == data,
                cursor.position <= data.len(),
                parse_entries(data, 24, i as nat) == (Parsed {
                    outcome: Ok::<Seq<KVView>, ErrorView>(
                        kv_meta@.map_values(|e: GgufKVMeta| e.model()),
                    ),
                    position: cursor.position as int,
                }),
                parse_file(data, path@) == parse_body(
                    data,
                    path@,
                    version,
                    tensor_count,
                    metadata_kv_count,
                ),
                data == bytes@,
            decreases metadata_kv_count - i,
        {
            proof {
                lemma_entry_bounds(data, cursor.position as int);
            }
            match Self::read_entry(&mut cursor) {
                Ok(entry) => {
                    let ghost before = kv_meta@;
                    kv_meta.push(entry);
                    assert(kv_meta@.map_values(|e: GgufKVMeta| e.model()) =~= before.map_values(
                        |e: GgufKVMeta| e.model(),
                    ).push(entry.model()));
                },
                Err(e) => {
                    proof {
                        lemma_entries_fail(data, 24, (i + 1) as nat, metadata_kv_count as nat);
                    }
                    return Err(e);
                },
            }
            i = i + 1;
        }
        let ghost entries = kv_meta@.map_values(|e: GgufKVMeta| e.model());
        let ghost first = cursor.position as int;
        let mut tensor_info: Vec<GgufTensorInfo> = Vec::new();
        assert(tensor_info@.map_values(|t: GgufTensorInfo| t.model()) =~= seq![]);
        let mut j: u64 = 0;
        while j < tensor_count
            invariant
                j <= tensor_count,
                cursor.bytes@ == data,
                cursor.position <= data.len(),
                parse_entries(data, 24, metadata_kv_count as nat) == (Parsed {
                    outcome: Ok::<Seq<KVView>, ErrorView>(entries),
                    position: first,
                }),
                parse_tensors(data, first, j as nat) == (Parsed {
                    outcome: Ok::<Seq<TensorView>, ErrorView>(
                        tensor_info@.map_values(|t: GgufTensorInfo| t.model()),
                    ),
                    position: cursor.position as int,
                }),
                parse_file(data, path@) == parse_body(
                    data,
                    path@,
                    version,
                    tensor_count,
                    metadata_kv_count,
                ),
                data == bytes@,
            decreases tensor_count - j,
        {
            proof {
                lemma_tensor_bounds(data, cursor.position as int);
            }
            match Self::read_tensor(&mut cursor) {
                Ok(tensor) => {
                    let ghost before = tensor_info@;
                    tensor_info.push(tensor);
                    assert(tensor_info@.map_values(|t: GgufTensorInfo| t.model())
                        =~= before.map_values(|t: GgufTensorInfo| t.model()).push(tensor.model()));
                },
                Err(e) => {
                    proof {
                        lemma_tensors_fail(data, first, (j + 1) as nat, tensor_count as nat);
                    }
                    return Err(e);
                },
            }
            j = j + 1;
        }
        let alignment: i64 = Self::get_byte_alignment(kv_meta.as_slice());
        let tensor_offset_start: i64 = Self::get_pos_with_byte_alignment(&cursor, alignment);
        let headers = GgufHeaders {
            path: String::from_str(path),
            magic: String::from_str("GGUF"),
            version,
            tensor_count,
            metadata_kv_count,
        };
        Ok(GgufInfo { headers, kv_meta, tensor_info, tensor_offset_start })
    }
}

/// Passing over a value that can be read leads to where reading it leads.
pub proof fn law_skip_follows_read(data: Seq<u8>, pos: int, t: GgufType)
    requires
        0 <= pos <= data.len() <= u64::MAX,
        parse_value(data, pos, t).outcome is Ok,
    ensures
        skip_value(data, pos, t).outcome is Ok,
        skip_value(data, pos, t).position == parse_value(data, pos, t).position,
    decreases left(data, pos), 0nat, 1nat,
{
    if t is Array {
        let item_type = parse_type(data, pos);
        let item = item_type.outcome->Ok_0;
        let count = parse_uint(data, item_type.position, 8, "reading array length"@);
        lemma_skip_follows_items(data, count.position, item, count.outcome->Ok_0);
    }
}

proof fn lemma_skip_follows_items(data: Seq<u8>, pos: int, t: GgufType, n: nat)
    requires
        0 <= pos <= data.len() <= u64::MAX,
        parse_items(data, pos, t, n).outcome is Ok,
    ensures
        skip_items(data, pos, t, n).outcome is Ok,
        skip_items(data, pos, t, n).position == parse_items(data, pos, t, n).position,
    decreases left(data, pos), n, 2nat,
{
    if n > 0 {
        lemma_items_bounds(data, pos, t, (n - 1) as nat);
        let before = parse_items(data, pos, t, (n - 1) as nat);
        lemma_skip_follows_items(data, pos, t, (n - 1) as nat);
        law_skip_follows_read(data, before.position, t);
    }
}

/// For an alignment that is a power of two, the aligned position is divisible by it, does not lie
/// before the position, and lies less than one alignment behind it.
pub proof fn law_aligned_position(pos: i64, shift: u64)
    requires
        0 <= pos,
        shift < 62,
        pos + pow2(shift as nat) <= i64::MAX,
    ensures
        ({
            let alignment = pow2(shift as nat) as i64;
            let result = aligned(pos as int, alignment);
            &&& result % alignment == 0
            &&& pos <= result
            &&& result - pos < alignment
        }),
{
    lemma_pow2_pos(shift as nat);
    lemma_pow2_strictly_increases(shift as nat, 62);
    lemma2_to64_rest();
    let alignment = pow2(shift as nat) as i64;
    let a = alignment as u64;
    assert(a == 1u64 << shift) by {
        vstd::bits::lemma_u64_shl_is_mul(1, shift);
    }
    let sum = (pos + (alignment - 1)) as i64;
    let usum = sum as u64;
    let result = aligned(pos as int, alignment);
    assert(result == sum & !((alignment - 1) as i64));
    let mask = (a - 1) as u64;
    let imask = (alignment - 1) as i64;
    assert((sum & !imask) as u64 == usum & !mask && (sum & !imask) >= 0) by (bit_vector)
        requires
            usum == sum as u64,
            mask == imask as u64,
            sum >= 0,
            imask >= 0,
    ;
    assert(usum & !mask == usum - (usum & mask) && (usum & mask) <= mask) by (bit_vector);
    vstd::bits::lemma_u64_low_bits_mask_is_mod(usum, shift as nat);
    assert(vstd::bits::low_bits_mask(shift as nat) == mask);
    assert(usum & mask == usum % a);
    let q = usum as int / a as int;
    vstd::arithmetic::div_mod::lemma_fundamental_div_mod(usum as int, a as int);
    assert((usum as int - usum as int % a as int) % (a as int) == 0) by {
        vstd::arithmetic::div_mod::lemma_mod_multiples_basic(q, a as int);
        assert(a as int * q == q * a as int) by (nonlinear_arith);
    }
}

proof fn lemma_shapes_fail(data: Seq<u8>, pos: int, name: Seq<char>, m: nat, n: nat)
    requires
        m <= n,
        parse_shapes(data, pos, name, m).outcome is Err,
    ensures
        parse_shapes(data, pos, name, n) == parse_shapes(data, pos, name, m),
    decreases n,
{
    if m < n {
        lemma_shapes_fail(data, pos, name, m, (n - 1) as nat);
    }
}

proof fn lemma_entries_fail(data: Seq<u8>, pos: int, m: nat, n: nat)
    requires
        m <= n,
        parse_entries(data, pos, m).outcome is Err,
    ensures
        parse_entries(data, pos, n) == parse_entries(data, pos, m),
    decreases n,
{
    if m < n {
        lemma_entries_fail(data, pos, m, (n - 1) as nat);
    }
}

proof fn lemma_tensors_fail(data: Seq<u8>, pos: int, m: nat, n: nat)
    requires
        m <= n,
        parse_tensors(data, pos, m).outcome is Err,
    ensures
        parse_tensors(data, pos, n) == parse_tensors(data, pos, m),
    decreases n,
{
    if m < n {
        lemma_tensors_fail(data, pos, m, (n - 1) as nat);
    }
}

proof fn lemma_entry_bounds(data: Seq<u8>, pos: int)
    requires
        0 <= pos <= data.len(),
    ensures
        pos <= parse_entry(data, pos).position <= data.len(),
{
    let key = parse_string(data, pos);
    let value_type = parse_type(data, key.position);
    if let Ok(t) = value_type.outcome {
        lemma_value_bounds(data, value_type.position, t);
    }
}

proof fn lemma_shapes_bounds(data: Seq<u8>, pos: int, name: Seq<char>, n: nat)
    requires
        0 <= pos <= data.len(),
    ensures
        pos <= parse_shapes(data, pos, name, n).position <= data.len(),
    decreases n,
{
    if n > 0 {
        lemma_shapes_bounds(data, pos, name, (n - 1) as nat);
    }
}

proof fn lemma_tensor_bounds(data: Seq<u8>, pos: int)
    requires
        0 <= pos <= data.len(),
    ensures
        pos <= parse_tensor(data, pos).position <= data.len(),
{
    let name = parse_string(data, pos);
    if let Ok(label) = name.outcome {
        let dims = parse_int(data, name.position, 4, "reading i32"@);
        if let Ok(n_dims) = dims.outcome {
            if n_dims >= 0 {
                lemma_shapes_bounds(data, dims.position, label, n_dims as nat);
            }
        }
    }
}

/// What a step makes of the first `k` bytes, seen from what it makes of all of them: the same if
/// it ends within them, and an error if it does not.
pub open spec fn cut_agrees<V>(whole: Parsed<V>, cut: Parsed<V>, k: int) -> bool {
    whole.outcome is Ok ==> if whole.position <= k {
        cut == whole
    } else {
        cut.outcome is Err
    }
}

proof fn lemma_cut_uint(data: Seq<u8>, pos: int, width: int, context: Seq<char>, k: int)
    requires
        0 <= pos <= k <= data.len(),
        0 <= width,
    ensures
        cut_agrees(
            parse_uint(data, pos, width, context),
            parse_uint(data.take(k), pos, width, context),
            k,
        ),
        cut_agrees(
            parse_int(data, pos, width, context),
            parse_int(data.take(k), pos, width, context),
            k,
        ),
{
    if pos + width <= k {
        assert(data.take(k).subrange(pos, pos + width) =~= data.subrange(pos, pos + width));
    }
}

proof fn lemma_cut_string(data: Seq<u8>, pos: int, k: int)
    requires
        0 <= pos <= k <= data.len(),
    ensures
        cut_agrees(parse_string(data, pos), parse_string(data.take(k), pos), k),
{
    lemma_cut_uint(data, pos, 8, "reading string length"@, k);
    let len = parse_uint(data, pos, 8, "reading string length"@);
    if len.outcome is Ok && len.position <= k {
        let n = len.outcome->Ok_0 as int;
        if len.position + n <= k {
            assert(data.take(k).subrange(len.position, len.position + n) =~= data.subrange(
                len.position,
                len.position + n,
            ));
        }
    }
}

proof fn lemma_cut_type(data: Seq<u8>, pos: int, k: int)
    requires
        0 <= pos <= k <= data.len(),
    ensures
        cut_agrees(parse_type(data, pos), parse_type(data.take(k), pos), k),
{
    lemma_cut_uint(data, pos, 4, "reading gguf type"@, k);
}

proof fn lemma_cut_value(data: Seq<u8>, pos: int, t: GgufType, k: int)
    requires
        0 <= pos <= k <= data.len(),
    ensures
        cut_agrees(parse_value(data, pos, t), parse_value(data.take(k), pos, t), k),
    decreases left(data, pos), 0nat, 1nat,
{
    match t {
        GgufType::Uint8 => lemma_cut_uint(data, pos, 1, "reading u8"@, k),
        GgufType::Int8 => lemma_cut_uint(data, pos, 1, "reading i8"@, k),
        GgufType::Uint16 => lemma_cut_uint(data, pos, 2, "reading u16"@, k),
        GgufType::Int16 => lemma_cut_uint(data, pos, 2, "reading i16"@, k),
        GgufType::Uint32 => lemma_cut_uint(data, pos, 4, "reading u32"@, k),
        GgufType::Int32 => lemma_cut_uint(data, pos, 4, "reading i32"@, k),
        GgufType::Float32 => lemma_cut_uint(data, pos, 4, "reading f32"@, k),
        GgufType::Bool => lemma_cut_uint(data, pos, 1, "reading bool"@, k),
        GgufType::String => lemma_cut_string(data, pos, k),
        GgufType::Array => lemma_cut_array(data, pos, k),
        GgufType::Uint64 => lemma_cut_uint(data, pos, 8, "reading u64"@, k),
        GgufType::Int64 => lemma_cut_uint(data, pos, 8, "reading i64"@, k),
        GgufType::Float64 => lemma_cut_uint(data, pos, 8, "reading f64"@, k),
    }
}

proof fn lemma_cut_array(data: Seq<u8>, pos: int, k: int)
    requires
        0 <= pos <= k <= data.len(),
    ensures
        cut_agrees(parse_array(data, pos), parse_array(data.take(k), pos), k),
    decreases left(data, pos), 0nat, 0nat,
{
    lemma_cut_type(data, pos, k);
    let item_type = parse_type(data, pos);
    let count = parse_uint(data, item_type.position, 8, "reading array length"@);
    if item_type.outcome is Ok && count.outcome is Ok && count.outcome->Ok_0
        <= MAX_ARRAY_ELEMENTS {
        let t = item_type.outcome->Ok_0;
        let n = count.outcome->Ok_0;
        lemma_items_bounds(data, count.position, t, n);
        if item_type.position <= k {
            lemma_cut_uint(data, item_type.position, 8, "reading array length"@, k);
        }
        if count.position <= k {
            lemma_cut_items(data, count.position, t, n, k);
        }
    }
}

proof fn lemma_cut_items(data: Seq<u8>, pos: int, t: GgufType, n: nat, k: int)
    requires
        0 <= pos <= k <= data.len(),
    ensures
        cut_agrees(parse_items(data, pos, t, n), parse_items(data.take(k), pos, t, n), k),
    decreases left(data, pos), n, 2nat,
{
    if n > 0 {
        lemma_cut_items(data, pos, t, (n - 1) as nat, k);
        lemma_items_bounds(data, pos, t, (n - 1) as nat);
        let before = parse_items(data, pos, t, (n - 1) as nat);
        if before.outcome is Ok {
            lemma_value_bounds(data, before.position, t);
            if before.position <= k {
                lemma_cut_value(data, before.position, t, k);
            }
        }
    }
}

proof fn lemma_cut_entry(data: Seq<u8>, pos: int, k: int)
    requires
        0 <= pos <= k <= data.len(),
    ensures
        cut_agrees(parse_entry(data, pos), parse_entry(data.take(k), pos), k),
{
    lemma_cut_string(data, pos, k);
    let key = parse_string(data, pos);
    if key.outcome is Ok {
        let value_type = parse_type(data, key.position);
        if value_type.outcome is Ok {
            let t = value_type.outcome->Ok_0;
            lemma_value_bounds(data, value_type.position, t);
            if key.position <= k {
                lemma_cut_type(data, key.position, k);
                if value_type.position <= k {
                    lemma_cut_value(data, value_type.position, t, k);
                }
            }
        }
    }
}

proof fn lemma_entries_bounds(data: Seq<u8>, pos: int, n: nat)
    requires
        0 <= pos <= data.len(),
    ensures
        pos <= parse_entries(data, pos, n).position <= data.len(),
    decreases n,
{
    if n > 0 {
        lemma_entries_bounds(data, pos, (n - 1) as nat);
        let before = parse_entries(data, pos, (n - 1) as nat);
        lemma_entry_bounds(data, before.position);
    }
}

proof fn lemma_cut_entries(data: Seq<u8>, pos: int, n: nat, k: int)
    requires
        0 <= pos <= k <= data.len(),
    ensures
        cut_agrees(parse_entries(data, pos, n), parse_entries(data.take(k), pos, n), k),
    decreases n,
{
    if n > 0 {
        lemma_cut_entries(data, pos, (n - 1) as nat, k);
        lemma_entries_bounds(data, pos, (n - 1) as nat);
        let before = parse_entries(data, pos, (n - 1) as nat);
        if before.outcome is Ok {
            lemma_entry_bounds(data, before.position);
            if before.position <= k {
                lemma_cut_entry(data, before.position, k);
            }
        }
    }
}

proof fn lemma_cut_shapes(data: Seq<u8>, pos: int, name: Seq<char>, n: nat, k: int)
    requires
        0 <= pos <= k <= data.len(),
    ensures
        cut_agrees(
            parse_shapes(data, pos, name, n),
            parse_shapes(data.take(k), pos, name, n),
            k,
        ),
    decreases n,
{
    if n > 0 {
        lemma_cut_shapes(data, pos, name, (n - 1) as nat, k);
        lemma_shapes_bounds(data, pos, name, (n - 1) as nat);
        let before = parse_shapes(data, pos, name, (n - 1) as nat);
        if before.outcome is Ok && before.position <= k {
            lemma_cut_uint(data, before.position, 8, "reading i64"@, k);
        }
    }
}

proof fn lemma_cut_tensor(data: Seq<u8>, pos: int, k: int)
    requires
        0 <= pos <= k <= data.len(),
    ensures
        cut_agrees(parse_tensor(data, pos), parse_tensor(data.take(k), pos), k),
{
    lemma_cut_string(data, pos, k);
    let name = parse_string(data, pos);
    let dims = parse_int(data, name.position, 4, "reading i32"@);
    if name.outcome is Ok && dims.outcome is Ok && dims.outcome->Ok_0 >= 0 {
        let label = name.outcome->Ok_0;
        let n = dims.outcome->Ok_0 as nat;
        let shapes = parse_shapes(data, dims.position, label, n);
        let storage = parse_int(data, shapes.position, 4, "reading i32"@);
        lemma_shapes_bounds(data, dims.position, label, n);
        if name.position <= k {
            lemma_cut_uint(data, name.position, 4, "reading i32"@, k);
            if dims.position <= k {
                lemma_cut_shapes(data, dims.position, label, n, k);
                if shapes.position <= k {
                    lemma_cut_uint(data, shapes.position, 4, "reading i32"@, k);
                    if storage.outcome is Ok && storage.position <= k {
                        lemma_cut_uint(data, storage.position, 8, "reading i64"@, k);
                    }
                }
            }
        }
    }
}

proof fn lemma_tensors_bounds(data: Seq<u8>, pos: int, n: nat)
    requires
        0 <= pos <= data.len(),
    ensures
        pos <= parse_tensors(data, pos, n).position <= data.len(),
    decreases n,
{
    if n > 0 {
        lemma_tensors_bounds(data, pos, (n - 1) as nat);
        let before = parse_tensors(data, pos, (n - 1) as nat);
        lemma_tensor_bounds(data, before.position);
    }
}

proof fn lemma_cut_tensors(data: Seq<u8>, pos: int, n: nat, k: int)
    requires
        0 <= pos <= k <= data.len(),
    ensures
        cut_agrees(parse_tensors(data, pos, n), parse_tensors(data.take(k), pos, n), k),
    decreases n,
{
    if n > 0 {
        lemma_cut_tensors(data, pos, (n - 1) as nat, k);
        lemma_tensors_bounds(data, pos, (n - 1) as nat);
        let before = parse_tensors(data, pos, (n - 1) as nat);
        if before.outcome is Ok {
            lemma_tensor_bounds(data, before.position);
            if before.position <= k {
                lemma_cut_tensor(data, before.position, k);
            }
        }
    }
}

/// Where the last tensor description ends, or the last metadata entry if there is none.
pub open spec fn records_end(data: Seq<u8>) -> int {
    let tensor_count = le_value(data.subrange(8, 16));
    let kv_count = le_value(data.subrange(16, 24));
    parse_tensors(data, parse_entries(data, 24, kv_count).position, tensor_count).position
}

/// A file is accepted for what stands before the end of its last record: if nothing of that is
/// cut off, the rest makes no difference, and if any of it is, the file is refused.
pub proof fn law_records_decide(data: Seq<u8>, path: Seq<char>, k: int)
    requires
        parse_file(data, path) is Ok,
        0 <= k <= data.len(),
    ensures
        24 <= records_end(data) <= data.len(),
        k < records_end(data) ==> parse_file(data.take(k), path) is Err,
        records_end(data) <= k ==> parse_file(data.take(k), path) == parse_file(data, path),
{
    let cut = data.take(k);
    let tensor_count = le_value(data.subrange(8, 16));
    let kv_count = le_value(data.subrange(16, 24));
    lemma_count_fits(data, 8);
    lemma_count_fits(data, 16);
    lemma_entries_bounds(data, 24, kv_count);
    let first = parse_entries(data, 24, kv_count).position;
    lemma_tensors_bounds(data, first, tensor_count);
    if k >= 24 {
        assert(cut.subrange(0, 4) =~= data.subrange(0, 4));
        lemma_cut_uint(data, 4, 4, "reading version"@, k);
        lemma_cut_uint(data, 8, 8, "reading tensor_count"@, k);
        lemma_cut_uint(data, 16, 8, "reading metadata_kv_count"@, k);
        lemma_cut_entries(data, 24, kv_count, k);
        if first <= k {
            lemma_cut_tensors(data, first, tensor_count, k);
        }
    }
}

proof fn lemma_count_fits(data: Seq<u8>, pos: int)
    requires
        0 <= pos,
        pos + 8 <= data.len(),
    ensures
        le_value(data.subrange(pos, pos + 8)) <= u64::MAX,
{
    reveal_with_fuel(le_value, 9);
}

proof fn lemma_i32_fits(data: Seq<u8>, pos: int)
    requires
        0 <= pos,
    ensures
        parse_int(data, pos, 4, "reading i32"@).outcome matches Ok(n) ==> i32::MIN <= n <= i32::MAX,
{
    if pos + 4 <= data.len() {
        let bytes = data.subrange(pos, pos + 4);
        reveal_with_fuel(le_value, 5);
        assert(le_value(bytes) < 0x1_0000_0000);
    }
}

proof fn lemma_entries_count(data: Seq<u8>, pos: int, n: nat)
    ensures
        parse_entries(data, pos, n).outcome matches Ok(entries) ==> entries.len() == n,
    decreases n,
{
    if n > 0 {
        lemma_entries_count(data, pos, (n - 1) as nat);
    }
}

proof fn lemma_shapes_count(data: Seq<u8>, pos: int, name: Seq<char>, n: nat)
    ensures
        parse_shapes(data, pos, name, n).outcome matches Ok(shapes) ==> shapes.len() == n,
    decreases n,
{
    if n > 0 {
        lemma_shapes_count(data, pos, name, (n - 1) as nat);
    }
}

proof fn lemma_tensors_count(data: Seq<u8>, pos: int, n: nat)
    requires
        0 <= pos <= data.len(),
    ensures
        parse_tensors(data, pos, n).outcome matches Ok(tensors) ==> tensors.len() == n && forall|
            i: int,
        |
            0 <= i < n ==> (#[trigger] tensors[i]).shapes.len() == tensors[i].n_dims,
    decreases n,
{
    if n > 0 {
        lemma_tensors_count(data, pos, (n - 1) as nat);
        lemma_tensors_bounds(data, pos, (n - 1) as nat);
        let before = parse_tensors(data, pos, (n - 1) as nat);
        let next = parse_tensor(data, before.position);
        if next.outcome is Ok {
            let name = parse_string(data, before.position);
            let dims = parse_int(data, name.position, 4, "reading i32"@);
            lemma_i32_fits(data, name.position);
            lemma_shapes_count(
                data,
                dims.position,
                name.outcome->Ok_0,
                dims.outcome->Ok_0 as nat,
            );
        }
    }
}

/// An accepted file begins with the magic bytes, has as many metadata entries and tensors as it
/// says, and each tensor as many dimensions as it says. Where the alignment is a power of two, the
/// tensor data start at the first aligned position that does not lie before the end of the last
/// record.
pub proof fn law_accepted_file(data: Seq<u8>, path: Seq<char>)
    requires
        data.len() <= MAX_FILE_LEN,
    ensures
        parse_file(data, path) matches Ok(info) ==> {
            &&& data.subrange(0, 4) == seq![0x47u8, 0x47u8, 0x55u8, 0x46u8]
            &&& info.path == path
            &&& info.kv_meta.len() == info.metadata_kv_count
            &&& info.tensor_info.len() == info.tensor_count
            &&& forall|i: int|
                0 <= i < info.tensor_info.len() ==> (#[trigger] info.tensor_info[i]).shapes.len()
                    == info.tensor_info[i].n_dims
            &&& forall|shift: u64|
                shift < 32 && alignment_of(info.kv_meta) == #[trigger] pow2(shift as nat) ==> {
                    let start = info.tensor_offset_start as int;
                    &&& start % pow2(shift as nat) as int == 0
                    &&& records_end(data) <= start < records_end(data) + pow2(shift as nat)
                }
        },
{
    if let Ok(info) = parse_file(data, path) {
        let tensor_count = le_value(data.subrange(8, 16));
        let kv_count = le_value(data.subrange(16, 24));
        lemma_count_fits(data, 8);
        lemma_count_fits(data, 16);
        lemma_entries_count(data, 24, kv_count);
        let first = parse_entries(data, 24, kv_count).position;
        lemma_entries_bounds(data, 24, kv_count);
        lemma_tensors_count(data, first, tensor_count);
        lemma_tensors_bounds(data, first, tensor_count);
        assert(data.subrange(0, 4) == seq![0x47u8, 0x47u8, 0x55u8, 0x46u8]);
        assert forall|shift: u64|
            shift < 32 && alignment_of(info.kv_meta) == #[trigger] pow2(
                shift as nat,
            ) implies {
            let start = info.tensor_offset_start as int;
            &&& start % pow2(shift as nat) as int == 0
            &&& records_end(data) <= start < records_end(data) + pow2(shift as nat)
        } by {
            lemma_pow2_strictly_increases(shift as nat, 32);
            lemma2_to64();
            lemma_pow2_pos(shift as nat);
            law_aligned_position(records_end(data) as i64, shift);
        }
    }
}

} // verus!
