//! How a GGUF file is written, and that what is written is what is read.
use vstd::prelude::*;
use vstd::utf8::*;

use crate::error::ErrorView;
use crate::float::{Float32, Float64};
use crate::gguf::cursor::{le_value, parse_int, parse_uint, signed, Parsed};
use crate::gguf::loader::{
    aligned, alignment_of, first_entry, parse_array, parse_body, parse_entries, parse_entry,
    parse_file, parse_items, parse_shapes, parse_string, parse_tensor, parse_tensors, parse_type,
    parse_value, InfoView, MAX_ARRAY_ELEMENTS, MAX_STRING_LEN,
};
use crate::gguf::types::{ggml_code, GgmlType, GgufType, KVView, TensorView, ValueView};

verus! {

/// A number in a number of bytes, the least significant one first.
pub open spec fn le_bytes(n: nat, width: nat) -> Seq<u8>
    decreases width,
{
    if width == 0 {
        seq![]
    } else {
        seq![(n % 256) as u8] + le_bytes(n / 256, (width - 1) as nat)
    }
}

/// The first number that needs more than a number of bytes.
pub open spec fn too_large(width: nat) -> nat
    decreases width,
{
    if width == 0 {
        1
    } else {
        256 * too_large((width - 1) as nat)
    }
}

/// A number that may be negative in a number of bytes, as its two's complement.
pub open spec fn signed_bytes(n: int, width: nat) -> Seq<u8> {
    le_bytes(
        if n < 0 {
            (n + too_large(width)) as nat
        } else {
            n as nat
        },
        width,
    )
}

/// A text: the number of its bytes, and its bytes.
pub open spec fn string_bytes(text: Seq<char>) -> Seq<u8> {
    le_bytes(encode_utf8(text).len(), 8) + encode_utf8(text)
}

/// The type of a value.
pub open spec fn type_of(value: ValueView) -> GgufType {
    match value {
        ValueView::Uint8(_) => GgufType::Uint8,
        ValueView::Int8(_) => GgufType::Int8,
        ValueView::Uint16(_) => GgufType::Uint16,
        ValueView::Int16(_) => GgufType::Int16,
        ValueView::Uint32(_) => GgufType::Uint32,
        ValueView::Int32(_) => GgufType::Int32,
        ValueView::Float32(_) => GgufType::Float32,
        ValueView::Bool(_) => GgufType::Bool,
        ValueView::String(_) => GgufType::String,
        ValueView::Array(_) => GgufType::Array,
        ValueView::Uint64(_) => GgufType::Uint64,
        ValueView::Int64(_) => GgufType::Int64,
        ValueView::Float64(_) => GgufType::Float64,
    }
}

/// The number that stands for a type.
pub open spec fn number_of(t: GgufType) -> nat {
    match t {
        GgufType::Uint8 => 0,
        GgufType::Int8 => 1,
        GgufType::Uint16 => 2,
        GgufType::Int16 => 3,
        GgufType::Uint32 => 4,
        GgufType::Int32 => 5,
        GgufType::Float32 => 6,
        GgufType::Bool => 7,
        GgufType::String => 8,
        GgufType::Array => 9,
        GgufType::Uint64 => 10,
        GgufType::Int64 => 11,
        GgufType::Float64 => 12,
    }
}

/// The type that is written for the items of an array.
pub open spec fn item_type(items: Seq<ValueView>) -> GgufType {
    if items.len() == 0 {
        GgufType::Uint8
    } else {
        type_of(items[0])
    }
}

/// The value can be written: texts and arrays are not too long, and arrays hold items of one
/// type.
pub open spec fn is_writable(value: ValueView) -> bool
    decreases value, 0nat,
{
    match value {
        ValueView::String(text) => encode_utf8(text).len() <= MAX_STRING_LEN,
        ValueView::Array(items) => items.len() <= MAX_ARRAY_ELEMENTS && are_writable(
            items,
            items.len(),
        ),
        _ => true,
    }
}

/// The first `n` items can be written as items of one array.
pub open spec fn are_writable(items: Seq<ValueView>, n: nat) -> bool
    decreases items, n,
{
    if n == 0 || n > items.len() {
        n == 0
    } else {
        &&& are_writable(items, (n - 1) as nat)
        &&& is_writable(items[n - 1])
        &&& type_of(items[n - 1]) == type_of(items[0])
    }
}

/// A value in bytes.
pub open spec fn value_bytes(value: ValueView) -> Seq<u8>
    decreases value, 0nat,
{
    match value {
        ValueView::Uint8(v) => le_bytes(v as nat, 1),
        ValueView::Int8(v) => signed_bytes(v as int, 1),
        ValueView::Uint16(v) => le_bytes(v as nat, 2),
        ValueView::Int16(v) => signed_bytes(v as int, 2),
        ValueView::Uint32(v) => le_bytes(v as nat, 4),
        ValueView::Int32(v) => signed_bytes(v as int, 4),
        ValueView::Float32(v) => le_bytes(v.bits as nat, 4),
        ValueView::Bool(v) => le_bytes(
            if v {
                1
            } else {
                0
            },
            1,
        ),
        ValueView::String(text) => string_bytes(text),
        ValueView::Array(items) => le_bytes(number_of(item_type(items)), 4) + le_bytes(
            items.len(),
            8,
        ) + items_bytes(items, items.len()),
        ValueView::Uint64(v) => le_bytes(v as nat, 8),
        ValueView::Int64(v) => signed_bytes(v as int, 8),
        ValueView::Float64(v) => le_bytes(v.bits as nat, 8),
    }
}

/// The first `n` items in bytes.
pub open spec fn items_bytes(items: Seq<ValueView>, n: nat) -> Seq<u8>
    decreases items, n,
{
    if n == 0 || n > items.len() {
        seq![]
    } else {
        items_bytes(items, (n - 1) as nat) + value_bytes(items[n - 1])
    }
}

/// A metadata entry in bytes.
pub open spec fn entry_bytes(entry: KVView) -> Seq<u8> {
    string_bytes(entry.key) + le_bytes(number_of(entry.value_type), 4) + value_bytes(entry.value)
}

/// The entry can be written.
pub open spec fn is_writable_entry(entry: KVView) -> bool {
    &&& encode_utf8(entry.key).len() <= MAX_STRING_LEN
    &&& entry.value_type == type_of(entry.value)
    &&& is_writable(entry.value)
}

/// Metadata entries in bytes.
pub open spec fn entries_bytes(entries: Seq<KVView>) -> Seq<u8>
    decreases entries.len(),
{
    if entries.len() == 0 {
        seq![]
    } else {
        entries_bytes(entries.drop_last()) + entry_bytes(entries.last())
    }
}

/// Dimensions in bytes.
pub open spec fn shapes_bytes(shapes: Seq<i64>) -> Seq<u8>
    decreases shapes.len(),
{
    if shapes.len() == 0 {
        seq![]
    } else {
        shapes_bytes(shapes.drop_last()) + signed_bytes(shapes.last() as int, 8)
    }
}

/// A tensor description in bytes.
pub open spec fn tensor_bytes(tensor: TensorView) -> Seq<u8> {
    string_bytes(tensor.name) + signed_bytes(tensor.n_dims as int, 4) + shapes_bytes(tensor.shapes)
        + signed_bytes(tensor.ggml_type as int, 4) + signed_bytes(tensor.offset as int, 8)
}

/// The description can be written.
pub open spec fn is_writable_tensor(tensor: TensorView) -> bool {
    &&& encode_utf8(tensor.name).len() <= MAX_STRING_LEN
    &&& tensor.n_dims == tensor.shapes.len()
}

/// Tensor descriptions in bytes.
pub open spec fn tensors_bytes(tensors: Seq<TensorView>) -> Seq<u8>
    decreases tensors.len(),
{
    if tensors.len() == 0 {
        seq![]
    } else {
        tensors_bytes(tensors.drop_last()) + tensor_bytes(tensors.last())
    }
}

/// What stands in a file before the data of the tensors.
pub open spec fn file_bytes(version: u32, entries: Seq<KVView>, tensors: Seq<TensorView>) -> Seq<u8> {
    seq![0x47u8, 0x47u8, 0x55u8, 0x46u8] + le_bytes(version as nat, 4) + le_bytes(tensors.len(), 8)
        + le_bytes(entries.len(), 8) + entries_bytes(entries) + tensors_bytes(tensors)
}

/// Bytes stand in the data at a position.
pub open spec fn holds_at(data: Seq<u8>, pos: int, bytes: Seq<u8>) -> bool {
    0 <= pos && pos + bytes.len() <= data.len() && data.subrange(pos, pos + bytes.len()) == bytes
}

proof fn lemma_split(data: Seq<u8>, pos: int, first: Seq<u8>, second: Seq<u8>)
    requires
        holds_at(data, pos, first + second),
    ensures
        holds_at(data, pos, first),
        holds_at(data, pos + first.len(), second),
{
    let whole = data.subrange(pos, pos + (first + second).len());
    assert(whole.subrange(0, first.len() as int) =~= first);
    assert(data.subrange(pos, pos + first.len()) =~= whole.subrange(0, first.len() as int));
    assert(whole.subrange(first.len() as int, whole.len() as int) =~= second);
    assert(data.subrange(pos + first.len(), pos + first.len() + second.len()) =~= whole.subrange(
        first.len() as int,
        whole.len() as int,
    ));
}

/// A number is what its bytes say.
pub proof fn law_numbers_come_back(n: nat, width: nat)
    requires
        n < too_large(width),
    ensures
        le_bytes(n, width).len() == width,
        le_value(le_bytes(n, width)) == n,
    decreases width,
{
    if width > 0 {
        assert(n / 256 < too_large((width - 1) as nat));
        law_numbers_come_back(n / 256, (width - 1) as nat);
        let bytes = le_bytes(n, width);
        assert(bytes.skip(1) =~= le_bytes(n / 256, (width - 1) as nat));
        assert(bytes[0] == (n % 256) as u8);
    }
}

proof fn lemma_limits()
    ensures
        too_large(1) == 0x100,
        too_large(2) == 0x1_0000,
        too_large(4) == 0x1_0000_0000,
        too_large(8) == 0x1_0000_0000_0000_0000,
{
    reveal_with_fuel(too_large, 9);
}

proof fn lemma_uint(data: Seq<u8>, pos: int, n: nat, width: nat, context: Seq<char>)
    requires
        n < too_large(width),
        holds_at(data, pos, le_bytes(n, width)),
    ensures
        parse_uint(data, pos, width as int, context) == (Parsed {
            outcome: Ok::<nat, ErrorView>(n),
            position: pos + width,
        }),
{
    law_numbers_come_back(n, width);
}

proof fn lemma_int(data: Seq<u8>, pos: int, n: int, width: nat, context: Seq<char>)
    requires
        width == 1 || width == 2 || width == 4 || width == 8,
        -(too_large(width) as int) <= 2 * n < too_large(width),
        holds_at(data, pos, signed_bytes(n, width)),
    ensures
        parse_int(data, pos, width as int, context) == (Parsed {
            outcome: Ok::<int, ErrorView>(n),
            position: pos + width,
        }),
        signed_bytes(n, width).len() == width,
{
    lemma_limits();
    let pattern = if n < 0 {
        (n + too_large(width)) as nat
    } else {
        n as nat
    };
    lemma_uint(data, pos, pattern, width, context);
    law_numbers_come_back(pattern, width);
    assert(signed(pattern, width as int) == n);
}

proof fn lemma_string(data: Seq<u8>, pos: int, text: Seq<char>)
    requires
        encode_utf8(text).len() <= MAX_STRING_LEN,
        holds_at(data, pos, string_bytes(text)),
    ensures
        parse_string(data, pos) == (Parsed {
            outcome: Ok::<Seq<char>, ErrorView>(text),
            position: pos + string_bytes(text).len(),
        }),
{
    let bytes = encode_utf8(text);
    lemma_limits();
    law_numbers_come_back(bytes.len(), 8);
    lemma_split(data, pos, le_bytes(bytes.len(), 8), bytes);
    lemma_uint(data, pos, bytes.len(), 8, "reading string length"@);
    encode_utf8_valid_utf8(text);
    encode_utf8_decode_utf8(text);
    if bytes.len() == 0 {
        assert(bytes =~= seq![]);
    }
}

proof fn lemma_type(data: Seq<u8>, pos: int, t: GgufType)
    requires
        holds_at(data, pos, le_bytes(number_of(t), 4)),
    ensures
        parse_type(data, pos) == (Parsed {
            outcome: Ok::<GgufType, ErrorView>(t),
            position: pos + 4,
        }),
        le_bytes(number_of(t), 4).len() == 4,
{
    lemma_limits();
    lemma_uint(data, pos, number_of(t), 4, "reading gguf type"@);
    law_numbers_come_back(number_of(t), 4);
}

/// A value is what its bytes say.
pub proof fn law_values_come_back(data: Seq<u8>, pos: int, value: ValueView)
    requires
        is_writable(value),
        holds_at(data, pos, value_bytes(value)),
    ensures
        parse_value(data, pos, type_of(value)) == (Parsed {
            outcome: Ok::<ValueView, ErrorView>(value),
            position: pos + value_bytes(value).len(),
        }),
    decreases value, 0nat,
{
    lemma_limits();
    match value {
        ValueView::Uint8(v) => {
            lemma_uint(data, pos, v as nat, 1, "reading u8"@);
            law_numbers_come_back(v as nat, 1);
        },
        ValueView::Int8(v) => {
            lemma_int(data, pos, v as int, 1, "reading i8"@);
        },
        ValueView::Uint16(v) => {
            lemma_uint(data, pos, v as nat, 2, "reading u16"@);
            law_numbers_come_back(v as nat, 2);
        },
        ValueView::Int16(v) => {
            lemma_int(data, pos, v as int, 2, "reading i16"@);
        },
        ValueView::Uint32(v) => {
            lemma_uint(data, pos, v as nat, 4, "reading u32"@);
            law_numbers_come_back(v as nat, 4);
        },
        ValueView::Int32(v) => {
            lemma_int(data, pos, v as int, 4, "reading i32"@);
        },
        ValueView::Float32(v) => {
            lemma_uint(data, pos, v.bits as nat, 4, "reading f32"@);
            law_numbers_come_back(v.bits as nat, 4);
        },
        ValueView::Bool(v) => {
            let n: nat = if v {
                1
            } else {
                0
            };
            lemma_uint(data, pos, n, 1, "reading bool"@);
            law_numbers_come_back(n, 1);
        },
        ValueView::String(text) => {
            lemma_string(data, pos, text);
        },
        ValueView::Array(items) => {
            let t = item_type(items);
            let head = le_bytes(number_of(t), 4);
            let count = le_bytes(items.len(), 8);
            let rest = items_bytes(items, items.len());
            lemma_split(data, pos, head + count, rest);
            lemma_split(data, pos, head, count);
            lemma_type(data, pos, t);
            law_numbers_come_back(items.len(), 8);
            lemma_uint(data, pos + 4, items.len(), 8, "reading array length"@);
            lemma_items(data, pos + 12, items, items.len());
            assert(items.take(items.len() as int) =~= items);
        },
        ValueView::Uint64(v) => {
            lemma_uint(data, pos, v as nat, 8, "reading u64"@);
            law_numbers_come_back(v as nat, 8);
        },
        ValueView::Int64(v) => {
            lemma_int(data, pos, v as int, 8, "reading i64"@);
        },
        ValueView::Float64(v) => {
            lemma_uint(data, pos, v.bits as nat, 8, "reading f64"@);
            law_numbers_come_back(v.bits as nat, 8);
        },
    }
}

proof fn lemma_items(data: Seq<u8>, pos: int, items: Seq<ValueView>, n: nat)
    requires
        n <= items.len(),
        are_writable(items, n),
        holds_at(data, pos, items_bytes(items, n)),
    ensures
        parse_items(data, pos, item_type(items), n) == (Parsed {
            outcome: Ok::<Seq<ValueView>, ErrorView>(items.take(n as int)),
            position: pos + items_bytes(items, n).len(),
        }),
    decreases items, n,
{
    if n > 0 {
        let before = items_bytes(items, (n - 1) as nat);
        let last = value_bytes(items[n - 1]);
        lemma_split(data, pos, before, last);
        lemma_items(data, pos, items, (n - 1) as nat);
        law_values_come_back(data, pos + before.len(), items[n - 1]);
        assert(items.take(n - 1).push(items[n - 1]) =~= items.take(n as int));
    } else {
        assert(items.take(0) =~= seq![]);
    }
}

/// A metadata entry is what its bytes say.
pub proof fn law_entry_comes_back(data: Seq<u8>, pos: int, entry: KVView)
    requires
        is_writable_entry(entry),
        holds_at(data, pos, entry_bytes(entry)),
    ensures
        parse_entry(data, pos) == (Parsed {
            outcome: Ok::<KVView, ErrorView>(entry),
            position: pos + entry_bytes(entry).len(),
        }),
{
    let key = string_bytes(entry.key);
    let code = le_bytes(number_of(entry.value_type), 4);
    let value = value_bytes(entry.value);
    lemma_split(data, pos, key + code, value);
    lemma_split(data, pos, key, code);
    lemma_string(data, pos, entry.key);
    lemma_type(data, pos + key.len(), entry.value_type);
    law_values_come_back(data, pos + key.len() + 4, entry.value);
}

proof fn lemma_entries(data: Seq<u8>, pos: int, entries: Seq<KVView>)
    requires
        forall|i: int| 0 <= i < entries.len() ==> is_writable_entry(#[trigger] entries[i]),
        holds_at(data, pos, entries_bytes(entries)),
    ensures
        parse_entries(data, pos, entries.len()) == (Parsed {
            outcome: Ok::<Seq<KVView>, ErrorView>(entries),
            position: pos + entries_bytes(entries).len(),
        }),
    decreases entries.len(),
{
    if entries.len() > 0 {
        let rest = entries.drop_last();
        let last = entries.last();
        assert(entries[entries.len() - 1] == last);
        assert forall|i: int| 0 <= i < rest.len() implies is_writable_entry(#[trigger] rest[i]) by {
            assert(rest[i] == entries[i]);
        }
        lemma_split(data, pos, entries_bytes(rest), entry_bytes(last));
        lemma_entries(data, pos, rest);
        law_entry_comes_back(data, pos + entries_bytes(rest).len(), last);
        assert(rest.push(last) =~= entries);
    } else {
        assert(entries =~= seq![]);
    }
}

proof fn lemma_shapes(data: Seq<u8>, pos: int, name: Seq<char>, shapes: Seq<i64>)
    requires
        holds_at(data, pos, shapes_bytes(shapes)),
    ensures
        parse_shapes(data, pos, name, shapes.len()) == (Parsed {
            outcome: Ok::<Seq<i64>, ErrorView>(shapes),
            position: pos + shapes_bytes(shapes).len(),
        }),
    decreases shapes.len(),
{
    if shapes.len() > 0 {
        let rest = shapes.drop_last();
        let last = shapes.last();
        lemma_limits();
        lemma_split(data, pos, shapes_bytes(rest), signed_bytes(last as int, 8));
        lemma_shapes(data, pos, name, rest);
        lemma_int(data, pos + shapes_bytes(rest).len(), last as int, 8, "reading i64"@);
        assert(rest.push(last) =~= shapes);
    } else {
        assert(shapes =~= seq![]);
    }
}

/// A tensor description is what its bytes say: its name, its dimensions, how it is stored and where
/// its data begin.
pub proof fn law_tensor_comes_back(data: Seq<u8>, pos: int, tensor: TensorView)
    requires
        is_writable_tensor(tensor),
        holds_at(data, pos, tensor_bytes(tensor)),
    ensures
        parse_tensor(data, pos) == (Parsed {
            outcome: Ok::<TensorView, ErrorView>(tensor),
            position: pos + tensor_bytes(tensor).len(),
        }),
{
    lemma_limits();
    let name = string_bytes(tensor.name);
    let dims = signed_bytes(tensor.n_dims as int, 4);
    let shapes = shapes_bytes(tensor.shapes);
    let storage = signed_bytes(tensor.ggml_type as int, 4);
    let offset = signed_bytes(tensor.offset as int, 8);
    lemma_split(data, pos, name + dims + shapes + storage, offset);
    lemma_split(data, pos, name + dims + shapes, storage);
    lemma_split(data, pos, name + dims, shapes);
    lemma_split(data, pos, name, dims);
    lemma_string(data, pos, tensor.name);
    lemma_int(data, pos + name.len(), tensor.n_dims as int, 4, "reading i32"@);
    lemma_shapes(data, pos + name.len() + 4, tensor.name, tensor.shapes);
    let behind = pos + name.len() + 4 + shapes.len();
    lemma_int(data, behind, tensor.ggml_type as int, 4, "reading i32"@);
    lemma_int(data, behind + 4, tensor.offset as int, 8, "reading i64"@);
}

proof fn lemma_tensors(data: Seq<u8>, pos: int, tensors: Seq<TensorView>)
    requires
        forall|i: int| 0 <= i < tensors.len() ==> is_writable_tensor(#[trigger] tensors[i]),
        holds_at(data, pos, tensors_bytes(tensors)),
    ensures
        parse_tensors(data, pos, tensors.len()) == (Parsed {
            outcome: Ok::<Seq<TensorView>, ErrorView>(tensors),
            position: pos + tensors_bytes(tensors).len(),
        }),
    decreases tensors.len(),
{
    if tensors.len() > 0 {
        let rest = tensors.drop_last();
        let last = tensors.last();
        assert(tensors[tensors.len() - 1] == last);
        assert forall|i: int| 0 <= i < rest.len() implies is_writable_tensor(
            #[trigger] rest[i],
        ) by {
            assert(rest[i] == tensors[i]);
        }
        lemma_split(data, pos, tensors_bytes(rest), tensor_bytes(last));
        lemma_tensors(data, pos, rest);
        law_tensor_comes_back(data, pos + tensors_bytes(rest).len(), last);
        assert(rest.push(last) =~= tensors);
    } else {
        assert(tensors =~= seq![]);
    }
}

proof fn lemma_body(
    data: Seq<u8>,
    path: Seq<char>,
    version: u32,
    entries: Seq<KVView>,
    tensors: Seq<TensorView>,
)
    requires
        entries.len() <= u64::MAX,
        tensors.len() <= u64::MAX,
        forall|i: int| 0 <= i < entries.len() ==> is_writable_entry(#[trigger] entries[i]),
        forall|i: int| 0 <= i < tensors.len() ==> is_writable_tensor(#[trigger] tensors[i]),
        holds_at(data, 24, entries_bytes(entries)),
        holds_at(data, 24 + entries_bytes(entries).len() as int, tensors_bytes(tensors)),
    ensures
        parse_body(data, path, version, tensors.len() as u64, entries.len() as u64) == Ok::<
            InfoView,
            ErrorView,
        >(
            InfoView {
                path,
                magic: seq!['G', 'G', 'U', 'F'],
                version,
                tensor_count: tensors.len() as u64,
                metadata_kv_count: entries.len() as u64,
                kv_meta: entries,
                tensor_info: tensors,
                tensor_offset_start: aligned(
                    24 + entries_bytes(entries).len() + tensors_bytes(tensors).len() as int,
                    alignment_of(entries),
                ),
            },
        ),
{
    reveal_strlit("GGUF");
    assert("GGUF"@ =~= seq!['G', 'G', 'U', 'F']);
    lemma_entries(data, 24, entries);
    lemma_tensors(data, 24 + entries_bytes(entries).len() as int, tensors);
}

proof fn lemma_head(
    data: Seq<u8>,
    path: Seq<char>,
    version: u32,
    tensors: u64,
    entries: u64,
)
    requires
        holds_at(data, 0, seq![0x47u8, 0x47u8, 0x55u8, 0x46u8]),
        holds_at(data, 4, le_bytes(version as nat, 4)),
        holds_at(data, 8, le_bytes(tensors as nat, 8)),
        holds_at(data, 16, le_bytes(entries as nat, 8)),
    ensures
        parse_file(data, path) == parse_body(data, path, version, tensors, entries),
{
    lemma_limits();
    lemma_uint(data, 4, version as nat, 4, "reading version"@);
    lemma_uint(data, 8, tensors as nat, 8, "reading tensor_count"@);
    lemma_uint(data, 16, entries as nat, 8, "reading metadata_kv_count"@);
}

proof fn lemma_split_file(
    data: Seq<u8>,
    magic: Seq<u8>,
    number: Seq<u8>,
    tensor_count: Seq<u8>,
    entry_count: Seq<u8>,
    first: Seq<u8>,
    second: Seq<u8>,
)
    requires
        holds_at(data, 0, magic + number + tensor_count + entry_count + first + second),
        magic.len() == 4,
        number.len() == 4,
        tensor_count.len() == 8,
        entry_count.len() == 8,
    ensures
        holds_at(data, 0, magic),
        holds_at(data, 4, number),
        holds_at(data, 8, tensor_count),
        holds_at(data, 16, entry_count),
        holds_at(data, 24, first),
        holds_at(data, 24 + first.len() as int, second),
{
    lemma_split(data, 0, magic + number + tensor_count + entry_count + first, second);
    lemma_split(data, 0, magic + number + tensor_count + entry_count, first);
    lemma_split(data, 0, magic + number + tensor_count, entry_count);
    lemma_split(data, 0, magic + number, tensor_count);
    lemma_split(data, 0, magic, number);
}

/// A file is what its bytes say: the version, the metadata and the descriptions of the tensors come
/// back as they were written, whatever data follow; those begin at the next aligned position.
pub proof fn law_file_comes_back(
    path: Seq<char>,
    version: u32,
    entries: Seq<KVView>,
    tensors: Seq<TensorView>,
    rest: Seq<u8>,
)
    requires
        entries.len() <= u64::MAX,
        tensors.len() <= u64::MAX,
        forall|i: int| 0 <= i < entries.len() ==> is_writable_entry(#[trigger] entries[i]),
        forall|i: int| 0 <= i < tensors.len() ==> is_writable_tensor(#[trigger] tensors[i]),
    ensures
        parse_file(file_bytes(version, entries, tensors) + rest, path) == Ok::<InfoView, ErrorView>(
            InfoView {
                path,
                magic: seq!['G', 'G', 'U', 'F'],
                version,
                tensor_count: tensors.len() as u64,
                metadata_kv_count: entries.len() as u64,
                kv_meta: entries,
                tensor_info: tensors,
                tensor_offset_start: aligned(
                    file_bytes(version, entries, tensors).len() as int,
                    alignment_of(entries),
                ),
            },
        ),
{
    lemma_limits();
    let whole = file_bytes(version, entries, tensors);
    let data = whole + rest;
    law_numbers_come_back(version as nat, 4);
    law_numbers_come_back(tensors.len(), 8);
    law_numbers_come_back(entries.len(), 8);
    assert(data.subrange(0, whole.len() as int) =~= whole);
    lemma_split_file(
        data,
        seq![0x47u8, 0x47u8, 0x55u8, 0x46u8],
        le_bytes(version as nat, 4),
        le_bytes(tensors.len(), 8),
        le_bytes(entries.len(), 8),
        entries_bytes(entries),
        tensors_bytes(tensors),
    );
    lemma_head(data, path, version, tensors.len() as u64, entries.len() as u64);
    lemma_body(data, path, version, entries, tensors);
}

/// The alignment is that of the first entry that names it, if its value is an integer of a fitting
/// type, and else 32.
pub proof fn law_alignment(entries: Seq<KVView>, i: int, v: u32)
    requires
        0 <= i <= entries.len(),
        forall|k: int| 0 <= k < i ==> (#[trigger] entries[k]).key != "general.alignment"@,
    ensures
        i == entries.len() ==> alignment_of(entries) == 32,
        i < entries.len() && entries[i].key == "general.alignment"@ ==> {
            &&& entries[i].value == ValueView::Uint32(v) ==> alignment_of(entries) == v
            &&& entries[i].value is String || entries[i].value is Float32 || entries[i].value is Array
                ==> alignment_of(entries) == 32
        },
{
    lemma_first_from(entries, 0, i);
}

proof fn lemma_first_from(entries: Seq<KVView>, from: int, i: int)
    requires
        0 <= from <= i <= entries.len(),
        forall|k: int| from <= k < i ==> (#[trigger] entries[k]).key != "general.alignment"@,
    ensures
        first_entry(entries, "general.alignment"@, from) == first_entry(
            entries,
            "general.alignment"@,
            i,
        ),
    decreases i - from,
{
    if from < i {
        lemma_first_from(entries, from + 1, i);
    }
}

/// The numbers that stand for the ways in which a tensor is stored.
pub proof fn law_storage_numbers()
    ensures
        ggml_code(GgmlType::F32) == 0,
        ggml_code(GgmlType::F16) == 1,
        ggml_code(GgmlType::Q40) == 2,
        ggml_code(GgmlType::Q41) == 3,
        ggml_code(GgmlType::Q50) == 6,
        ggml_code(GgmlType::Q51) == 7,
        ggml_code(GgmlType::Q80) == 8,
        ggml_code(GgmlType::Q81) == 9,
        ggml_code(GgmlType::Q2K) == 10,
        ggml_code(GgmlType::Q3K) == 11,
        ggml_code(GgmlType::Q4K) == 12,
        ggml_code(GgmlType::Q5K) == 13,
        ggml_code(GgmlType::Q6K) == 14,
        ggml_code(GgmlType::Q8K) == 15,
        ggml_code(GgmlType::Bf16) == 30,
        forall|a: GgmlType, b: GgmlType|
            #[trigger] ggml_code(a) == #[trigger] ggml_code(b) ==> a == b,
{
}

/// Texts of more than 32 MiB and arrays of more than five million items are refused, whatever
/// follows.
pub proof fn law_size_limits(data: Seq<u8>, pos: int, n: nat)
    requires
        n <= u64::MAX,
    ensures
        holds_at(data, pos, le_bytes(n, 8)) && n > 33_554_432 ==> parse_string(data, pos).outcome
            == Err::<Seq<char>, ErrorView>(
            ErrorView::InvalidFileFormat("String length exceeds safety threshold"@),
        ),
        holds_at(data, pos, le_bytes(0, 4)) && holds_at(data, pos + 4, le_bytes(n, 8)) && n
            > 5_000_000 ==> parse_array(data, pos).outcome == Err::<Seq<ValueView>, ErrorView>(
            ErrorView::InvalidFileFormat("Array length exceeds safety threshold"@),
        ),
{
    lemma_limits();
    if holds_at(data, pos, le_bytes(n, 8)) {
        lemma_uint(data, pos, n, 8, "reading string length"@);
    }
    if holds_at(data, pos, le_bytes(0, 4)) && holds_at(data, pos + 4, le_bytes(n, 8)) {
        lemma_type(data, pos, GgufType::Uint8);
        lemma_uint(data, pos + 4, n, 8, "reading array length"@);
    }
}

/// A truth value is true for every byte but zero.
pub proof fn law_truth_values(data: Seq<u8>, pos: int)
    requires
        0 <= pos < data.len(),
    ensures
        parse_value(data, pos, GgufType::Bool) == (Parsed {
            outcome: Ok::<ValueView, ErrorView>(ValueView::Bool(data[pos] != 0)),
            position: pos + 1,
        }),
{
    reveal_with_fuel(le_value, 2);
    let bytes = data.subrange(pos, pos + 1);
    assert(bytes[0] == data[pos]);
}

/// Errors say where they happened: in an entry, where it begins; in a description, where it begins
/// for its name and where the reader stopped for the rest.
pub proof fn law_errors_name_their_place(data: Seq<u8>, pos: int)
    ensures
        parse_entry(data, pos).outcome matches Err(error) ==> (error
            matches ErrorView::InvalidFileMetadata { file_type, offset, .. } && file_type == "GGUF"@
            && offset == pos as u64),
        parse_tensor(data, pos).outcome matches Err(error) ==> {
            let name = parse_string(data, pos);
            &&& error matches ErrorView::InvalidFileMetadata { file_type, offset, .. }
            &&& file_type == "GGUF"@
            &&& offset == (if name.outcome is Err {
                pos as u64
            } else {
                parse_tensor(data, pos).position as u64
            })
        },
{
    let name = parse_string(data, pos);
    if let Ok(label) = name.outcome {
        let dims = parse_int(data, name.position, 4, "reading i32"@);
        if let Ok(n) = dims.outcome {
            if n >= 0 {
                lemma_shape_errors(data, dims.position, label, n as nat);
            }
        }
    }
}

proof fn lemma_shape_errors(data: Seq<u8>, pos: int, name: Seq<char>, n: nat)
    ensures
        parse_shapes(data, pos, name, n).outcome matches Err(error) ==> (error
            matches ErrorView::InvalidFileMetadata { file_type, offset, .. } && file_type == "GGUF"@
            && offset == parse_shapes(data, pos, name, n).position as u64),
    decreases n,
{
    if n > 0 {
        lemma_shape_errors(data, pos, name, (n - 1) as nat);
    }
}

/// A code that stands for no type is refused under its own number.
pub proof fn law_unknown_types(data: Seq<u8>, pos: int, code: nat)
    requires
        13 <= code <= i32::MAX,
        holds_at(data, pos, le_bytes(code, 4)),
    ensures
        parse_type(data, pos).outcome == Err::<GgufType, ErrorView>(
            ErrorView::UnknownGgufType(code as i32),
        ),
{
    lemma_limits();
    lemma_uint(data, pos, code, 4, "reading gguf type"@);
}

/// An alignment below one leaves the position as it is, and the others that can be said are taken as
/// they are said.
pub proof fn law_other_alignments(pos: i64, alignment: i64, entry: KVView)
    requires
        0 <= pos,
        alignment < 1,
        entry.key == "general.alignment"@,
    ensures
        aligned(pos as int, alignment) == pos,
        entry.value matches ValueView::Uint8(v) ==> alignment_of(seq![entry]) == v,
        entry.value matches ValueView::Uint16(v) ==> alignment_of(seq![entry]) == v,
        entry.value matches ValueView::Int32(v) ==> alignment_of(seq![entry]) == v,
        entry.value is Uint64 || entry.value is Int64 || entry.value is Bool ==> alignment_of(
            seq![entry],
        ) == 32,
{
    let sum = pos;
    assert(sum & !0i64 == sum) by (bit_vector);
    assert(seq![entry][0] == entry);
}

/// Where the data begin: the bits of the position, raised by the alignment less one, that the
/// alignment less one does not hold.
pub proof fn law_start_of_data(pos: i64, alignment: i64)
    requires
        0 <= pos,
        1 <= alignment,
        pos + alignment <= i64::MAX,
    ensures
        ({
            let mask = (alignment - 1) as i64;
            let sum = (pos + mask) as i64;
            &&& aligned(pos as int, alignment) == sum & !mask
            &&& aligned(pos as int, alignment) & mask == 0
            &&& aligned(pos as int, alignment) <= sum
        }),
{
    let mask = (alignment - 1) as i64;
    let sum = (pos + mask) as i64;
    assert((sum & !mask) & mask == 0) by (bit_vector);
    assert(sum >= 0 && mask >= 0 ==> (sum & !mask) <= sum) by (bit_vector);
}

/// A description with less than no dimensions is refused.
pub proof fn law_negative_dimensions_are_refused(data: Seq<u8>, pos: int, name: Seq<char>, n: i32)
    requires
        encode_utf8(name).len() <= MAX_STRING_LEN,
        n < 0,
        holds_at(data, pos, string_bytes(name) + signed_bytes(n as int, 4)),
    ensures
        parse_tensor(data, pos).outcome is Err,
{
    lemma_limits();
    lemma_split(data, pos, string_bytes(name), signed_bytes(n as int, 4));
    lemma_string(data, pos, name);
    lemma_int(data, pos + string_bytes(name).len(), n as int, 4, "reading i32"@);
}

/// Bytes that do not begin with the mark of the format are no file of it.
pub proof fn law_other_files_are_refused(data: Seq<u8>, path: Seq<char>)
    requires
        data.len() >= 4,
        data.subrange(0, 4) != seq![0x47u8, 0x47u8, 0x55u8, 0x46u8],
    ensures
        parse_file(data, path) == Err::<InfoView, ErrorView>(
            ErrorView::InvalidFileFormat("GGUF file has magic bytes mismatch"@),
        ),
{
}

} // verus!
