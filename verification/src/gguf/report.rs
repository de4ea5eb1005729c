//! Readable listings of what a GGUF file says of its contents.
use vstd::prelude::*;
use vstd::string::*;

use crate::float::{Float32, Float64};
use crate::gguf::loader::Loader;
use crate::gguf::types::{
    lemma_value_models, name_of_type, value_models, GgufHeaders, GgufKVMeta, GgufTensorInfo,
    GgufValue, KVView, TensorView, ValueView,
};
use crate::text::{dec, dec_int, hex, push_dec, push_dec_int, push_hex};

verus! {

/// A piece of a listing. Plain text is shown as it is; a number or a quoted text is shown by the
/// formatter of whoever shows the listing.
#[derive(Debug, Clone, PartialEq)]
pub enum TextPiece {
    Text(String),
    Float32(Float32),
    Float64(Float64),
    /// A number in its developer's form, which always shows a fraction or an exponent.
    PlainFloat32(Float32),
    PlainFloat64(Float64),
    /// A text in double quotes, with escapes.
    Quoted(String),
}

/// The mathematical model of a piece.
pub enum PieceView {
    Text(Seq<char>),
    Float32(Float32),
    Float64(Float64),
    PlainFloat32(Float32),
    PlainFloat64(Float64),
    Quoted(Seq<char>),
}

impl TextPiece {
    pub open spec fn model(self) -> PieceView {
        match self {
            TextPiece::Text(s) => PieceView::Text(s@),
            TextPiece::Float32(v) => PieceView::Float32(v),
            TextPiece::Float64(v) => PieceView::Float64(v),
            TextPiece::PlainFloat32(v) => PieceView::PlainFloat32(v),
            TextPiece::PlainFloat64(v) => PieceView::PlainFloat64(v),
            TextPiece::Quoted(s) => PieceView::Quoted(s@),
        }
    }
}

/// The models of a list of pieces.
pub open spec fn pieces(list: Seq<TextPiece>) -> Seq<PieceView> {
    list.map_values(|p: TextPiece| p.model())
}

/// A listing of one plain text.
pub open spec fn plain(text: Seq<char>) -> Seq<PieceView> {
    seq![PieceView::Text(text)]
}

/// A truth value in words.
pub open spec fn bool_text(v: bool) -> Seq<char> {
    if v {
        "true"@
    } else {
        "false"@
    }
}

/// How a value is shown to a user: scalars as they are, arrays in brackets with commas.
pub open spec fn shown(value: ValueView) -> Seq<PieceView>
    decreases value, 0nat,
{
    match value {
        ValueView::Uint8(v) => plain(dec(v as nat)),
        ValueView::Int8(v) => plain(dec_int(v as int)),
        ValueView::Uint16(v) => plain(dec(v as nat)),
        ValueView::Int16(v) => plain(dec_int(v as int)),
        ValueView::Uint32(v) => plain(dec(v as nat)),
        ValueView::Int32(v) => plain(dec_int(v as int)),
        ValueView::Float32(v) => seq![PieceView::Float32(v)],
        ValueView::Bool(v) => plain(bool_text(v)),
        ValueView::String(s) => plain(s),
        ValueView::Array(items) => plain("["@) + shown_items(items, items.len()) + plain("]"@),
        ValueView::Uint64(v) => plain(dec(v as nat)),
        ValueView::Int64(v) => plain(dec_int(v as int)),
        ValueView::Float64(v) => seq![PieceView::Float64(v)],
    }
}

/// The first `n` items of an array, with commas between them.
pub open spec fn shown_items(items: Seq<ValueView>, n: nat) -> Seq<PieceView>
    decreases items, n,
{
    if n == 0 || n > items.len() {
        seq![]
    } else if n == 1 {
        shown(items[0])
    } else {
        shown_items(items, (n - 1) as nat) + plain(", "@) + shown(items[n - 1])
    }
}

/// How a value is shown to a developer: the variant's name with the value in brackets.
pub open spec fn debugged(value: ValueView) -> Seq<PieceView>
    decreases value, 0nat,
{
    match value {
        ValueView::Uint8(v) => plain("Uint8("@ + dec(v as nat) + ")"@),
        ValueView::Int8(v) => plain("Int8("@ + dec_int(v as int) + ")"@),
        ValueView::Uint16(v) => plain("Uint16("@ + dec(v as nat) + ")"@),
        ValueView::Int16(v) => plain("Int16("@ + dec_int(v as int) + ")"@),
        ValueView::Uint32(v) => plain("Uint32("@ + dec(v as nat) + ")"@),
        ValueView::Int32(v) => plain("Int32("@ + dec_int(v as int) + ")"@),
        ValueView::Float32(v) => plain("Float32("@) + seq![PieceView::PlainFloat32(v)] + plain(
            ")"@,
        ),
        ValueView::Bool(v) => plain("Bool("@ + bool_text(v) + ")"@),
        ValueView::String(s) => plain("String("@) + seq![PieceView::Quoted(s)] + plain(")"@),
        ValueView::Array(items) => plain("Array(["@) + debugged_items(items, items.len()) + plain(
            "])"@,
        ),
        ValueView::Uint64(v) => plain("Uint64("@ + dec(v as nat) + ")"@),
        ValueView::Int64(v) => plain("Int64("@ + dec_int(v as int) + ")"@),
        ValueView::Float64(v) => plain("Float64("@) + seq![PieceView::PlainFloat64(v)] + plain(
            ")"@,
        ),
    }
}

/// The first `n` items of a list, with commas between them.
pub open spec fn debugged_items(items: Seq<ValueView>, n: nat) -> Seq<PieceView>
    decreases items, n,
{
    if n == 0 || n > items.len() {
        seq![]
    } else if n == 1 {
        debugged(items[0])
    } else {
        debugged_items(items, (n - 1) as nat) + plain(", "@) + debugged(items[n - 1])
    }
}

fn push_text(out: &mut Vec<TextPiece>, text: String)
    ensures
        pieces(final(out)@) == pieces(old(out)@) + plain(text@),
{
    let ghost before = out@;
    out.push(TextPiece::Text(text));
    assert(pieces(out@) =~= pieces(before) + plain(text@));
}

fn push_piece(out: &mut Vec<TextPiece>, piece: TextPiece)
    ensures
        pieces(final(out)@) == pieces(old(out)@).push(piece.model()),
{
    let ghost before = out@;
    out.push(piece);
    assert(pieces(out@) =~= pieces(before).push(piece.model()));
}

fn number(n: u64) -> (result: String)
    ensures
        result@ == dec(n as nat),
{
    crate::text::dec_string(n)
}

fn integer(n: i64) -> (result: String)
    ensures
        result@ == dec_int(n as int),
{
    let mut out: String = String::new();
    push_dec_int(&mut out, n);
    assert(out@ =~= dec_int(n as int));
    out
}

fn truth(v: bool) -> (result: String)
    ensures
        result@ == bool_text(v),
{
    if v {
        String::from_str("true")
    } else {
        String::from_str("false")
    }
}

fn wrapped(name: &str, text: String) -> (result: String)
    ensures
        result@ == name@ + text@ + ")"@,
{
    let mut out = String::from_str(name);
    out.append(text.as_str());
    out.append(")");
    out
}

impl GgufValue {
    /// Appends the user's form of the value.
    pub fn push_display(&self, out: &mut Vec<TextPiece>)
        ensures
            pieces(final(out)@) == pieces(old(out)@) + shown(self.model()),
        decreases self,
    {
        match self {
            GgufValue::Uint8(v) => push_text(out, number(*v as u64)),
            GgufValue::Int8(v) => push_text(out, integer(*v as i64)),
            GgufValue::Uint16(v) => push_text(out, number(*v as u64)),
            GgufValue::Int16(v) => push_text(out, integer(*v as i64)),
            GgufValue::Uint32(v) => push_text(out, number(*v as u64)),
            GgufValue::Int32(v) => push_text(out, integer(*v as i64)),
            GgufValue::Float32(v) => push_piece(out, TextPiece::Float32(*v)),
            GgufValue::Bool(v) => push_text(out, truth(*v)),
            GgufValue::String(v) => push_text(out, v.clone()),
            GgufValue::Array(list) => {
                let ghost start = pieces(out@);
                let ghost items = value_models(list@, list@.len());
                push_text(out, String::from_str("["));
                proof {
                    lemma_value_models(list@, list@.len());
                    assert(pieces(out@) =~= start + plain("["@) + shown_items(items, 0));
                }
                let mut i: usize = 0;
                while i < list.len()
                    invariant
                        i <= list@.len(),
                        *self == GgufValue::Array(*list),
                        items == value_models(list@, list@.len()),
                        items.len() == list@.len(),
                        forall|q: int|
                            0 <= q < list@.len() ==> #[trigger] items[q] == list@[q].model(),
                        pieces(out@) == start + plain("["@) + shown_items(items, i as nat),
                    decreases list.len() - i,
                {
                    if i > 0 {
                        push_text(out, String::from_str(", "));
                    }
                    assert(decreases_to!(*self => self->Array_0));
                    assert(decreases_to!(*list => list@));
                    assert(decreases_to!(list@ => list@[i as int]));
                    list[i].push_display(out);
                    i = i + 1;
                    assert(pieces(out@) =~= start + plain("["@) + shown_items(items, i as nat));
                }
                push_text(out, String::from_str("]"));
                assert(pieces(out@) =~= start + (plain("["@) + shown_items(items, items.len())
                    + plain("]"@)));
            },
            GgufValue::Uint64(v) => push_text(out, number(*v)),
            GgufValue::Int64(v) => push_text(out, integer(*v)),
            GgufValue::Float64(v) => push_piece(out, TextPiece::Float64(*v)),
        }
    }

    /// Appends the developer's form of the value.
    pub fn push_debug(&self, out: &mut Vec<TextPiece>)
        ensures
            pieces(final(out)@) == pieces(old(out)@) + debugged(self.model()),
        decreases self,
    {
        let ghost start = pieces(out@);
        match self {
            GgufValue::Uint8(v) => push_text(out, wrapped("Uint8(", number(*v as u64))),
            GgufValue::Int8(v) => push_text(out, wrapped("Int8(", integer(*v as i64))),
            GgufValue::Uint16(v) => push_text(out, wrapped("Uint16(", number(*v as u64))),
            GgufValue::Int16(v) => push_text(out, wrapped("Int16(", integer(*v as i64))),
            GgufValue::Uint32(v) => push_text(out, wrapped("Uint32(", number(*v as u64))),
            GgufValue::Int32(v) => push_text(out, wrapped("Int32(", integer(*v as i64))),
            GgufValue::Float32(v) => {
                push_text(out, String::from_str("Float32("));
                push_piece(out, TextPiece::PlainFloat32(*v));
                push_text(out, String::from_str(")"));
                assert(pieces(out@) =~= start + debugged(self.model()));
            },
            GgufValue::Bool(v) => push_text(out, wrapped("Bool(", truth(*v))),
            GgufValue::String(v) => {
                push_text(out, String::from_str("String("));
                push_piece(out, TextPiece::Quoted(v.clone()));
                push_text(out, String::from_str(")"));
                assert(pieces(out@) =~= start + debugged(self.model()));
            },
            GgufValue::Array(list) => {
                let ghost items = value_models(list@, list@.len());
                push_text(out, String::from_str("Array(["));
                proof {
                    lemma_value_models(list@, list@.len());
                    assert(pieces(out@) =~= start + plain("Array(["@) + debugged_items(items, 0));
                }
                let mut i: usize = 0;
                while i < list.len()
                    invariant
                        i <= list@.len(),
                        *self == GgufValue::Array(*list),
                        items == value_models(list@, list@.len()),
                        items.len() == list@.len(),
                        forall|q: int|
                            0 <= q < list@.len() ==> #[trigger] items[q] == list@[q].model(),
                        pieces(out@) == start + plain("Array(["@) + debugged_items(
                            items,
                            i as nat,
                        ),
                    decreases list.len() - i,
                {
                    if i > 0 {
                        push_text(out, String::from_str(", "));
                    }
                    assert(decreases_to!(*self => self->Array_0));
                    assert(decreases_to!(*list => list@));
                    assert(decreases_to!(list@ => list@[i as int]));
                    list[i].push_debug(out);
                    i = i + 1;
                    assert(pieces(out@) =~= start + plain("Array(["@) + debugged_items(
                        items,
                        i as nat,
                    ));
                }
                push_text(out, String::from_str("])"));
                assert(pieces(out@) =~= start + debugged(self.model()));
            },
            GgufValue::Uint64(v) => push_text(out, wrapped("Uint64(", number(*v))),
            GgufValue::Int64(v) => push_text(out, wrapped("Int64(", integer(*v))),
            GgufValue::Float64(v) => {
                push_text(out, String::from_str("Float64("));
                push_piece(out, TextPiece::PlainFloat64(*v));
                push_text(out, String::from_str(")"));
                assert(pieces(out@) =~= start + debugged(self.model()));
            },
        }
    }
}

/// A horizontal rule.
pub open spec fn rule() -> Seq<char> {
    "─────────────────────────────────\n"@
}

/// The listing of the file header.
pub open spec fn headers_text(headers: GgufHeaders) -> Seq<char> {
    "\nloci Model Loader\n"@ + rule() + "File: "@ + headers.path@ + "\nMagic: "@ + headers.magic@
        + "\nVersion: "@ + dec(headers.version as nat) + "\nTensor Count: "@ + dec(
        headers.tensor_count as nat,
    ) + "\nMetadata KV Count: "@ + dec(headers.metadata_kv_count as nat) + "\n"@ + rule()
        + "Model file is valid GGUF format!\n"@
}

/// The line of one metadata entry. Of an array of more than sixteen items the first sixteen are
/// shown in the developer's form.
pub open spec fn entry_line(entry: KVView) -> Seq<PieceView> {
    let label = plain(entry.key + ": "@ + name_of_type(entry.value_type) + " = "@);
    match entry.value {
        ValueView::Array(items) if items.len() > 16 => label + plain("["@) + debugged_items(
            items.take(16),
            16,
        ) + plain("]...[MORE THAN 16 ENTRIES]\n"@),
        _ => label + shown(entry.value) + plain("\n"@),
    }
}

/// The lines of the first `n` metadata entries.
pub open spec fn entry_lines(entries: Seq<KVView>, n: nat) -> Seq<PieceView>
    decreases n,
{
    if n == 0 || n > entries.len() {
        seq![]
    } else {
        entry_lines(entries, (n - 1) as nat) + entry_line(entries[n - 1])
    }
}

/// A list of numbers in brackets.
pub open spec fn shape_items(shapes: Seq<i64>, n: nat) -> Seq<char>
    decreases n,
{
    if n == 0 || n > shapes.len() {
        seq![]
    } else if n == 1 {
        dec_int(shapes[0] as int)
    } else {
        shape_items(shapes, (n - 1) as nat) + ", "@ + dec_int(shapes[n - 1] as int)
    }
}

/// The line of one tensor. The offset is shown as its two's complement pattern.
pub open spec fn tensor_line(i: nat, tensor: TensorView) -> Seq<char> {
    "["@ + dec(i) + "] "@ + tensor.name + " | n_dims: "@ + dec_int(tensor.n_dims as int)
        + " | shape: ["@ + shape_items(tensor.shapes, tensor.shapes.len()) + "] | type: "@
        + dec_int(tensor.ggml_type as int) + " | offset: 0x"@ + hex(tensor.offset as u64 as nat)
        + "\n"@
}

/// The lines of the first `n` tensors.
pub open spec fn tensor_lines(tensors: Seq<GgufTensorInfo>, n: nat) -> Seq<char>
    decreases n,
{
    if n == 0 || n > tensors.len() {
        seq![]
    } else {
        tensor_lines(tensors, (n - 1) as nat) + tensor_line((n - 1) as nat, tensors[n - 1].model())
    }
}

fn push_rule(out: &mut String)
    ensures
        final(out)@ == old(out)@ + rule(),
{
    out.append("─────────────────────────────────\n");
}

fn tensor_line_string(i: usize, tensor: &GgufTensorInfo) -> (result: String)
    ensures
        result@ == tensor_line(i as nat, tensor.model()),
{
    let mut out = String::from_str("[");
    push_dec(&mut out, i as u64);
    out.append("] ");
    out.append(tensor.name.as_str());
    out.append(" | n_dims: ");
    push_dec_int(&mut out, tensor.n_dims as i64);
    out.append(" | shape: [");
    let ghost labelled = out@;
    assert(labelled =~= labelled + shape_items(tensor.shapes@, 0));
    let mut j: usize = 0;
    while j < tensor.shapes.len()
        invariant
            j <= tensor.shapes@.len(),
            out@ == labelled + shape_items(tensor.shapes@, j as nat),
        decreases tensor.shapes.len() - j,
    {
        if j > 0 {
            out.append(", ");
        }
        push_dec_int(&mut out, tensor.shapes[j]);
        j = j + 1;
        assert(out@ =~= labelled + shape_items(tensor.shapes@, j as nat));
    }
    out.append("] | type: ");
    push_dec_int(&mut out, tensor.ggml_type as i64);
    out.append(" | offset: 0x");
    push_hex(&mut out, tensor.offset as u64);
    out.append("\n");
    out
}

impl Loader {
    /// Appends the listing of the file header.
    pub fn print_gguf_headers(out: &mut String, headers: &GgufHeaders)
        ensures
            final(out)@ == old(out)@ + headers_text(*headers),
    {
        out.append("\nloci Model Loader\n");
        push_rule(out);
        out.append("File: ");
        out.append(headers.path.as_str());
        out.append("\nMagic: ");
        out.append(headers.magic.as_str());
        out.append("\nVersion: ");
        push_dec(out, headers.version as u64);
        out.append("\nTensor Count: ");
        push_dec(out, headers.tensor_count);
        out.append("\nMetadata KV Count: ");
        push_dec(out, headers.metadata_kv_count);
        out.append("\n");
        push_rule(out);
        out.append("Model file is valid GGUF format!\n");
        assert(out@ =~= old(out)@ + headers_text(*headers));
    }

    /// Appends the listing of the metadata.
    pub fn print_gguf_kv_meta(out: &mut Vec<TextPiece>, kv_meta: &[GgufKVMeta])
        ensures
            pieces(final(out)@) == pieces(old(out)@) + plain("\nMetadata:\n"@ + rule())
                + entry_lines(
                kv_meta@.map_values(|e: GgufKVMeta| e.model()),
                kv_meta@.len(),
            ) + plain(rule()),
    {
        let ghost entries = kv_meta@.map_values(|e: GgufKVMeta| e.model());
        let mut head = String::from_str("\nMetadata:\n");
        push_rule(&mut head);
        push_text(out, head);
        let ghost start = pieces(out@);
        assert(start =~= start + entry_lines(entries, 0));
        let mut i: usize = 0;
        while i < kv_meta.len()
            invariant
                i <= kv_meta@.len(),
                entries == kv_meta@.map_values(|e: GgufKVMeta| e.model()),
                pieces(out@) == start + entry_lines(entries, i as nat),
            decreases kv_meta.len() - i,
        {
            let entry = &kv_meta[i];
            assert(entries[i as int] == entry.model());
            let ghost before = pieces(out@);
            let mut label = entry.key.clone();
            label.append(": ");
            label.append(entry.value_type.name());
            label.append(" = ");
            push_text(out, label);
            let long = match &entry.value {
                GgufValue::Array(items) => items.len() > 16,
                _ => false,
            };
            if long {
                if let GgufValue::Array(items) = &entry.value {
                    let ghost models = value_models(items@, items@.len());
                    let ghost labelled = pieces(out@);
                    push_text(out, String::from_str("["));
                    proof {
                        lemma_value_models(items@, items@.len());
                        assert(pieces(out@) =~= labelled + plain("["@) + debugged_items(
                            models.take(16),
                            0,
                        ));
                    }
                    let mut k: usize = 0;
                    while k < 16
                        invariant
                            k <= 16 < items@.len(),
                            models.len() == items@.len(),
                            forall|q: int|
                                0 <= q < items@.len() ==> #[trigger] models[q]
                                    == items@[q].model(),
                            pieces(out@) == labelled + plain("["@) + debugged_items(
                                models.take(16),
                                k as nat,
                            ),
                        decreases 16 - k,
                    {
                        if k > 0 {
                            push_text(out, String::from_str(", "));
                        }
                        assert(models.take(16)[k as int] == items@[k as int].model());
                        items[k].push_debug(out);
                        k = k + 1;
                        assert(pieces(out@) =~= labelled + plain("["@) + debugged_items(
                            models.take(16),
                            k as nat,
                        ));
                    }
                    push_text(out, String::from_str("]...[MORE THAN 16 ENTRIES]\n"));
                    assert(pieces(out@) =~= before + entry_line(entry.model()));
                }
            } else {
                proof {
                    if let GgufValue::Array(items) = &entry.value {
                        lemma_value_models(items@, items@.len());
                    }
                }
                entry.value.push_display(out);
                push_text(out, String::from_str("\n"));
                assert(pieces(out@) =~= before + entry_line(entry.model()));
            }
            i = i + 1;
            assert(pieces(out@) =~= start + entry_lines(entries, i as nat));
        }
        let mut tail: String = String::new();
        push_rule(&mut tail);
        assert(tail@ =~= rule());
        push_text(out, tail);
    }

    /// Appends the listing of the first tensors, at most `first_k` of them.
    pub fn print_gguf_tensor_info(
        out: &mut String,
        tensor_info: &[GgufTensorInfo],
        first_k: usize,
        tensor_count: u64,
    )
        ensures
            ({
                let k = if first_k < tensor_info@.len() {
                    first_k as nat
                } else {
                    tensor_info@.len()
                };
                final(out)@ == old(out)@ + "Tensors (first "@ + dec(k) + " of "@ + dec(
                    tensor_count as nat,
                ) + "):\n"@ + rule() + tensor_lines(tensor_info@, k) + rule()
            }),
    {
        let k: usize = if first_k < tensor_info.len() {
            first_k
        } else {
            tensor_info.len()
        };
        out.append("Tensors (first ");
        push_dec(out, k as u64);
        out.append(" of ");
        push_dec(out, tensor_count);
        out.append("):\n");
        push_rule(out);
        let ghost start = out@;
        assert(start =~= start + tensor_lines(tensor_info@, 0));
        let mut i: usize = 0;
        while i < k
            invariant
                i <= k <= tensor_info@.len(),
                out@ == start + tensor_lines(tensor_info@, i as nat),
            decreases k - i,
        {
            let line = tensor_line_string(i, &tensor_info[i]);
            out.append(line.as_str());
            i = i + 1;
            assert(out@ =~= start + tensor_lines(tensor_info@, i as nat));
        }
        push_rule(out);
    }
}

/// The listing of a tensor tells it from any other: two that differ in one thing alone, their name,
/// how they are stored, or where their data begin, are listed differently.
pub proof fn law_listing_tells_tensors_apart(i: nat, a: TensorView, b: TensorView)
    requires
        a.n_dims == b.n_dims,
        a.shapes == b.shapes,
        tensor_line(i, a) == tensor_line(i, b),
    ensures
        a.ggml_type == b.ggml_type && a.offset == b.offset ==> a.name == b.name,
        a.name == b.name && a.ggml_type == b.ggml_type ==> a.offset == b.offset,
        a.name == b.name && a.offset == b.offset ==> a.ggml_type == b.ggml_type,
{
    let dims = " | n_dims: "@ + dec_int(a.n_dims as int) + " | shape: ["@ + shape_items(
        a.shapes,
        a.shapes.len(),
    ) + "] | type: "@;
    let head = "["@ + dec(i) + "] "@;
    let mid = " | offset: 0x"@;
    let ta = dec_int(a.ggml_type as int);
    let tb = dec_int(b.ggml_type as int);
    let ha = hex(a.offset as u64 as nat);
    let hb = hex(b.offset as u64 as nat);
    let end = "\n"@;
    assert(tensor_line(i, a) =~= head + a.name + dims + ta + mid + ha + end);
    assert(tensor_line(i, b) =~= head + b.name + dims + tb + mid + hb + end);
    if a.ggml_type == b.ggml_type && a.offset == b.offset {
        let tail = dims + ta + mid + ha + end;
        assert(tensor_line(i, a) =~= head + a.name + tail);
        assert(tensor_line(i, b) =~= head + b.name + tail);
        lemma_middle(head, a.name, b.name, tail);
    }
    if a.name == b.name && a.ggml_type == b.ggml_type {
        let front = head + a.name + dims + ta + mid;
        lemma_middle(front, ha, hb, end);
        crate::text::law_hex_parses(a.offset as u64 as nat);
        crate::text::law_hex_parses(b.offset as u64 as nat);
        let x = a.offset;
        let y = b.offset;
        assert(x as u64 == y as u64 ==> x == y) by (bit_vector);
    }
    if a.name == b.name && a.offset == b.offset {
        let front = head + a.name + dims;
        let tail = mid + ha + end;
        assert(tensor_line(i, a) =~= front + ta + tail);
        assert(tensor_line(i, b) =~= front + tb + tail);
        lemma_middle(front, ta, tb, tail);
        crate::text::law_dec_int_parses(a.ggml_type as int);
        crate::text::law_dec_int_parses(b.ggml_type as int);
    }
}

proof fn lemma_middle(head: Seq<char>, a: Seq<char>, b: Seq<char>, tail: Seq<char>)
    requires
        head + a + tail == head + b + tail,
    ensures
        a == b,
{
    let x = head + a + tail;
    let y = head + b + tail;
    assert(x.len() == y.len());
    assert(a.len() == b.len());
    assert forall|k: int| 0 <= k < a.len() implies a[k] == b[k] by {
        assert(x[head.len() + k] == a[k]);
        assert(y[head.len() + k] == b[k]);
    }
    assert(a =~= b);
}

/// The entries and the tensors are listed in their order, one behind the other.
pub proof fn law_listing_in_order(entries: Seq<KVView>, tensors: Seq<GgufTensorInfo>, n: nat)
    ensures
        n < entries.len() ==> entry_lines(entries, n + 1) == entry_lines(entries, n) + entry_line(
            entries[n as int],
        ),
        n < tensors.len() ==> tensor_lines(tensors, n + 1) == tensor_lines(tensors, n) + tensor_line(
            n,
            tensors[n as int].model(),
        ),
        entry_lines(entries, 0).len() == 0,
        tensor_lines(tensors, 0).len() == 0,
{
}

} // verus!
