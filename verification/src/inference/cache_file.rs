//! The files of cached prefixes.
use vstd::prelude::*;
use vstd::string::*;

use crate::error::{ErrorView, LociError};
use crate::gguf::cursor::le_value;
use crate::inference::model_cache::{
    block_size, block_size_of, in_whole_blocks, law_whole_blocks, whole_blocks, CacheMetadata,
    CacheMetadataView, LoadedMixedCache, ModelCacheManager,
};
use crate::model::{block_views, layer_view, layer_views, LayerView, MixedCache};
use crate::tensor::{
    can_narrow, consistent, countable, cpu, device_on_cpu, dtype_of, elements, file_in, file_of,
    file_view, fill_kv_cache, find_tensor, fits_in_file, has_width, header_names, header_note,
    header_of, header_view, id_bytes, ids_tensor, is_countable_from_last, is_cpu, is_writable,
    keys_of, kv_view, law_narrow_twice, narrow, narrowed_view, new_kv_cache, not_found, note_of,
    notes_of, opened, read_ids, tensor_from, tensor_on_cpu, tensor_view, tensors_of, values_of,
    writable, write_error, FileView, KvView, RawTensor, RawView, TensorDtype,
};
use crate::text::{
    chars_of, dec, dec_string, law_dec_parses, parse_usize, parsed_usize, push_dec, same_text,
};
use crate::types::{starts_with, ModelCacheFragmentation};

verus! {

/// The token ids in a file, or why there are none.
pub open spec fn stored_ids(file: FileView) -> Result<Seq<u32>, Seq<char>> {
    if !file.tensors.contains_key("token_ids"@) {
        Err("token_ids not found: "@ + not_found("token_ids"@))
    } else {
        let raw = file.tensors["token_ids"@];
        if raw.dtype != "U32"@ {
            Err("token_ids must be u32"@)
        } else if raw.shape.len() != 1 {
            Err("token_ids must be 1d"@)
        } else {
            Ok(
                Seq::new(
                    raw.shape[0] as nat,
                    |i: int| le_value(raw.data.subrange(4 * i, 4 * i + 4)) as u32,
                ),
            )
        }
    }
}

/// Ids or an error of loading as they are expected.
pub open spec fn ids_agree(
    result: Result<Vec<u32>, LociError>,
    expected: Result<Seq<u32>, Seq<char>>,
) -> bool {
    match (result, expected) {
        (Ok(ids), Ok(list)) => ids@ == list,
        (Err(error), Err(message)) => error@ == ErrorView::CacheLoad(message),
        _ => false,
    }
}

/// The token ids that a tensor of a file holds.
pub fn ids_of_tensor(tensor: &RawTensor<'_>) -> (result: Result<Vec<u32>, LociError>)
    requires
        consistent(tensor@),
    ensures
        ids_agree(
            result,
            if tensor@.dtype != "U32"@ {
                Err("token_ids must be u32"@)
            } else if tensor@.shape.len() != 1 {
                Err("token_ids must be 1d"@)
            } else {
                Ok(
                    Seq::new(
                        tensor@.shape[0] as nat,
                        |i: int| le_value(tensor@.data.subrange(4 * i, 4 * i + 4)) as u32,
                    ),
                )
            },
        ),
{
    if !same_text(tensor.dtype.as_str(), "U32") {
        return Err(LociError::CacheLoad(String::from_str("token_ids must be u32")));
    }
    if tensor.shape.len() != 1 {
        return Err(LociError::CacheLoad(String::from_str("token_ids must be 1d")));
    }
    let count: usize = tensor.shape[0];
    proof {
        assert(tensor@.dtype == TensorDtype::U32.text());
        assert(tensor@.shape.drop_last().len() == 0);
        assert(elements(tensor@.shape) == count) by {
            reveal_with_fuel(elements, 2);
        }
    }
    let ids = read_ids(tensor.data, count);
    assert(ids@ =~= Seq::new(
        tensor@.shape[0] as nat,
        |i: int| le_value(tensor@.data.subrange(4 * i, 4 * i + 4)) as u32,
    ));
    Ok(ids)
}

/// Reads the token ids from the bytes of a file.
pub fn read_token_ids(bytes: &[u8]) -> (result: Result<Vec<u32>, LociError>)
    ensures
        match file_in(bytes@) {
            Some(file) => ids_agree(result, stored_ids(file)),
            None => result matches Err(error) && error@ is CacheLoad,
        },
{
    match opened(bytes) {
        Ok(file) => match find_tensor(&file, "token_ids") {
            Ok(tensor) => ids_of_tensor(&tensor),
            Err(message) => {
                let mut text = String::from_str("token_ids not found: ");
                text.append(message.as_str());
                Err(LociError::CacheLoad(text))
            },
        },
        Err(message) => Err(LociError::CacheLoad(message)),
    }
}

/// The number that a note gives, if it gives one.
pub open spec fn number_of_note(
    notes: Option<Map<Seq<char>, Seq<char>>>,
    key: Seq<char>,
) -> Option<usize> {
    match note_of(notes, key) {
        Some(text) => parsed_usize(text),
        None => None,
    }
}

fn note_number(header: &safetensors::tensor::Metadata, key: &str) -> (result: Option<usize>)
    ensures
        result == number_of_note(header_view(*header).notes, key@),
{
    match header_note(header, key) {
        Some(note) => {
            let chars = chars_of(note.as_str());
            assert(chars@.subrange(0, chars@.len() as int) =~= chars@);
            parse_usize(&chars, 0, chars.len())
        },
        None => None,
    }
}

/// The size of the blocks of a file; one if the file does not say.
pub open spec fn noted_block_size(notes: Option<Map<Seq<char>, Seq<char>>>) -> usize {
    match number_of_note(notes, "block_size"@) {
        Some(n) => n,
        None => 1,
    }
}

fn note_block_size(header: &safetensors::tensor::Metadata) -> (result: usize)
    ensures
        result == noted_block_size(header_view(*header).notes),
{
    match note_number(header, "block_size") {
        Some(n) => n,
        None => 1,
    }
}

/// A file holds a prefix of this model in blocks of this size.
pub open spec fn is_prefix_of_model(
    notes: Option<Map<Seq<char>, Seq<char>>>,
    model: Seq<char>,
    block: usize,
) -> bool {
    &&& note_of(notes, "model_name"@) == Some(model)
    &&& noted_block_size(notes) == block
}

/// The cached prefix in a file: none if it is another model's or cut otherwise.
pub open spec fn prefix_in(
    file: FileView,
    model: Seq<char>,
    block: usize,
    path: Seq<char>,
) -> Result<Option<CacheMetadataView>, ErrorView> {
    if is_prefix_of_model(file.notes, model, block) {
        match stored_ids(file) {
            Ok(token_ids) => Ok(
                Some(CacheMetadataView { model, token_ids, cache_file_path: path }),
            ),
            Err(message) => Err(ErrorView::CacheLoad(message)),
        }
    } else {
        Ok(None)
    }
}

/// Reads what prefix the bytes of a file hold, if it is one of this model in blocks of this size.
pub fn read_cache_metadata(
    bytes: &[u8],
    model_name: &str,
    cache_block_size: usize,
    path: &str,
) -> (result: Result<Option<CacheMetadata>, LociError>)
    ensures
        match file_in(bytes@) {
            Some(file) => match (
                result,
                prefix_in(file, model_name@, cache_block_size, path@),
            ) {
                (Ok(Some(prefix)), Ok(Some(expected))) => prefix@ == expected,
                (Ok(None), Ok(None)) => true,
                (Err(error), Err(expected)) => error@ == expected,
                _ => false,
            },
            None => result matches Err(error) && error@ is CacheLoad,
        },
{
    let header = match header_of(bytes) {
        Ok(header) => header,
        Err(message) => {
            return Err(LociError::CacheLoad(message));
        },
    };
    let same_model = match header_note(&header, "model_name") {
        Some(name) => same_text(name.as_str(), model_name),
        None => false,
    };
    if same_model && note_block_size(&header) == cache_block_size {
        match read_token_ids(bytes) {
            Ok(token_ids) => Ok(
                Some(
                    CacheMetadata {
                        model: String::from_str(model_name),
                        token_ids,
                        cache_file_path: String::from_str(path),
                    },
                ),
            ),
            Err(error) => Err(error),
        }
    } else {
        Ok(None)
    }
}

/// The name under which a file holds the keys or the values of a layer.
pub open spec fn kv_name(layer: int, suffix: Seq<char>) -> Seq<char> {
    "layer_"@ + dec(layer as nat) + suffix
}

/// The name under which a file holds the inputs of the last tokens of a block.
pub open spec fn conv_name(block: int, layer: int) -> Seq<char> {
    "block_"@ + dec(block as nat) + "_layer_"@ + dec(layer as nat) + "_conv_cache"@
}

fn kv_name_of(layer: usize, suffix: &str) -> (result: String)
    ensures
        result@ == kv_name(layer as int, suffix@),
{
    let mut name = String::from_str("layer_");
    push_dec(&mut name, layer as u64);
    name.append(suffix);
    name
}

fn conv_name_of(block: usize, layer: usize) -> (result: String)
    ensures
        result@ == conv_name(block as int, layer as int),
{
    let mut name = String::from_str("block_");
    push_dec(&mut name, block as u64);
    name.append("_layer_");
    push_dec(&mut name, layer as u64);
    name.append("_conv_cache");
    name
}

/// The layer has keys and values.
pub open spec fn has_kv(layer: LayerView) -> bool {
    layer matches LayerView::Kv(kv) && kv.keys is Some && kv.values is Some
}

/// What a file holds of the keys and values of a layer: those of the first tokens.
pub open spec fn kv_entries(layer: LayerView, i: int, dim: usize, len: usize) -> Seq<
    (Seq<char>, RawView),
> {
    if has_kv(layer) {
        seq![
            (
                kv_name(i, "_k"@),
                narrowed_view(layer->Kv_0.keys->Some_0, dim as int, 0, len),
            ),
            (
                kv_name(i, "_v"@),
                narrowed_view(layer->Kv_0.values->Some_0, dim as int, 0, len),
            ),
        ]
    } else {
        seq![]
    }
}

/// What a file holds of the keys and values of the layers.
pub open spec fn all_kv_entries(layers: Seq<LayerView>, dim: usize, len: usize) -> Seq<
    (Seq<char>, RawView),
>
    decreases layers.len(),
{
    if layers.len() == 0 {
        seq![]
    } else {
        all_kv_entries(layers.drop_last(), dim, len) + kv_entries(
            layers.last(),
            layers.len() - 1,
            dim,
            len,
        )
    }
}

/// The keys and values of the layers reach as far as is to be kept of them.
pub open spec fn kv_reach(layers: Seq<LayerView>, dim: usize, len: usize) -> bool {
    forall|i: int|
        0 <= i < layers.len() && has_kv(#[trigger] layers[i]) ==> can_narrow(
            layers[i]->Kv_0.keys->Some_0,
            dim as int,
            0,
            len as int,
        ) && can_narrow(layers[i]->Kv_0.values->Some_0, dim as int, 0, len as int)
}

/// What a file holds of the inputs of the last tokens of a block.
pub open spec fn conv_entries(layers: Seq<LayerView>, block: int) -> Seq<(Seq<char>, RawView)>
    decreases layers.len(),
{
    if layers.len() == 0 {
        seq![]
    } else {
        let before = conv_entries(layers.drop_last(), block);
        match layers.last() {
            LayerView::Conv(raw) => before.push((conv_name(block, layers.len() - 1), raw)),
            _ => before,
        }
    }
}

/// What a file holds of the inputs of the last tokens of all blocks.
pub open spec fn all_conv_entries(blocks: Seq<Seq<LayerView>>) -> Seq<(Seq<char>, RawView)>
    decreases blocks.len(),
{
    if blocks.len() == 0 {
        seq![]
    } else {
        all_conv_entries(blocks.drop_last()) + conv_entries(blocks.last(), blocks.len() - 1)
    }
}

/// The tensor of the token ids.
pub open spec fn ids_raw(ids: Seq<u32>) -> RawView {
    RawView { dtype: "U32"@, shape: seq![ids.len() as usize], data: id_bytes(ids) }
}

/// The tensors of a file: the token ids, the keys and values of the layers, and with blocks the
/// inputs of the last tokens of each.
pub open spec fn saved_entries(
    ids: Seq<u32>,
    layers: Seq<LayerView>,
    blocks: Seq<Seq<LayerView>>,
    dim: usize,
    fragmentation: ModelCacheFragmentation,
) -> Seq<(Seq<char>, RawView)> {
    let len = whole_blocks(ids.len() as int, block_size_of(fragmentation) as int) as usize;
    let head = seq![("token_ids"@, ids_raw(ids.take(len as int)))];
    let body = head + all_kv_entries(layers, dim, len);
    match fragmentation {
        ModelCacheFragmentation::BlockWise { .. } => body + all_conv_entries(blocks),
        ModelCacheFragmentation::TokenWise => body,
    }
}

/// What the tensors of a list are called and hold.
pub open spec fn entry_views(list: Seq<(String, candle_core::Tensor)>) -> Seq<
    (Seq<char>, RawView),
> {
    list.map_values(|entry: (String, candle_core::Tensor)| (entry.0@, tensor_view(entry.1)))
}

proof fn lemma_entry_push(list: Seq<(String, candle_core::Tensor)>, entry: (
    String,
    candle_core::Tensor,
))
    ensures
        entry_views(list.push(entry)) == entry_views(list).push((entry.0@, tensor_view(entry.1))),
{
    assert(entry_views(list.push(entry)) =~= entry_views(list).push(
        (entry.0@, tensor_view(entry.1)),
    ));
}

/// Adds the keys and values of the layers to the tensors of a file.
fn push_kv(
    data: &mut Vec<(String, candle_core::Tensor)>,
    cache: &Vec<Option<MixedCache>>,
    dim: usize,
    len: usize,
) -> (result: Result<(), LociError>)
    ensures
        match result {
            Ok(_) => {
                &&& kv_reach(layer_views(cache@), dim, len)
                &&& entry_views(final(data)@) == entry_views(old(data)@) + all_kv_entries(
                    layer_views(cache@),
                    dim,
                    len,
                )
            },
            Err(error) => !kv_reach(layer_views(cache@), dim, len) && error@ is Cache,
        },
{
    let ghost views = layer_views(cache@);
    let ghost start = entry_views(data@);
    let mut i: usize = 0;
    assert(views.take(0) =~= Seq::<LayerView>::empty());
    assert(start + all_kv_entries(views.take(0), dim, len) =~= start);
    while i < cache.len()
        invariant
            i <= cache@.len(),
            views == layer_views(cache@),
            start == entry_views(old(data)@),
            kv_reach(views.take(i as int), dim, len),
            entry_views(data@) == start + all_kv_entries(views.take(i as int), dim, len),
        decreases cache.len() - i,
    {
        let ghost so_far = entry_views(data@);
        proof {
            assert(views.take(i + 1).drop_last() =~= views.take(i as int));
            assert(views.take(i + 1).last() == views[i as int]);
            assert(views[i as int] == layer_view(cache@[i as int]));
        }
        match &cache[i] {
            Some(MixedCache::KvCache(kv)) => {
                let keys = keys_of(kv);
                let values = values_of(kv);
                match (keys, values) {
                    (Some(k), Some(v)) => {
                        assert(has_kv(views[i as int]));
                        let k_part = match narrow(k, dim, 0, len) {
                            Ok(part) => part,
                            Err(message) => {
                                return Err(LociError::Cache(message));
                            },
                        };
                        let v_part = match narrow(v, dim, 0, len) {
                            Ok(part) => part,
                            Err(message) => {
                                return Err(LociError::Cache(message));
                            },
                        };
                        let k_name = kv_name_of(i, "_k");
                        let v_name = kv_name_of(i, "_v");
                        proof {
                            lemma_entry_push(data@, (k_name, k_part));
                            lemma_entry_push(data@.push((k_name, k_part)), (v_name, v_part));
                        }
                        data.push((k_name, k_part));
                        data.push((v_name, v_part));
                        assert(entry_views(data@) =~= so_far + kv_entries(
                            views[i as int],
                            i as int,
                            dim,
                            len,
                        ));
                    },
                    _ => {
                        assert(!has_kv(views[i as int]));
                    },
                }
            },
            _ => {
                assert(!has_kv(views[i as int]));
            },
        }
        assert(so_far + kv_entries(views[i as int], i as int, dim, len) =~= entry_views(data@));
        assert(start + all_kv_entries(views.take(i + 1), dim, len) =~= entry_views(data@));
        assert(kv_reach(views.take(i + 1), dim, len)) by {
            assert forall|j: int| 0 <= j < i + 1 && has_kv(#[trigger] views.take(i + 1)[j]) implies
            can_narrow(views.take(i + 1)[j]->Kv_0.keys->Some_0, dim as int, 0, len as int)
                && can_narrow(
                views.take(i + 1)[j]->Kv_0.values->Some_0,
                dim as int,
                0,
                len as int,
            ) by {
                if j < i {
                    assert(has_kv(views.take(i as int)[j]));
                }
            }
        }
        i = i + 1;
    }
    assert(views.take(i as int) =~= views);
    Ok(())
}

/// Adds the inputs of the last tokens of a block to the tensors of a file.
fn push_conv(
    data: &mut Vec<(String, candle_core::Tensor)>,
    layers: &Vec<Option<MixedCache>>,
    block: usize,
)
    ensures
        entry_views(final(data)@) == entry_views(old(data)@) + conv_entries(
            layer_views(layers@),
            block as int,
        ),
{
    let ghost views = layer_views(layers@);
    let ghost start = entry_views(data@);
    let mut i: usize = 0;
    assert(views.take(0) =~= Seq::<LayerView>::empty());
    assert(start + conv_entries(views.take(0), block as int) =~= start);
    while i < layers.len()
        invariant
            i <= layers@.len(),
            views == layer_views(layers@),
            start == entry_views(old(data)@),
            entry_views(data@) == start + conv_entries(views.take(i as int), block as int),
        decreases layers.len() - i,
    {
        let ghost so_far = entry_views(data@);
        proof {
            assert(views.take(i + 1).drop_last() =~= views.take(i as int));
            assert(views.take(i + 1).last() == layer_view(layers@[i as int]));
        }
        match &layers[i] {
            Some(MixedCache::ConvCache(tensor)) => {
                let name = conv_name_of(block, i);
                let part = tensor.clone();
                proof {
                    lemma_entry_push(data@, (name, part));
                }
                data.push((name, part));
            },
            _ => {},
        }
        assert(start + conv_entries(views.take(i + 1), block as int) =~= entry_views(data@));
        i = i + 1;
    }
    assert(views.take(i as int) =~= views);
}

/// Adds the inputs of the last tokens of all blocks to the tensors of a file.
fn push_all_conv(
    data: &mut Vec<(String, candle_core::Tensor)>,
    blocks: &Vec<Vec<Option<MixedCache>>>,
)
    ensures
        entry_views(final(data)@) == entry_views(old(data)@) + all_conv_entries(
            block_views(blocks@),
        ),
{
    let ghost views = block_views(blocks@);
    let ghost start = entry_views(data@);
    let mut i: usize = 0;
    assert(views.take(0) =~= Seq::<Seq<LayerView>>::empty());
    assert(start + all_conv_entries(views.take(0)) =~= start);
    while i < blocks.len()
        invariant
            i <= blocks@.len(),
            views == block_views(blocks@),
            start == entry_views(old(data)@),
            entry_views(data@) == start + all_conv_entries(views.take(i as int)),
        decreases blocks.len() - i,
    {
        proof {
            assert(views.take(i + 1).drop_last() =~= views.take(i as int));
            assert(views.take(i + 1).last() == layer_views(blocks@[i as int]@));
        }
        push_conv(data, &blocks[i], i);
        assert(start + all_conv_entries(views.take(i + 1)) =~= entry_views(data@));
        i = i + 1;
    }
    assert(views.take(i as int) =~= views);
}

/// Numbers that are followed by something else than a digit can be told apart.
proof fn lemma_number_ends(a: nat, s: Seq<char>, b: nat, t: Seq<char>)
    requires
        dec(a) + s == dec(b) + t,
        s.len() > 0,
        t.len() > 0,
        !('0' <= s[0] && s[0] <= '9'),
        !('0' <= t[0] && t[0] <= '9'),
    ensures
        a == b,
        s == t,
{
    law_dec_parses(a);
    law_dec_parses(b);
    let x = dec(a) + s;
    let la = dec(a).len() as int;
    let lb = dec(b).len() as int;
    if la < lb {
        assert(x[la] == s[0]);
        assert((dec(b) + t)[la] == dec(b)[la]);
    } else if lb < la {
        assert((dec(b) + t)[lb] == t[0]);
        assert(x[lb] == dec(a)[lb]);
    } else {
        assert(x.take(la) =~= dec(a));
        assert((dec(b) + t).take(lb) =~= dec(b));
        assert(x.skip(la) =~= s);
        assert((dec(b) + t).skip(lb) =~= t);
    }
}

/// The name is that of keys or values of one of the first layers.
pub open spec fn is_kv_name(name: Seq<char>, layers: int) -> bool {
    exists|i: int| 0 <= i < layers && #[trigger] is_kv_name_of(name, i)
}

/// The name is that of keys or values of a layer.
pub open spec fn is_kv_name_of(name: Seq<char>, layer: int) -> bool {
    name == kv_name(layer, "_k"@) || name == kv_name(layer, "_v"@)
}

/// The name is that of the inputs of the last tokens in one of the first blocks.
pub open spec fn is_conv_name(name: Seq<char>, blocks: int) -> bool {
    exists|b: int, l: int| 0 <= b < blocks && 0 <= l && name == #[trigger] conv_name(b, l)
}

proof fn lemma_kv_names_differ(i: int, s: Seq<char>, j: int, t: Seq<char>)
    requires
        0 <= i,
        0 <= j,
        s == "_k"@ || s == "_v"@,
        t == "_k"@ || t == "_v"@,
        kv_name(i, s) == kv_name(j, t),
    ensures
        i == j,
        s == t,
{
    reveal_strlit("_k");
    reveal_strlit("_v");
    let n = "layer_"@.len() as int;
    assert(kv_name(i, s).skip(n) =~= dec(i as nat) + s);
    assert(kv_name(j, t).skip(n) =~= dec(j as nat) + t);
    lemma_number_ends(i as nat, s, j as nat, t);
}

proof fn lemma_conv_names_differ(a: int, i: int, b: int, j: int)
    requires
        0 <= a,
        0 <= b,
        0 <= i,
        0 <= j,
        conv_name(a, i) == conv_name(b, j),
    ensures
        a == b,
        i == j,
{
    reveal_strlit("_layer_");
    reveal_strlit("_conv_cache");
    let n = "block_"@.len() as int;
    let tail_i = "_layer_"@ + dec(i as nat) + "_conv_cache"@;
    let tail_j = "_layer_"@ + dec(j as nat) + "_conv_cache"@;
    assert(conv_name(a, i).skip(n) =~= dec(a as nat) + tail_i);
    assert(conv_name(b, j).skip(n) =~= dec(b as nat) + tail_j);
    lemma_number_ends(a as nat, tail_i, b as nat, tail_j);
    let m = "_layer_"@.len() as int;
    assert(tail_i.skip(m) =~= dec(i as nat) + "_conv_cache"@);
    assert(tail_j.skip(m) =~= dec(j as nat) + "_conv_cache"@);
    lemma_number_ends(i as nat, "_conv_cache"@, j as nat, "_conv_cache"@);
}

/// Names of keys and values, of inputs, and of the ids have different beginnings.
proof fn lemma_first_letters(i: int, s: Seq<char>, b: int, l: int)
    ensures
        kv_name(i, s)[0] == 'l',
        kv_name(i, s).len() > 0,
        conv_name(b, l)[0] == 'b',
        conv_name(b, l).len() > 0,
        "token_ids"@[0] == 't',
        "token_ids"@.len() > 0,
        "__metadata__"@[0] == '_',
        "__metadata__"@.len() > 0,
{
    reveal_strlit("layer_");
    reveal_strlit("block_");
    reveal_strlit("token_ids");
    reveal_strlit("__metadata__");
}

/// The names are all different.
pub open spec fn different(list: Seq<(Seq<char>, RawView)>) -> bool {
    forall|i: int, j: int|
        0 <= i < j < list.len() ==> (#[trigger] list[i]).0 != (#[trigger] list[j]).0
}

/// The layer and the suffix that a name is made of.
proof fn lemma_kv_name_parts(name: Seq<char>, layers: int) -> (parts: (int, Seq<char>))
    requires
        is_kv_name(name, layers),
    ensures
        0 <= parts.0 < layers,
        parts.1 == "_k"@ || parts.1 == "_v"@,
        name == kv_name(parts.0, parts.1),
{
    let i = choose|i: int| 0 <= i < layers && #[trigger] is_kv_name_of(name, i);
    if name == kv_name(i, "_k"@) {
        (i, "_k"@)
    } else {
        (i, "_v"@)
    }
}

proof fn lemma_kv_entries(layers: Seq<LayerView>, dim: usize, len: usize)
    ensures
        different(all_kv_entries(layers, dim, len)),
        forall|e: int|
            0 <= e < all_kv_entries(layers, dim, len).len() ==> is_kv_name(
                (#[trigger] all_kv_entries(layers, dim, len)[e]).0,
                layers.len() as int,
            ),
    decreases layers.len(),
{
    if layers.len() > 0 {
        let n = layers.len() - 1;
        let before = all_kv_entries(layers.drop_last(), dim, len);
        let new = kv_entries(layers.last(), n, dim, len);
        let all = all_kv_entries(layers, dim, len);
        lemma_kv_entries(layers.drop_last(), dim, len);
        assert(all == before + new);
        assert forall|e: int| 0 <= e < all.len() implies is_kv_name(
            (#[trigger] all[e]).0,
            n + 1,
        ) by {
            if e < before.len() {
                assert(is_kv_name(before[e].0, n));
                let parts = lemma_kv_name_parts(before[e].0, n);
                assert(is_kv_name_of(all[e].0, parts.0));
            } else {
                assert(is_kv_name_of(all[e].0, n));
            }
        }
        assert forall|i: int, j: int| 0 <= i < j < all.len() implies (#[trigger] all[i]).0 != (
        #[trigger] all[j]).0 by {
            if all[i].0 == all[j].0 {
                if j < before.len() {
                    assert(before[i].0 != before[j].0);
                } else {
                    let s = if all[j].0 == kv_name(n, "_k"@) {
                        "_k"@
                    } else {
                        "_v"@
                    };
                    if i < before.len() {
                        assert(is_kv_name(before[i].0, n));
                        let parts = lemma_kv_name_parts(before[i].0, n);
                        lemma_kv_names_differ(parts.0, parts.1, n, s);
                    } else {
                        assert(i == before.len() && j == before.len() + 1);
                        lemma_kv_names_differ(n, "_k"@, n, "_v"@);
                        reveal_strlit("_k");
                        reveal_strlit("_v");
                        assert("_k"@[1] != "_v"@[1]);
                    }
                }
            }
        }
    }
}

/// The name is that of the inputs of the last tokens in a block, in one of the first layers.
pub open spec fn is_conv_name_in(name: Seq<char>, block: int, layers: int) -> bool {
    exists|l: int| 0 <= l < layers && name == #[trigger] conv_name(block, l)
}

proof fn lemma_conv_entries(layers: Seq<LayerView>, block: int)
    requires
        0 <= block,
    ensures
        different(conv_entries(layers, block)),
        forall|e: int|
            0 <= e < conv_entries(layers, block).len() ==> is_conv_name_in(
                (#[trigger] conv_entries(layers, block)[e]).0,
                block,
                layers.len() as int,
            ),
    decreases layers.len(),
{
    if layers.len() > 0 {
        let n = layers.len() - 1;
        let before = conv_entries(layers.drop_last(), block);
        let all = conv_entries(layers, block);
        lemma_conv_entries(layers.drop_last(), block);
        assert forall|e: int| 0 <= e < all.len() implies is_conv_name_in(
            (#[trigger] all[e]).0,
            block,
            n + 1,
        ) by {
            if e < before.len() {
                assert(is_conv_name_in(before[e].0, block, n));
                let l = choose|l: int|
                    0 <= l < n && before[e].0 == #[trigger] conv_name(block, l);
                assert(all[e].0 == conv_name(block, l));
            } else {
                assert(all[e].0 == conv_name(block, n));
            }
        }
        assert forall|i: int, j: int| 0 <= i < j < all.len() implies (#[trigger] all[i]).0 != (
        #[trigger] all[j]).0 by {
            if all[i].0 == all[j].0 {
                if j < before.len() {
                    assert(before[i].0 != before[j].0);
                } else {
                    assert(is_conv_name_in(before[i].0, block, n));
                    let l = choose|l: int|
                        0 <= l < n && before[i].0 == #[trigger] conv_name(block, l);
                    lemma_conv_names_differ(block, l, block, n);
                }
            }
        }
    }
}

proof fn lemma_all_conv_entries(blocks: Seq<Seq<LayerView>>)
    ensures
        different(all_conv_entries(blocks)),
        forall|e: int|
            0 <= e < all_conv_entries(blocks).len() ==> is_conv_name(
                (#[trigger] all_conv_entries(blocks)[e]).0,
                blocks.len() as int,
            ),
    decreases blocks.len(),
{
    if blocks.len() > 0 {
        let n = blocks.len() - 1;
        let before = all_conv_entries(blocks.drop_last());
        let new = conv_entries(blocks.last(), n);
        let all = all_conv_entries(blocks);
        lemma_all_conv_entries(blocks.drop_last());
        lemma_conv_entries(blocks.last(), n);
        assert(all == before + new);
        assert forall|e: int| 0 <= e < all.len() implies is_conv_name(
            (#[trigger] all[e]).0,
            n + 1,
        ) by {
            if e < before.len() {
                assert(is_conv_name(before[e].0, n));
                let (b, l) = choose|b: int, l: int|
                    0 <= b < n && 0 <= l && before[e].0 == #[trigger] conv_name(b, l);
                assert(all[e].0 == conv_name(b, l));
            } else {
                assert(all[e] == new[e - before.len()]);
                assert(is_conv_name_in(new[e - before.len()].0, n, blocks.last().len() as int));
                let l = choose|l: int|
                    0 <= l < blocks.last().len() && new[e - before.len()].0
                        == #[trigger] conv_name(n, l);
                assert(all[e].0 == conv_name(n, l));
            }
        }
        assert forall|i: int, j: int| 0 <= i < j < all.len() implies (#[trigger] all[i]).0 != (
        #[trigger] all[j]).0 by {
            if all[i].0 == all[j].0 {
                if j < before.len() {
                    assert(before[i].0 != before[j].0);
                } else {
                    let jj = j - before.len();
                    assert(all[j] == new[jj]);
                    assert(is_conv_name_in(new[jj].0, n, blocks.last().len() as int));
                    let l = choose|l: int|
                        0 <= l < blocks.last().len() && new[jj].0 == #[trigger] conv_name(n, l);
                    if i < before.len() {
                        assert(is_conv_name(before[i].0, n));
                        let (b, m) = choose|b: int, m: int|
                            0 <= b < n && 0 <= m && before[i].0 == #[trigger] conv_name(b, m);
                        lemma_conv_names_differ(b, m, n, l);
                    } else {
                        assert(all[i] == new[i - before.len()]);
                        assert(new[i - before.len()].0 != new[jj].0);
                    }
                }
            }
        }
    }
}

/// The tensors of a file have different names, and none has a reserved one.
proof fn lemma_saved_entries(
    ids: Seq<u32>,
    layers: Seq<LayerView>,
    blocks: Seq<Seq<LayerView>>,
    dim: usize,
    fragmentation: ModelCacheFragmentation,
)
    ensures
        different(saved_entries(ids, layers, blocks, dim, fragmentation)),
        forall|e: int|
            0 <= e < saved_entries(ids, layers, blocks, dim, fragmentation).len() ==> (
            #[trigger] saved_entries(ids, layers, blocks, dim, fragmentation)[e]).0
                != "__metadata__"@,
{
    let len = whole_blocks(ids.len() as int, block_size_of(fragmentation) as int) as usize;
    let all = saved_entries(ids, layers, blocks, dim, fragmentation);
    let kv = all_kv_entries(layers, dim, len);
    let conv = all_conv_entries(blocks);
    lemma_kv_entries(layers, dim, len);
    lemma_all_conv_entries(blocks);
    let a = 1 + kv.len() as int;
    assert forall|e: int| 0 <= e < all.len() implies {
        &&& (#[trigger] all[e]).0.len() > 0
        &&& all[e].0[0] == (if e == 0 {
            't'
        } else if e < a {
            'l'
        } else {
            'b'
        })
        &&& 0 < e < a ==> all[e] == kv[e - 1]
        &&& a <= e ==> e - a < conv.len() && all[e] == conv[e - a]
    } by {
        lemma_first_letters(0, "_k"@, 0, 0);
        if 0 < e < a {
            assert(all[e] == kv[e - 1]);
            let parts = lemma_kv_name_parts(kv[e - 1].0, layers.len() as int);
            lemma_first_letters(parts.0, parts.1, 0, 0);
        } else if a <= e {
            assert(all[e] == conv[e - a]);
            assert(is_conv_name(conv[e - a].0, blocks.len() as int));
            let (b, l) = choose|b: int, l: int|
                0 <= b < blocks.len() && 0 <= l && conv[e - a].0 == #[trigger] conv_name(b, l);
            lemma_first_letters(0, "_k"@, b, l);
        }
    }
    lemma_first_letters(0, "_k"@, 0, 0);
}

/// All tensors of a list can be written.
pub open spec fn all_writable(list: Seq<(Seq<char>, RawView)>) -> bool {
    forall|i: int| 0 <= i < list.len() ==> writable((#[trigger] list[i]).1.dtype)
}

/// Looks for a tensor that cannot be written and gives the name of its format.
fn unwritable(data: &Vec<(String, candle_core::Tensor)>) -> (result: Option<String>)
    ensures
        result is None <==> all_writable(entry_views(data@)),
{
    let mut i: usize = 0;
    while i < data.len()
        invariant
            i <= data@.len(),
            forall|j: int|
                0 <= j < i ==> writable((#[trigger] entry_views(data@)[j]).1.dtype),
        decreases data.len() - i,
    {
        let dtype = dtype_of(&data[i].1);
        assert(entry_views(data@)[i as int].1.dtype == dtype@);
        if !is_writable(dtype.as_str()) {
            return Some(dtype);
        }
        i = i + 1;
    }
    None
}

/// The tensors of a file, given the tensor of the ids. The keys and values have to reach as far
/// as the ids, and all tensors have to be of a format that can be written.
pub fn cache_tensors(
    ids: candle_core::Tensor,
    cache: &Vec<Option<MixedCache>>,
    dim: usize,
    len: usize,
    fragmentation: &ModelCacheFragmentation,
    blocks: &Vec<Vec<Option<MixedCache>>>,
) -> (result: Result<Vec<(String, candle_core::Tensor)>, LociError>)
    ensures
        ({
            let kv = seq![("token_ids"@, tensor_view(ids))] + all_kv_entries(
                layer_views(cache@),
                dim,
                len,
            );
            let all = match *fragmentation {
                ModelCacheFragmentation::BlockWise { .. } => kv + all_conv_entries(
                    block_views(blocks@),
                ),
                ModelCacheFragmentation::TokenWise => kv,
            };
            match result {
                Ok(data) => {
                    &&& kv_reach(layer_views(cache@), dim, len)
                    &&& all_writable(all)
                    &&& entry_views(data@) == all
                },
                Err(error) => {
                    &&& !kv_reach(layer_views(cache@), dim, len) || !all_writable(all)
                    &&& error@ is Cache
                },
            }
        }),
{
    let ghost ids_view = tensor_view(ids);
    let mut data: Vec<(String, candle_core::Tensor)> = Vec::new();
    data.push((String::from_str("token_ids"), ids));
    assert(entry_views(data@) =~= seq![("token_ids"@, ids_view)]);
    match push_kv(&mut data, cache, dim, len) {
        Ok(_) => {},
        Err(error) => {
            return Err(error);
        },
    }
    match fragmentation {
        ModelCacheFragmentation::BlockWise { .. } => {
            push_all_conv(&mut data, blocks);
        },
        ModelCacheFragmentation::TokenWise => {},
    }
    match unwritable(&data) {
        Some(dtype) => {
            let mut message = String::from_str("Unsupported dtype: ");
            message.append(dtype.as_str());
            Err(LociError::Cache(message))
        },
        None => Ok(data),
    }
}

/// The notes on a file.
pub open spec fn saved_notes(
    model: Seq<char>,
    layers: nat,
    fragmentation: ModelCacheFragmentation,
) -> Map<Seq<char>, Seq<char>> {
    map![
        "model_name"@ => model,
        "n_layers"@ => dec(layers),
        "fragmentation"@ => fragmentation.text(),
        "block_size"@ => dec(block_size_of(fragmentation) as nat),
    ]
}

fn cache_notes(model: &str, layers: usize, fragmentation: &ModelCacheFragmentation) -> (result: Vec<
    (String, String),
>)
    ensures
        notes_of(result@) == saved_notes(model@, layers as nat, *fragmentation),
        crate::tensor::distinct_names(result@),
{
    let mut notes: Vec<(String, String)> = Vec::new();
    notes.push((String::from_str("model_name"), String::from_str(model)));
    notes.push((String::from_str("n_layers"), dec_string(layers as u64)));
    notes.push((String::from_str("fragmentation"), fragmentation.to_text()));
    notes.push(
        (String::from_str("block_size"), dec_string(block_size(fragmentation) as u64)),
    );
    proof {
        reveal_strlit("model_name");
        reveal_strlit("n_layers");
        reveal_strlit("fragmentation");
        reveal_strlit("block_size");
        assert("model_name"@[0] == 'm');
        assert("n_layers"@[0] == 'n');
        assert("fragmentation"@[0] == 'f');
        assert("block_size"@[0] == 'b');
        let all = notes@;
        assert(all.drop_last() =~= all.take(3));
        assert(all.take(3).drop_last() =~= all.take(2));
        assert(all.take(2).drop_last() =~= all.take(1));
        assert(all.take(1).drop_last() =~= all.take(0));
        assert(notes_of(all.take(0)) =~= Map::<Seq<char>, Seq<char>>::empty());
        assert(notes_of(all.take(1)) == notes_of(all.take(0)).insert(all[0].0@, all[0].1@));
        assert(notes_of(all.take(2)) == notes_of(all.take(1)).insert(all[1].0@, all[1].1@));
        assert(notes_of(all.take(3)) == notes_of(all.take(2)).insert(all[2].0@, all[2].1@));
        assert(notes_of(all) == notes_of(all.take(3)).insert(all[3].0@, all[3].1@));
        assert(notes_of(all) =~= saved_notes(model@, layers as nat, *fragmentation));
    }
    notes
}

/// The tensors of a list under their names.
pub open spec fn entry_map(list: Seq<(Seq<char>, RawView)>) -> Map<Seq<char>, RawView>
    decreases list.len(),
{
    if list.len() == 0 {
        Map::empty()
    } else {
        entry_map(list.drop_last()).insert(list.last().0, list.last().1)
    }
}

proof fn lemma_entry_map(list: Seq<(String, candle_core::Tensor)>)
    ensures
        tensors_of(list) == entry_map(entry_views(list)),
    decreases list.len(),
{
    if list.len() > 0 {
        lemma_entry_map(list.drop_last());
        assert(entry_views(list).drop_last() =~= entry_views(list.drop_last()));
        assert(entry_views(list).last() == (list.last().0@, tensor_view(list.last().1)));
    }
}

/// What the file of a cached prefix holds.
pub open spec fn saved_file(
    model: Seq<char>,
    ids: Seq<u32>,
    layers: Seq<LayerView>,
    blocks: Seq<Seq<LayerView>>,
    dim: usize,
    fragmentation: ModelCacheFragmentation,
) -> FileView {
    FileView {
        notes: Some(saved_notes(model, layers.len(), fragmentation)),
        tensors: entry_map(saved_entries(ids, layers, blocks, dim, fragmentation)),
    }
}

impl ModelCacheManager {
    /// The bytes of the file of a cached prefix. Tokens beyond the last whole block are left out.
    pub fn cache_file(
        &self,
        token_ids: &Vec<u32>,
        cache: &Vec<Option<MixedCache>>,
        cache_seq_len_dim: usize,
        fragmentation: &ModelCacheFragmentation,
        block_boundary_conv_cache: &Vec<Vec<Option<MixedCache>>>,
    ) -> (result: Result<Vec<u8>, LociError>)
        requires
            block_size_of(*fragmentation) > 0,
        ensures
            match result {
                Ok(bytes) => {
                    &&& kv_reach(
                        layer_views(cache@),
                        cache_seq_len_dim,
                        whole_blocks(
                            token_ids@.len() as int,
                            block_size_of(*fragmentation) as int,
                        ) as usize,
                    )
                    &&& all_writable(
                        saved_entries(
                            token_ids@,
                            layer_views(cache@),
                            block_views(block_boundary_conv_cache@),
                            cache_seq_len_dim,
                            *fragmentation,
                        ),
                    )
                    &&& fits_in_file(
                        saved_file(
                            self.model@,
                            token_ids@,
                            layer_views(cache@),
                            block_views(block_boundary_conv_cache@),
                            cache_seq_len_dim,
                            *fragmentation,
                        ),
                    )
                    &&& file_in(bytes@) == Some(
                        saved_file(
                            self.model@,
                            token_ids@,
                            layer_views(cache@),
                            block_views(block_boundary_conv_cache@),
                            cache_seq_len_dim,
                            *fragmentation,
                        ),
                    )
                },
                Err(error) => {
                    &&& error@ is Cache
                    &&& kv_reach(
                        layer_views(cache@),
                        cache_seq_len_dim,
                        whole_blocks(
                            token_ids@.len() as int,
                            block_size_of(*fragmentation) as int,
                        ) as usize,
                    ) && all_writable(
                        saved_entries(
                            token_ids@,
                            layer_views(cache@),
                            block_views(block_boundary_conv_cache@),
                            cache_seq_len_dim,
                            *fragmentation,
                        ),
                    ) ==> write_error(
                        saved_file(
                            self.model@,
                            token_ids@,
                            layer_views(cache@),
                            block_views(block_boundary_conv_cache@),
                            cache_seq_len_dim,
                            *fragmentation,
                        ),
                    ) == Some(error@->Cache_0)
                },
            },
    {
        let len: usize = in_whole_blocks(token_ids.len(), block_size(fragmentation));
        let kept = vstd::slice::slice_subrange(token_ids.as_slice(), 0, len);
        assert(kept@ =~= token_ids@.take(len as int));
        let ids = match ids_tensor(kept, &cpu()) {
            Ok(ids) => ids,
            Err(message) => {
                let mut text = String::from_str("failed to create token_ids tensor: ");
                text.append(message.as_str());
                return Err(LociError::Cache(text));
            },
        };
        let data = match cache_tensors(
            ids,
            cache,
            cache_seq_len_dim,
            len,
            fragmentation,
            block_boundary_conv_cache,
        ) {
            Ok(data) => data,
            Err(error) => {
                return Err(error);
            },
        };
        let notes = cache_notes(self.model.as_str(), cache.len(), fragmentation);
        proof {
            let entries = saved_entries(
                token_ids@,
                layer_views(cache@),
                block_views(block_boundary_conv_cache@),
                cache_seq_len_dim,
                *fragmentation,
            );
            assert(ids_raw(kept@).shape == seq![kept@.len() as usize]);
            assert(entry_views(data@) == entries);
            lemma_saved_entries(
                token_ids@,
                layer_views(cache@),
                block_views(block_boundary_conv_cache@),
                cache_seq_len_dim,
                *fragmentation,
            );
            lemma_entry_map(data@);
            assert forall|i: int, j: int| 0 <= i < j < data@.len() implies (
            #[trigger] data@[i]).0@ != (#[trigger] data@[j]).0@ by {
                assert(entries[i].0 == data@[i].0@);
                assert(entries[j].0 == data@[j].0@);
            }
            assert forall|i: int| 0 <= i < data@.len() implies (#[trigger] data@[i]).0@
                != "__metadata__"@ && writable(tensor_view(data@[i].1).dtype) by {
                assert(entries[i].0 == data@[i].0@);
                assert(entries[i].1 == tensor_view(data@[i].1));
            }
        }
        match file_of(data, notes) {
            Ok(bytes) => Ok(bytes),
            Err(message) => Err(LociError::Cache(message)),
        }
    }
}

/// The format of a name, if tensors of it can be loaded.
pub open spec fn loadable(dtype: Seq<char>) -> Option<TensorDtype> {
    if dtype == "F16"@ {
        Some(TensorDtype::F16)
    } else if dtype == "BF16"@ {
        Some(TensorDtype::BF16)
    } else if dtype == "F32"@ {
        Some(TensorDtype::F32)
    } else if dtype == "F64"@ {
        Some(TensorDtype::F64)
    } else if dtype == "U8"@ {
        Some(TensorDtype::U8)
    } else if dtype == "U32"@ {
        Some(TensorDtype::U32)
    } else {
        None
    }
}

/// The format that a name in a file stands for.
pub fn get_candle_dtype(dtype: &str) -> (result: Result<TensorDtype, LociError>)
    ensures
        match result {
            Ok(format) => loadable(dtype@) == Some(format) && format.text() == dtype@,
            Err(error) => loadable(dtype@) is None && error@ == ErrorView::Cache(
                "Unsupported dtype: "@ + dtype@,
            ),
        },
{
    if same_text(dtype, "F16") {
        Ok(TensorDtype::F16)
    } else if same_text(dtype, "BF16") {
        Ok(TensorDtype::BF16)
    } else if same_text(dtype, "F32") {
        Ok(TensorDtype::F32)
    } else if same_text(dtype, "F64") {
        Ok(TensorDtype::F64)
    } else if same_text(dtype, "U8") {
        Ok(TensorDtype::U8)
    } else if same_text(dtype, "U32") {
        Ok(TensorDtype::U32)
    } else {
        let mut message = String::from_str("Unsupported dtype: ");
        message.append(dtype);
        Err(LociError::Cache(message))
    }
}

/// A tensor can be loaded: its format is known, and its dimensions can be multiplied from the last
/// to the first.
pub open spec fn loads(raw: RawView) -> bool {
    loadable(raw.dtype) is Some && countable(raw.shape.reverse())
}

/// Loads a tensor of a file to a device. The device may fail.
fn load_tensor(raw: &RawTensor<'_>, device: &candle_core::Device) -> (result: Result<
    candle_core::Tensor,
    String,
>)
    requires
        consistent(raw@),
    ensures
        result matches Ok(tensor) ==> loads(raw@) && tensor_view(tensor) == raw@ && tensor_on_cpu(
            tensor,
        ) == device_on_cpu(*device),
        device_on_cpu(*device) ==> (result is Ok <==> loads(raw@)),
{
    match get_candle_dtype(raw.dtype.as_str()) {
        Ok(dtype) => if is_countable_from_last(&raw.shape) {
            tensor_from(raw.data, dtype, &raw.shape, device)
        } else {
            Err(String::from_str("the dimensions of a tensor are too large"))
        },
        Err(error) => Err(error.message()),
    }
}

/// The file holds keys and values of a layer.
pub open spec fn stores_kv(file: FileView, i: int) -> bool {
    file.tensors.contains_key(kv_name(i, "_k"@)) && file.tensors.contains_key(kv_name(i, "_v"@))
}

/// A tensor can be loaded and cut to this length.
pub open spec fn loads_to(raw: RawView, dim: usize, len: usize) -> bool {
    loads(raw) && can_narrow(raw, dim as int, 0, len as int)
}

/// The keys and values of a layer in a file can be loaded and cut to this length.
pub open spec fn kv_loads(file: FileView, i: int, dim: usize, len: usize) -> bool {
    &&& loads_to(file.tensors[kv_name(i, "_k"@)], dim, len)
    &&& loads_to(file.tensors[kv_name(i, "_v"@)], dim, len)
}

/// The keys and values of a layer in a file, cut to this length.
pub open spec fn kv_loaded(file: FileView, i: int, dim: usize, len: usize) -> KvView {
    KvView {
        keys: Some(narrowed_view(file.tensors[kv_name(i, "_k"@)], dim as int, 0, len)),
        values: Some(narrowed_view(file.tensors[kv_name(i, "_v"@)], dim as int, 0, len)),
        dim,
    }
}

/// A cache was filled with these keys and values, or, where that is not sure, the device could
/// not copy them and it is empty.
pub open spec fn filled_or_empty(actual: KvView, wanted: KvView, sure: bool) -> bool {
    ||| actual == wanted
    ||| !sure && actual == (KvView { keys: None, values: None, dim: wanted.dim })
}

/// The inputs of the last tokens of a block that a file holds for a layer.
pub open spec fn conv_loaded(file: FileView, block: int, i: int) -> LayerView {
    if !stores_kv(file, i) && file.tensors.contains_key(conv_name(block, i)) {
        LayerView::Conv(file.tensors[conv_name(block, i)])
    } else {
        LayerView::Empty
    }
}

/// The inputs of the last tokens of a block in a file, if there are any, can be loaded.
pub open spec fn conv_loads(file: FileView, block: int, i: int) -> bool {
    conv_loaded(file, block, i) matches LayerView::Conv(raw) ==> loads(raw)
}

/// The inputs of the last tokens of a block in a file can be loaded.
pub open spec fn block_loads(file: FileView, block: int, n_layers: int) -> bool {
    forall|i: int| 0 <= i < n_layers ==> #[trigger] conv_loads(file, block, i)
}

/// The inputs of the last tokens of the first blocks in a file can be loaded.
pub open spec fn blocks_load(file: FileView, count: int, n_layers: int) -> bool {
    forall|b: int| 0 <= b < count ==> #[trigger] block_loads(file, b, n_layers)
}

/// The keys and values of a layer in a file, if there are any, can be loaded and cut to this
/// length.
pub open spec fn layer_loads(file: FileView, i: int, dim: usize, len: usize) -> bool {
    stores_kv(file, i) ==> kv_loads(file, i, dim, len)
}

/// The keys and values of the layers in a file can be loaded and cut to this length.
pub open spec fn layers_load(file: FileView, n_layers: int, dim: usize, len: usize) -> bool {
    forall|i: int| 0 <= i < n_layers ==> #[trigger] layer_loads(file, i, dim, len)
}

/// The memory of a layer is as the file and the place of its tensors have it.
pub open spec fn conv_agrees(
    layer: Option<MixedCache>,
    file: FileView,
    block: int,
    i: int,
    on_cpu: bool,
) -> bool {
    &&& conv_loads(file, block, i)
    &&& layer_view(layer) == conv_loaded(file, block, i)
    &&& layer matches Some(MixedCache::ConvCache(tensor)) ==> tensor_on_cpu(tensor) == on_cpu
}

/// A tensor of a file, if it is there.
fn tensor_if_any<'a>(file: &safetensors::SafeTensors<'a>, name: &str) -> (result: Option<
    RawTensor<'a>,
>)
    ensures
        match result {
            Some(raw) => {
                &&& file_view(*file).tensors.contains_key(name@)
                &&& file_view(*file).tensors[name@] == raw@
                &&& consistent(raw@)
            },
            None => !file_view(*file).tensors.contains_key(name@),
        },
{
    match find_tensor(file, name) {
        Ok(raw) => Some(raw),
        Err(_) => None,
    }
}

/// Loads the inputs of the last tokens of a block, layer by layer.
fn load_block(
    file: &safetensors::SafeTensors<'_>,
    block: usize,
    n_layers: usize,
    device: &candle_core::Device,
) -> (result: Result<Vec<Option<MixedCache>>, String>)
    ensures
        result matches Ok(layers) ==> {
            &&& layers@.len() == n_layers
            &&& forall|i: int|
                0 <= i < n_layers ==> #[trigger] conv_agrees(
                    layers@[i],
                    file_view(*file),
                    block as int,
                    i,
                    device_on_cpu(*device),
                )
        },
        device_on_cpu(*device) ==> (result is Ok <==> block_loads(
            file_view(*file),
            block as int,
            n_layers as int,
        )),
{
    let ghost view = file_view(*file);
    let mut layers: Vec<Option<MixedCache>> = Vec::new();
    let mut i: usize = 0;
    while i < n_layers
        invariant
            i <= n_layers,
            layers@.len() == i,
            view == file_view(*file),
            forall|j: int| 0 <= j < i ==> #[trigger] conv_loads(view, block as int, j),
            forall|j: int|
                0 <= j < i ==> #[trigger] conv_agrees(
                    layers@[j],
                    view,
                    block as int,
                    j,
                    device_on_cpu(*device),
                ),
        decreases n_layers - i,
    {
        let has_keys = tensor_if_any(file, kv_name_of(i, "_k").as_str()).is_some();
        let has_values = tensor_if_any(file, kv_name_of(i, "_v").as_str()).is_some();
        let ghost before = layers@;
        let mut layer: Option<MixedCache> = None;
        if !(has_keys && has_values) {
            match tensor_if_any(file, conv_name_of(block, i).as_str()) {
                Some(raw) => match load_tensor(&raw, device) {
                    Ok(tensor) => {
                        layer = Some(MixedCache::ConvCache(tensor));
                    },
                    Err(message) => {
                        assert(device_on_cpu(*device) ==> !conv_loads(
                            view,
                            block as int,
                            i as int,
                        ));
                        return Err(message);
                    },
                },
                None => {},
            }
        }
        assert(conv_agrees(layer, view, block as int, i as int, device_on_cpu(*device)));
        layers.push(layer);
        assert forall|j: int| 0 <= j < i + 1 implies #[trigger] conv_agrees(
            layers@[j],
            view,
            block as int,
            j,
            device_on_cpu(*device),
        ) by {
            if j < i {
                assert(conv_agrees(before[j], view, block as int, j, device_on_cpu(*device)));
            }
        }
        i = i + 1;
    }
    Ok(layers)
}

/// The blocks are as the file has them.
pub open spec fn blocks_agree(
    blocks: Seq<Vec<Option<MixedCache>>>,
    file: FileView,
    n_layers: int,
    on_cpu: bool,
) -> bool {
    forall|b: int|
        0 <= b < blocks.len() ==> block_agrees((#[trigger] blocks[b])@, file, b, n_layers, on_cpu)
}

/// A block is as the file has it.
pub open spec fn block_agrees(
    layers: Seq<Option<MixedCache>>,
    file: FileView,
    block: int,
    n_layers: int,
    on_cpu: bool,
) -> bool {
    &&& layers.len() == n_layers
    &&& forall|i: int|
        0 <= i < n_layers ==> #[trigger] conv_agrees(
            layers[i],
            file,
            block,
            i,
            on_cpu,
        )
}

/// Loads the inputs of the last tokens of the first blocks.
fn load_blocks(
    file: &safetensors::SafeTensors<'_>,
    count: usize,
    n_layers: usize,
    device: &candle_core::Device,
) -> (result: Result<Vec<Vec<Option<MixedCache>>>, String>)
    ensures
        result matches Ok(blocks) ==> blocks@.len() == count && blocks_agree(
            blocks@,
            file_view(*file),
            n_layers as int,
            device_on_cpu(*device),
        ),
        device_on_cpu(*device) ==> (result is Ok <==> blocks_load(
            file_view(*file),
            count as int,
            n_layers as int,
        )),
{
    let mut blocks: Vec<Vec<Option<MixedCache>>> = Vec::new();
    let mut b: usize = 0;
    while b < count
        invariant
            b <= count,
            blocks@.len() == b,
            device_on_cpu(*device) ==> blocks_load(
                file_view(*file),
                b as int,
                n_layers as int,
            ),
            blocks_agree(blocks@, file_view(*file), n_layers as int, device_on_cpu(*device)),
        decreases count - b,
    {
        match load_block(file, b, n_layers, device) {
            Ok(layers) => {
                assert(block_agrees(
                    layers@,
                    file_view(*file),
                    b as int,
                    n_layers as int,
                    device_on_cpu(*device),
                ));
                blocks.push(layers);
            },
            Err(message) => {
                assert(device_on_cpu(*device) ==> !block_loads(
                    file_view(*file),
                    b as int,
                    n_layers as int,
                ));
                return Err(message);
            },
        }
        b = b + 1;
    }
    Ok(blocks)
}

/// The memory of a layer is as the file has it: keys and values cut to this length, or the inputs
/// of the last tokens of the last block, if there is a block.
pub open spec fn layer_agrees(
    layer: Option<MixedCache>,
    file: FileView,
    i: int,
    dim: usize,
    len: usize,
    count: int,
    on_cpu: bool,
    sure: bool,
) -> bool {
    if stores_kv(file, i) {
        &&& kv_loads(file, i, dim, len)
        &&& layer_view(layer) is Kv
        &&& filled_or_empty(layer_view(layer)->Kv_0, kv_loaded(file, i, dim, len), sure)
    } else if count > 0 {
        conv_agrees(layer, file, count - 1, i, on_cpu)
    } else {
        layer is None
    }
}

/// Loads the keys and values of a layer, if the file holds some.
fn load_kv(
    file: &safetensors::SafeTensors<'_>,
    i: usize,
    dim: usize,
    len: usize,
    device: &candle_core::Device,
) -> (result: Result<Option<MixedCache>, String>)
    ensures
        result matches Ok(None) ==> !stores_kv(file_view(*file), i as int),
        result matches Ok(Some(layer)) ==> {
            &&& stores_kv(file_view(*file), i as int)
            &&& kv_loads(file_view(*file), i as int, dim, len)
            &&& layer matches MixedCache::KvCache(cache) && filled_or_empty(
                kv_view(cache),
                kv_loaded(file_view(*file), i as int, dim, len),
                device_on_cpu(*device),
            )
        },
        device_on_cpu(*device) ==> (result is Ok <==> layer_loads(
            file_view(*file),
            i as int,
            dim,
            len,
        )),
{
    let keys = tensor_if_any(file, kv_name_of(i, "_k").as_str());
    let values = tensor_if_any(file, kv_name_of(i, "_v").as_str());
    match (keys, values) {
        (Some(k), Some(v)) => {
            let k_all = match load_tensor(&k, device) {
                Ok(tensor) => tensor,
                Err(message) => {
                    return Err(message);
                },
            };
            let k_part = match narrow(&k_all, dim, 0, len) {
                Ok(tensor) => tensor,
                Err(message) => {
                    return Err(message);
                },
            };
            let v_all = match load_tensor(&v, device) {
                Ok(tensor) => tensor,
                Err(message) => {
                    return Err(message);
                },
            };
            let v_part = match narrow(&v_all, dim, 0, len) {
                Ok(tensor) => tensor,
                Err(message) => {
                    return Err(message);
                },
            };
            let mut cache = new_kv_cache(dim);
            let _ = fill_kv_cache(&mut cache, &k_part, &v_part);
            Ok(Some(MixedCache::KvCache(cache)))
        },
        _ => Ok(None),
    }
}

/// Another handle of the memory of a layer that keeps inputs of the last tokens.
fn conv_handle(layer: &Option<MixedCache>) -> (result: Option<MixedCache>)
    ensures
        match *layer {
            Some(MixedCache::ConvCache(tensor)) => result matches Some(MixedCache::ConvCache(copy))
                && tensor_view(copy) == tensor_view(tensor) && tensor_on_cpu(copy)
                == tensor_on_cpu(tensor),
            _ => result is None,
        },
{
    match layer {
        Some(MixedCache::ConvCache(tensor)) => Some(MixedCache::ConvCache(tensor.clone())),
        _ => None,
    }
}

/// Loads the memory of the layers, given the blocks.
fn load_layers(
    file: &safetensors::SafeTensors<'_>,
    n_layers: usize,
    dim: usize,
    len: usize,
    blocks: &Vec<Vec<Option<MixedCache>>>,
    device: &candle_core::Device,
    Ghost(on_cpu): Ghost<bool>,
) -> (result: Result<Vec<Option<MixedCache>>, String>)
    requires
        blocks_agree(blocks@, file_view(*file), n_layers as int, on_cpu),
    ensures
        result matches Ok(layers) ==> {
            &&& layers@.len() == n_layers
            &&& forall|i: int|
                0 <= i < n_layers ==> #[trigger] layer_agrees(
                    layers@[i],
                    file_view(*file),
                    i,
                    dim,
                    len,
                    blocks@.len() as int,
                    on_cpu,
                    device_on_cpu(*device),
                )
        },
        device_on_cpu(*device) ==> (result is Ok <==> layers_load(
            file_view(*file),
            n_layers as int,
            dim,
            len,
        )),
{
    let ghost view = file_view(*file);
    let count: usize = blocks.len();
    let mut layers: Vec<Option<MixedCache>> = Vec::new();
    let mut i: usize = 0;
    while i < n_layers
        invariant
            i <= n_layers,
            layers@.len() == i,
            view == file_view(*file),
            count == blocks@.len(),
            blocks_agree(blocks@, view, n_layers as int, on_cpu),
            device_on_cpu(*device) ==> layers_load(view, i as int, dim, len),
            forall|j: int|
                0 <= j < i ==> #[trigger] layer_agrees(
                    layers@[j],
                    view,
                    j,
                    dim,
                    len,
                    count as int,
                    on_cpu,
                    device_on_cpu(*device),
                ),
        decreases n_layers - i,
    {
        let ghost before = layers@;
        let layer = match load_kv(file, i, dim, len, device) {
            Ok(Some(kv)) => Some(kv),
            Ok(None) => if count > 0 {
                assert(block_agrees(
                    blocks@[count - 1]@,
                    view,
                    count - 1,
                    n_layers as int,
                    on_cpu,
                ));
                assert(conv_agrees(
                    blocks@[count - 1]@[i as int],
                    view,
                    count - 1,
                    i as int,
                    on_cpu,
                ));
                conv_handle(&blocks[count - 1][i])
            } else {
                None
            },
            Err(message) => {
                assert(device_on_cpu(*device) ==> !layer_loads(view, i as int, dim, len));
                return Err(message);
            },
        };
        let ghost sure = device_on_cpu(*device);
        assert(layer_agrees(layer, view, i as int, dim, len, count as int, on_cpu, sure));
        layers.push(layer);
        assert forall|j: int| 0 <= j < i + 1 implies #[trigger] layer_agrees(
            layers@[j],
            view,
            j,
            dim,
            len,
            count as int,
            on_cpu,
            sure,
        ) by {
            if j < i {
                assert(layer_agrees(before[j], view, j, dim, len, count as int, on_cpu, sure));
            }
        }
        i = i + 1;
    }
    Ok(layers)
}

/// A text up to the first underscore.
pub open spec fn up_to_underscore(text: Seq<char>) -> Seq<char>
    decreases text.len(),
{
    if text.len() == 0 || text[0] == '_' {
        seq![]
    } else {
        seq![text[0]] + up_to_underscore(text.skip(1))
    }
}

/// The number of the layer that the name of a tensor speaks of.
pub open spec fn layer_number(name: Seq<char>) -> Option<usize> {
    let head = "layer_"@;
    if head.len() <= name.len() && name.take(head.len() as int) == head {
        parsed_usize(up_to_underscore(name.skip(head.len() as int)))
    } else {
        None
    }
}

fn find_layer_number(name: &str) -> (result: Option<usize>)
    ensures
        result == layer_number(name@),
{
    let chars = chars_of(name);
    let head = chars_of("layer_");
    let from: usize = head.len();
    if !starts_with(&chars, &head) {
        return None;
    }
    let ghost rest = chars@.skip(from as int);
    let mut to: usize = from;
    assert(rest.skip(0) =~= rest);
    assert(chars@.subrange(from as int, from as int) + up_to_underscore(rest) =~= up_to_underscore(
        rest,
    ));
    while to < chars.len() && chars[to] != '_'
        invariant
            from <= to <= chars@.len(),
            rest == chars@.skip(from as int),
            up_to_underscore(rest) == chars@.subrange(from as int, to as int) + up_to_underscore(
                rest.skip(to - from),
            ),
        decreases chars.len() - to,
    {
        proof {
            let tail = rest.skip(to - from);
            assert(tail[0] == chars@[to as int]);
            assert(tail.skip(1) =~= rest.skip(to + 1 - from));
            assert(chars@.subrange(from as int, to as int) + (seq![tail[0]] + up_to_underscore(
                tail.skip(1),
            )) =~= chars@.subrange(from as int, to + 1) + up_to_underscore(tail.skip(1)));
        }
        to = to + 1;
    }
    proof {
        let tail = rest.skip(to - from);
        assert(tail.len() > 0 ==> tail[0] == chars@[to as int]);
        assert(up_to_underscore(tail) =~= Seq::<char>::empty());
        assert(chars@.subrange(from as int, to as int) =~= up_to_underscore(rest));
    }
    parse_usize(&chars, from, to)
}

/// The highest number of a layer that the names speak of; zero if they speak of none.
pub open spec fn is_highest_layer(names: Set<Seq<char>>, n: usize) -> bool {
    &&& forall|name: Seq<char>| #[trigger]
        names.contains(name) ==> (layer_number(name) matches Some(m) ==> m <= n)
    &&& n > 0 ==> exists|name: Seq<char>| #[trigger]
        names.contains(name) && layer_number(name) == Some(n)
}

/// The number of layers of a file: what its notes say, or the highest number of a layer.
pub open spec fn counts_layers(file: FileView, n: usize) -> bool {
    match number_of_note(file.notes, "n_layers"@) {
        Some(noted) => n == noted,
        None => is_highest_layer(file.tensors.dom(), n),
    }
}

fn layer_count(header: &safetensors::tensor::Metadata) -> (result: usize)
    ensures
        match number_of_note(header_view(*header).notes, "n_layers"@) {
            Some(noted) => result == noted,
            None => is_highest_layer(header_view(*header).names, result),
        },
{
    match note_number(header, "n_layers") {
        Some(n) => n,
        None => {
            let names = header_names(header);
            let mut highest: usize = 0;
            let mut i: usize = 0;
            while i < names.len()
                invariant
                    i <= names@.len(),
                    forall|j: int|
                        0 <= j < i ==> (layer_number((#[trigger] names@[j])@) matches Some(m)
                            ==> m <= highest),
                    highest > 0 ==> exists|j: int|
                        0 <= j < i && layer_number((#[trigger] names@[j])@) == Some(highest),
                decreases names.len() - i,
            {
                match find_layer_number(names[i].as_str()) {
                    Some(m) => {
                        if m > highest {
                            highest = m;
                            assert(layer_number(names@[i as int]@) == Some(highest));
                        }
                    },
                    None => {},
                }
                i = i + 1;
            }
            proof {
                let set = header_view(*header).names;
                assert forall|name: Seq<char>| #[trigger] set.contains(name) implies (
                layer_number(name) matches Some(m) ==> m <= highest) by {
                    let j = choose|j: int| 0 <= j < names@.len() && (#[trigger] names@[j])@ == name;
                    assert(names@[j]@ == name);
                }
                if highest > 0 {
                    let j = choose|j: int|
                        0 <= j < names@.len() && layer_number((#[trigger] names@[j])@) == Some(
                            highest,
                        );
                    assert(set.contains(names@[j]@));
                }
            }
            highest
        },
    }
}

/// Why a file cannot be used with this fragmentation, if it cannot.
pub open spec fn block_mismatch(file: FileView, fragmentation: ModelCacheFragmentation) -> Option<
    Seq<char>,
> {
    match fragmentation {
        ModelCacheFragmentation::BlockWise { block_size } => if noted_block_size(file.notes)
            != block_size {
            Some(
                "Cache block size ("@ + dec(noted_block_size(file.notes) as nat)
                    + ") does not match requested block size ("@ + dec(block_size as nat) + ")"@,
            )
        } else {
            None
        },
        ModelCacheFragmentation::TokenWise => None,
    }
}

/// The number of blocks of a matched prefix.
pub open spec fn block_count(fragmentation: ModelCacheFragmentation, matched: usize) -> int {
    match fragmentation {
        ModelCacheFragmentation::BlockWise { block_size } => matched as int / block_size as int,
        ModelCacheFragmentation::TokenWise => 0,
    }
}

/// What was loaded agrees with the file.
pub open spec fn loaded_agrees(
    loaded: LoadedMixedCache,
    file: FileView,
    n_layers: usize,
    matched: usize,
    fragmentation: ModelCacheFragmentation,
    dim: usize,
    on_cpu: bool,
    sure: bool,
) -> bool {
    let count = block_count(fragmentation, matched);
    &&& counts_layers(file, n_layers)
    &&& loaded.cached_token_length == whole_blocks(
        matched as int,
        block_size_of(fragmentation) as int,
    )
    &&& loaded.block_boundary_conv_cache@.len() == count
    &&& blocks_agree(loaded.block_boundary_conv_cache@, file, n_layers as int, on_cpu)
    &&& loaded.mixed_cache@.len() == n_layers
    &&& forall|i: int|
        0 <= i < n_layers ==> #[trigger] layer_agrees(
            loaded.mixed_cache@[i],
            file,
            i,
            dim,
            loaded.cached_token_length,
            count,
            on_cpu,
            sure,
        )
    &&& !stores_layer_in(file, n_layers as int, count)
}

/// A file holds something of a layer: keys and values, or inputs of the last tokens of one of the
/// first blocks.
pub open spec fn stores_layer_in(file: FileView, layer: int, count: int) -> bool {
    ||| stores_kv(file, layer)
    ||| exists|b: int| 0 <= b < count && file.tensors.contains_key(#[trigger] conv_name(b, layer))
}

/// A file of so many layers can be loaded.
pub open spec fn can_load_layers(
    file: FileView,
    n_layers: usize,
    matched: usize,
    fragmentation: ModelCacheFragmentation,
    dim: usize,
) -> bool {
    let count = block_count(fragmentation, matched);
    let len = whole_blocks(matched as int, block_size_of(fragmentation) as int) as usize;
    &&& counts_layers(file, n_layers)
    &&& !stores_layer_in(file, n_layers as int, count)
    &&& blocks_load(file, count, n_layers as int)
    &&& layers_load(file, n_layers as int, dim, len)
}

/// A file can be loaded: it holds no more layers than it counts, and all that it holds of them
/// has a format that can be loaded and reaches as far as is wanted.
pub open spec fn can_load(
    file: FileView,
    matched: usize,
    fragmentation: ModelCacheFragmentation,
    dim: usize,
) -> bool {
    exists|n: usize| #[trigger] can_load_layers(file, n, matched, fragmentation, dim)
}

/// The layers of a file are counted in one way.
proof fn lemma_one_count(file: FileView, a: usize, b: usize)
    requires
        counts_layers(file, a),
        counts_layers(file, b),
    ensures
        a == b,
{
    if number_of_note(file.notes, "n_layers"@) is None {
        let names = file.tensors.dom();
        if a < b {
            let name = choose|name: Seq<char>| #[trigger]
                names.contains(name) && layer_number(name) == Some(b);
            assert(names.contains(name));
        } else if b < a {
            let name = choose|name: Seq<char>| #[trigger]
                names.contains(name) && layer_number(name) == Some(a);
            assert(names.contains(name));
        }
    }
}

/// What was loaded agrees with the file, whose layers can be counted.
pub open spec fn is_loaded_from(
    loaded: LoadedMixedCache,
    file: FileView,
    matched: usize,
    fragmentation: ModelCacheFragmentation,
    dim: usize,
    on_cpu: bool,
    sure: bool,
) -> bool {
    exists|n: usize| #[trigger]
        loaded_agrees(loaded, file, n, matched, fragmentation, dim, on_cpu, sure)
}

/// Whether a file holds something of a layer.
fn stores_layer(file: &safetensors::SafeTensors<'_>, layer: usize, count: usize) -> (result: bool)
    ensures
        result == stores_layer_in(file_view(*file), layer as int, count as int),
{
    let has_keys = tensor_if_any(file, kv_name_of(layer, "_k").as_str()).is_some();
    let has_values = tensor_if_any(file, kv_name_of(layer, "_v").as_str()).is_some();
    if has_keys && has_values {
        return true;
    }
    let mut b: usize = 0;
    while b < count
        invariant
            b <= count,
            forall|c: int|
                0 <= c < b ==> !file_view(*file).tensors.contains_key(
                    #[trigger] conv_name(c, layer as int),
                ),
        decreases count - b,
    {
        if tensor_if_any(file, conv_name_of(b, layer).as_str()).is_some() {
            return true;
        }
        b = b + 1;
    }
    false
}

/// What was loaded could be loaded.
proof fn lemma_agreement_loads(
    loaded: LoadedMixedCache,
    file: FileView,
    n_layers: usize,
    matched: usize,
    fragmentation: ModelCacheFragmentation,
    dim: usize,
    on_cpu: bool,
    sure: bool,
)
    requires
        loaded_agrees(loaded, file, n_layers, matched, fragmentation, dim, on_cpu, sure),
    ensures
        can_load_layers(file, n_layers, matched, fragmentation, dim),
{
    let count = block_count(fragmentation, matched);
    let len = loaded.cached_token_length;
    assert forall|b: int| 0 <= b < count implies #[trigger] block_loads(
        file,
        b,
        n_layers as int,
    ) by {
        let layers = loaded.block_boundary_conv_cache@[b]@;
        assert(block_agrees(layers, file, b, n_layers as int, on_cpu));
        assert forall|i: int| 0 <= i < n_layers implies #[trigger] conv_loads(file, b, i) by {
            assert(conv_agrees(layers[i], file, b, i, on_cpu));
        }
    }
    assert forall|i: int| 0 <= i < n_layers implies #[trigger] layer_loads(
        file,
        i,
        dim,
        len,
    ) by {
        assert(layer_agrees(
            loaded.mixed_cache@[i],
            file,
            i,
            dim,
            len,
            count,
            on_cpu,
            sure,
        ));
    }
}

/// Loads cached prefixes from the bytes of their files.
#[derive(Debug, Clone, Copy)]
pub struct FileCacheLoader;

impl FileCacheLoader {
    /// Loads the memory of the first `matched_token_length` tokens of a cached prefix, as far as
    /// they make whole blocks. Inputs of the last tokens are placed on the processor if
    /// `conv_on_cpu` says so. A file that holds more layers than it says is an error, and so is
    /// one that is cut otherwise, into blocks of nothing, or does not reach as far. The processor takes all that can be
    /// loaded; another device may fail.
    pub fn load_mixed_cache(
        &self,
        bytes: &[u8],
        matched_token_length: usize,
        fragmentation: &ModelCacheFragmentation,
        cache_seq_len_dim: usize,
        device: &candle_core::Device,
        conv_on_cpu: bool,
    ) -> (result: Result<LoadedMixedCache, String>)
        ensures
            match file_in(bytes@) {
                None => result is Err,
                Some(file) => match block_mismatch(file, *fragmentation) {
                    Some(message) => result matches Err(text) && text@ == message,
                    None => if block_size_of(*fragmentation) == 0 {
                        result matches Err(text) && text@ == "Cache block size is zero"@
                    } else {
                        &&& result matches Ok(loaded) ==> can_load(
                            file,
                            matched_token_length,
                            *fragmentation,
                            cache_seq_len_dim,
                        ) && is_loaded_from(
                            loaded,
                            file,
                            matched_token_length,
                            *fragmentation,
                            cache_seq_len_dim,
                            conv_on_cpu || device_on_cpu(*device),
                            device_on_cpu(*device),
                        )
                        &&& device_on_cpu(*device) && can_load(
                            file,
                            matched_token_length,
                            *fragmentation,
                            cache_seq_len_dim,
                        ) ==> result is Ok
                    },
                },
            },
    {
        let header = match header_of(bytes) {
            Ok(header) => header,
            Err(message) => {
                return Err(message);
            },
        };
        let file = match opened(bytes) {
            Ok(file) => file,
            Err(message) => {
                return Err(message);
            },
        };
        let n_layers: usize = layer_count(&header);
        let mut count: usize = 0;
        match fragmentation {
            ModelCacheFragmentation::BlockWise { block_size } => {
                let noted: usize = note_block_size(&header);
                if noted != *block_size {
                    let mut message = String::from_str("Cache block size (");
                    push_dec(&mut message, noted as u64);
                    message.append(") does not match requested block size (");
                    push_dec(&mut message, *block_size as u64);
                    message.append(")");
                    return Err(message);
                }
                if *block_size == 0 {
                    return Err(String::from_str("Cache block size is zero"));
                }
                count = matched_token_length / *block_size;
            },
            ModelCacheFragmentation::TokenWise => {},
        }
        let len: usize = in_whole_blocks(matched_token_length, block_size(fragmentation));
        let ghost view = file_view(file);
        proof {
            if can_load(view, matched_token_length, *fragmentation, cache_seq_len_dim) {
                let n = choose|n: usize| #[trigger]
                    can_load_layers(
                        view,
                        n,
                        matched_token_length,
                        *fragmentation,
                        cache_seq_len_dim,
                    );
                lemma_one_count(view, n, n_layers);
            }
        }
        if stores_layer(&file, n_layers, count) {
            let mut message = String::from_str("layer ");
            push_dec(&mut message, n_layers as u64);
            message.append(" is out of range");
            return Err(message);
        }
        let on_processor = conv_on_cpu && !is_cpu(device);
        let processor = cpu();
        let conv_device = if on_processor {
            &processor
        } else {
            device
        };
        let ghost on_cpu = conv_on_cpu || device_on_cpu(*device);
        assert(device_on_cpu(*conv_device) == on_cpu);
        let blocks = match load_blocks(&file, count, n_layers, conv_device) {
            Ok(blocks) => blocks,
            Err(message) => {
                return Err(message);
            },
        };
        let layers = match load_layers(
            &file,
            n_layers,
            cache_seq_len_dim,
            len,
            &blocks,
            device,
            Ghost(on_cpu),
        ) {
            Ok(layers) => layers,
            Err(message) => {
                return Err(message);
            },
        };
        let loaded = LoadedMixedCache {
            mixed_cache: layers,
            block_boundary_conv_cache: blocks,
            cached_token_length: len,
        };
        proof {
            assert(loaded_agrees(
                loaded,
                view,
                n_layers,
                matched_token_length,
                *fragmentation,
                cache_seq_len_dim,
                on_cpu,
                device_on_cpu(*device),
            ));
            lemma_agreement_loads(
                loaded,
                view,
                n_layers,
                matched_token_length,
                *fragmentation,
                cache_seq_len_dim,
                on_cpu,
                device_on_cpu(*device),
            );
        }
        Ok(loaded)
    }
}

proof fn lemma_lookup(list: Seq<(Seq<char>, RawView)>, e: int)
    requires
        different(list),
        0 <= e < list.len(),
    ensures
        entry_map(list).contains_key(list[e].0),
        entry_map(list)[list[e].0] == list[e].1,
    decreases list.len(),
{
    if e < list.len() - 1 {
        assert(different(list.drop_last())) by {
            assert forall|i: int, j: int| 0 <= i < j < list.drop_last().len() implies (
            #[trigger] list.drop_last()[i]).0 != (#[trigger] list.drop_last()[j]).0 by {
                assert(list[i].0 != list[j].0);
            }
        }
        lemma_lookup(list.drop_last(), e);
        assert(list[e].0 != list[list.len() - 1].0);
    }
}

/// The entry of a name that is in the map.
proof fn lemma_entry_of(list: Seq<(Seq<char>, RawView)>, name: Seq<char>) -> (e: int)
    requires
        entry_map(list).contains_key(name),
    ensures
        0 <= e < list.len(),
        list[e].0 == name,
    decreases list.len(),
{
    if list.last().0 == name {
        list.len() - 1
    } else {
        lemma_entry_of(list.drop_last(), name)
    }
}

/// Where the keys of a layer stand among the tensors; the values follow.
proof fn lemma_kv_place(layers: Seq<LayerView>, dim: usize, len: usize, i: int) -> (e: int)
    requires
        0 <= i < layers.len(),
        has_kv(layers[i]),
    ensures
        0 <= e,
        e + 1 < all_kv_entries(layers, dim, len).len(),
        all_kv_entries(layers, dim, len)[e] == kv_entries(layers[i], i, dim, len)[0],
        all_kv_entries(layers, dim, len)[e + 1] == kv_entries(layers[i], i, dim, len)[1],
    decreases layers.len(),
{
    let before = all_kv_entries(layers.drop_last(), dim, len);
    if i == layers.len() - 1 {
        before.len() as int
    } else {
        let e = lemma_kv_place(layers.drop_last(), dim, len, i);
        assert(all_kv_entries(layers, dim, len)[e] == before[e]);
        assert(all_kv_entries(layers, dim, len)[e + 1] == before[e + 1]);
        e
    }
}

/// Where the inputs of the last tokens of a layer stand among those of a block.
proof fn lemma_conv_place(layers: Seq<LayerView>, block: int, l: int) -> (e: int)
    requires
        0 <= l < layers.len(),
        layers[l] is Conv,
    ensures
        0 <= e < conv_entries(layers, block).len(),
        conv_entries(layers, block)[e] == (conv_name(block, l), layers[l]->Conv_0),
    decreases layers.len(),
{
    if l == layers.len() - 1 {
        conv_entries(layers, block).len() - 1
    } else {
        lemma_conv_place(layers.drop_last(), block, l)
    }
}

/// Where the inputs of the last tokens of a layer stand among those of all blocks.
proof fn lemma_all_conv_place(blocks: Seq<Seq<LayerView>>, b: int, l: int) -> (e: int)
    requires
        0 <= b < blocks.len(),
        0 <= l < blocks[b].len(),
        blocks[b][l] is Conv,
    ensures
        0 <= e < all_conv_entries(blocks).len(),
        all_conv_entries(blocks)[e] == (conv_name(b, l), blocks[b][l]->Conv_0),
    decreases blocks.len(),
{
    let before = all_conv_entries(blocks.drop_last());
    if b == blocks.len() - 1 {
        let e = lemma_conv_place(blocks.last(), b, l);
        before.len() + e
    } else {
        lemma_all_conv_place(blocks.drop_last(), b, l)
    }
}

/// An entry of keys or values comes from a layer that has them.
proof fn lemma_kv_origin(layers: Seq<LayerView>, dim: usize, len: usize, e: int) -> (i: int)
    requires
        0 <= e < all_kv_entries(layers, dim, len).len(),
    ensures
        0 <= i < layers.len(),
        has_kv(layers[i]),
        is_kv_name_of(all_kv_entries(layers, dim, len)[e].0, i),
    decreases layers.len(),
{
    let before = all_kv_entries(layers.drop_last(), dim, len);
    if e < before.len() {
        lemma_kv_origin(layers.drop_last(), dim, len, e)
    } else {
        layers.len() - 1
    }
}

/// An entry of inputs of the last tokens comes from a layer of a block that has them.
proof fn lemma_conv_origin(layers: Seq<LayerView>, block: int, e: int) -> (l: int)
    requires
        0 <= e < conv_entries(layers, block).len(),
    ensures
        0 <= l < layers.len(),
        layers[l] is Conv,
        conv_entries(layers, block)[e].0 == conv_name(block, l),
    decreases layers.len(),
{
    let before = conv_entries(layers.drop_last(), block);
    if e < before.len() {
        lemma_conv_origin(layers.drop_last(), block, e)
    } else {
        layers.len() - 1
    }
}

proof fn lemma_all_conv_origin(blocks: Seq<Seq<LayerView>>, e: int) -> (place: (int, int))
    requires
        0 <= e < all_conv_entries(blocks).len(),
    ensures
        0 <= place.0 < blocks.len(),
        0 <= place.1 < blocks[place.0].len(),
        blocks[place.0][place.1] is Conv,
        all_conv_entries(blocks)[e].0 == conv_name(place.0, place.1),
    decreases blocks.len(),
{
    let before = all_conv_entries(blocks.drop_last());
    if e < before.len() {
        lemma_all_conv_origin(blocks.drop_last(), e)
    } else {
        let l = lemma_conv_origin(blocks.last(), blocks.len() - 1, e - before.len());
        (blocks.len() - 1, l)
    }
}

/// The layer's tensors in a file: under the names of keys and values those of the layer, if it
/// has them, and nothing else.
proof fn lemma_stored_kv(
    ids: Seq<u32>,
    layers: Seq<LayerView>,
    blocks: Seq<Seq<LayerView>>,
    dim: usize,
    fragmentation: ModelCacheFragmentation,
    i: int,
)
    requires
        0 <= i,
    ensures
        ({
            let len = whole_blocks(ids.len() as int, block_size_of(fragmentation) as int) as usize;
            let map = entry_map(saved_entries(ids, layers, blocks, dim, fragmentation));
            let has = i < layers.len() && has_kv(layers[i]);
            &&& map.contains_key(kv_name(i, "_k"@)) == has
            &&& map.contains_key(kv_name(i, "_v"@)) == has
            &&& has ==> map[kv_name(i, "_k"@)] == kv_entries(layers[i], i, dim, len)[0].1
            &&& has ==> map[kv_name(i, "_v"@)] == kv_entries(layers[i], i, dim, len)[1].1
        }),
{
    let len = whole_blocks(ids.len() as int, block_size_of(fragmentation) as int) as usize;
    let all = saved_entries(ids, layers, blocks, dim, fragmentation);
    let kv = all_kv_entries(layers, dim, len);
    let conv = all_conv_entries(blocks);
    lemma_saved_entries(ids, layers, blocks, dim, fragmentation);
    if i < layers.len() && has_kv(layers[i]) {
        let e = lemma_kv_place(layers, dim, len, i);
        assert(all[1 + e] == kv[e]);
        assert(all[2 + e] == kv[e + 1]);
        lemma_lookup(all, 1 + e);
        lemma_lookup(all, 2 + e);
    } else {
        lemma_no_kv(ids, layers, blocks, dim, fragmentation, i, "_k"@);
        lemma_no_kv(ids, layers, blocks, dim, fragmentation, i, "_v"@);
    }
}

proof fn lemma_no_kv(
    ids: Seq<u32>,
    layers: Seq<LayerView>,
    blocks: Seq<Seq<LayerView>>,
    dim: usize,
    fragmentation: ModelCacheFragmentation,
    i: int,
    suffix: Seq<char>,
)
    requires
        0 <= i,
        i < layers.len() ==> !has_kv(layers[i]),
        suffix == "_k"@ || suffix == "_v"@,
    ensures
        !entry_map(saved_entries(ids, layers, blocks, dim, fragmentation)).contains_key(
            kv_name(i, suffix),
        ),
{
    let len = whole_blocks(ids.len() as int, block_size_of(fragmentation) as int) as usize;
    let all = saved_entries(ids, layers, blocks, dim, fragmentation);
    let kv = all_kv_entries(layers, dim, len);
    let conv = all_conv_entries(blocks);
    let name = kv_name(i, suffix);
    if entry_map(all).contains_key(name) {
        let e = lemma_entry_of(all, name);
        lemma_first_letters(i, suffix, 0, 0);
        if 0 < e <= kv.len() {
            assert(all[e] == kv[e - 1]);
            let j = lemma_kv_origin(layers, dim, len, e - 1);
            if name == kv_name(j, "_k"@) {
                lemma_kv_names_differ(i, suffix, j, "_k"@);
            } else {
                lemma_kv_names_differ(i, suffix, j, "_v"@);
            }
        } else if e > kv.len() {
            let c = e - 1 - kv.len();
            assert(all[e] == conv[c]);
            let place = lemma_all_conv_origin(blocks, c);
            lemma_first_letters(i, suffix, place.0, place.1);
        }
    }
}

/// The inputs of the last tokens in a file with blocks: those of the layers of the blocks, and
/// nothing else.
proof fn lemma_stored_conv(
    ids: Seq<u32>,
    layers: Seq<LayerView>,
    blocks: Seq<Seq<LayerView>>,
    dim: usize,
    fragmentation: ModelCacheFragmentation,
    b: int,
    l: int,
)
    requires
        0 <= b,
        0 <= l,
    ensures
        ({
            let map = entry_map(saved_entries(ids, layers, blocks, dim, fragmentation));
            let has = fragmentation is BlockWise && b < blocks.len() && l < blocks[b].len()
                && blocks[b][l] is Conv;
            &&& map.contains_key(conv_name(b, l)) == has
            &&& has ==> map[conv_name(b, l)] == blocks[b][l]->Conv_0
        }),
{
    let len = whole_blocks(ids.len() as int, block_size_of(fragmentation) as int) as usize;
    let all = saved_entries(ids, layers, blocks, dim, fragmentation);
    let kv = all_kv_entries(layers, dim, len);
    let conv = all_conv_entries(blocks);
    let name = conv_name(b, l);
    lemma_saved_entries(ids, layers, blocks, dim, fragmentation);
    if fragmentation is BlockWise && b < blocks.len() && l < blocks[b].len()
        && blocks[b][l] is Conv {
        let e = lemma_all_conv_place(blocks, b, l);
        assert(all[1 + kv.len() + e] == conv[e]);
        lemma_lookup(all, 1 + kv.len() + e);
    } else if entry_map(all).contains_key(name) {
        let e = lemma_entry_of(all, name);
        lemma_first_letters(0, "_k"@, b, l);
        if 0 < e <= kv.len() {
            assert(all[e] == kv[e - 1]);
            let j = lemma_kv_origin(layers, dim, len, e - 1);
            lemma_first_letters(j, "_k"@, b, l);
            lemma_first_letters(j, "_v"@, b, l);
        } else if e > kv.len() {
            let c = e - 1 - kv.len();
            assert(all[e] == conv[c]);
            let place = lemma_all_conv_origin(blocks, c);
            lemma_conv_names_differ(b, l, place.0, place.1);
        }
    }
}

proof fn lemma_id_bytes(ids: Seq<u32>, i: int)
    requires
        0 <= i < ids.len(),
    ensures
        id_bytes(ids).len() == 4 * ids.len(),
        le_value(id_bytes(ids).subrange(4 * i, 4 * i + 4)) == ids[i],
    decreases ids.len(),
{
    let before = id_bytes(ids.drop_last());
    let id = ids.last() as int;
    let last = seq![
        (id % 256) as u8,
        (id / 256 % 256) as u8,
        (id / 65536 % 256) as u8,
        (id / 16777216) as u8,
    ];
    lemma_id_bytes_len(ids);
    lemma_id_bytes_len(ids.drop_last());
    if i == ids.len() - 1 {
        assert(id_bytes(ids).subrange(4 * i, 4 * i + 4) =~= last);
        assert(le_value(last) == id) by {
            assert(last.skip(1).skip(1).skip(1).skip(1).len() == 0);
            assert(last.skip(1)[0] == last[1]);
            assert(last.skip(1).skip(1)[0] == last[2]);
            assert(last.skip(1).skip(1).skip(1)[0] == last[3]);
            reveal_with_fuel(le_value, 5);
        }
    } else {
        lemma_id_bytes(ids.drop_last(), i);
        assert(id_bytes(ids).subrange(4 * i, 4 * i + 4) =~= before.subrange(4 * i, 4 * i + 4));
    }
}

proof fn lemma_id_bytes_len(ids: Seq<u32>)
    ensures
        id_bytes(ids).len() == 4 * ids.len(),
    decreases ids.len(),
{
    if ids.len() > 0 {
        lemma_id_bytes_len(ids.drop_last());
    }
}

/// The token ids that are read from the file of a cached prefix are those that were written to
/// it, and the file is found to be a prefix of the model in blocks of that size.
pub proof fn law_saved_ids_are_read(
    model: Seq<char>,
    ids: Seq<u32>,
    layers: Seq<LayerView>,
    blocks: Seq<Seq<LayerView>>,
    dim: usize,
    fragmentation: ModelCacheFragmentation,
)
    requires
        ids.len() <= usize::MAX,
        block_size_of(fragmentation) > 0,
    ensures
        ({
            let file = saved_file(model, ids, layers, blocks, dim, fragmentation);
            let len = whole_blocks(ids.len() as int, block_size_of(fragmentation) as int);
            &&& stored_ids(file) == Ok::<Seq<u32>, Seq<char>>(ids.take(len))
            &&& is_prefix_of_model(file.notes, model, block_size_of(fragmentation))
        }),
{
    let file = saved_file(model, ids, layers, blocks, dim, fragmentation);
    let all = saved_entries(ids, layers, blocks, dim, fragmentation);
    let len = whole_blocks(ids.len() as int, block_size_of(fragmentation) as int);
    law_whole_blocks(ids.len() as int, block_size_of(fragmentation) as int);
    let kept = ids.take(len);
    lemma_saved_entries(ids, layers, blocks, dim, fragmentation);
    lemma_lookup(all, 0);
    assert(all[0] == ("token_ids"@, ids_raw(kept)));
    let read = Seq::new(
        len as nat,
        |i: int| le_value(id_bytes(kept).subrange(4 * i, 4 * i + 4)) as u32,
    );
    assert(read =~= kept) by {
        assert forall|i: int| 0 <= i < len implies read[i] == kept[i] by {
            lemma_id_bytes(kept, i);
        }
    }
    assert(stored_ids(file)->Ok_0 =~= read);
    lemma_saved_notes(model, layers.len(), fragmentation);
}

proof fn lemma_saved_notes(model: Seq<char>, layers: nat, fragmentation: ModelCacheFragmentation)
    ensures
        ({
            let notes = Some(saved_notes(model, layers, fragmentation));
            &&& note_of(notes, "model_name"@) == Some(model)
            &&& noted_block_size(notes) == block_size_of(fragmentation)
            &&& layers <= usize::MAX ==> number_of_note(notes, "n_layers"@) == Some(
                layers as usize,
            )
        }),
{
    reveal_strlit("model_name");
    reveal_strlit("n_layers");
    reveal_strlit("fragmentation");
    reveal_strlit("block_size");
    assert("model_name"@[0] == 'm');
    assert("n_layers"@[0] == 'n');
    assert("fragmentation"@[0] == 'f');
    assert("block_size"@[0] == 'b');
    law_dec_parses(block_size_of(fragmentation) as nat);
    law_dec_parses(layers);
}

/// What is loaded from the file of a cached prefix is what was written to it: for a prefix of the
/// tokens, the keys and values of each layer as far as whole blocks of the prefix reach, and the
/// inputs of the last tokens of each block.
pub proof fn law_saved_cache_loads(
    model: Seq<char>,
    ids: Seq<u32>,
    layers: Seq<LayerView>,
    blocks: Seq<Seq<LayerView>>,
    dim: usize,
    fragmentation: ModelCacheFragmentation,
    matched: usize,
    i: int,
)
    requires
        ids.len() <= usize::MAX,
        layers.len() <= usize::MAX,
        block_size_of(fragmentation) > 0,
        matched <= ids.len(),
        0 <= i < layers.len(),
        kv_reach(
            layers,
            dim,
            whole_blocks(ids.len() as int, block_size_of(fragmentation) as int) as usize,
        ),
    ensures
        ({
            let file = saved_file(model, ids, layers, blocks, dim, fragmentation);
            let len = whole_blocks(matched as int, block_size_of(fragmentation) as int) as usize;
            &&& block_mismatch(file, fragmentation) is None
            &&& counts_layers(file, layers.len() as usize)
            &&& !stores_kv(file, layers.len() as int)
            &&& stores_kv(file, i) == has_kv(layers[i])
            &&& forall|key_width: nat, value_width: nat|
                has_kv(layers[i]) && #[trigger] has_width(
                    layers[i]->Kv_0.keys->Some_0,
                    key_width,
                ) && #[trigger] has_width(layers[i]->Kv_0.values->Some_0, value_width)
                    ==> kv_loaded(file, i, dim, len) == (KvView {
                    keys: Some(
                        narrowed_view(layers[i]->Kv_0.keys->Some_0, dim as int, 0, len),
                    ),
                    values: Some(
                        narrowed_view(layers[i]->Kv_0.values->Some_0, dim as int, 0, len),
                    ),
                    dim,
                })
            &&& forall|b: int|
                0 <= b < blocks.len() && fragmentation is BlockWise && !has_kv(layers[i])
                    ==> #[trigger] conv_loaded(file, b, i) == (if i < blocks[b].len()
                    && blocks[b][i] is Conv {
                    blocks[b][i]
                } else {
                    LayerView::Empty
                })
        }),
{
    let file = saved_file(model, ids, layers, blocks, dim, fragmentation);
    let block = block_size_of(fragmentation) as int;
    let saved = whole_blocks(ids.len() as int, block) as usize;
    let len = whole_blocks(matched as int, block) as usize;
    law_whole_blocks(ids.len() as int, block);
    law_whole_blocks(matched as int, block);
    assert(len <= saved) by {
        vstd::arithmetic::div_mod::lemma_div_is_ordered(
            matched as int,
            ids.len() as int,
            block,
        );
        vstd::arithmetic::mul::lemma_mul_inequality(
            matched as int / block,
            ids.len() as int / block,
            block,
        );
    }
    lemma_saved_notes(model, layers.len(), fragmentation);
    lemma_stored_kv(ids, layers, blocks, dim, fragmentation, layers.len() as int);
    lemma_stored_kv(ids, layers, blocks, dim, fragmentation, i);
    assert forall|key_width: nat, value_width: nat|
        has_kv(layers[i]) && #[trigger] has_width(layers[i]->Kv_0.keys->Some_0, key_width)
            && #[trigger] has_width(layers[i]->Kv_0.values->Some_0, value_width) implies kv_loaded(
        file,
        i,
        dim,
        len,
    ) == (KvView {
        keys: Some(narrowed_view(layers[i]->Kv_0.keys->Some_0, dim as int, 0, len)),
        values: Some(narrowed_view(layers[i]->Kv_0.values->Some_0, dim as int, 0, len)),
        dim,
    }) by {
        law_narrow_twice(layers[i]->Kv_0.keys->Some_0, key_width, dim as int, saved, len);
        law_narrow_twice(layers[i]->Kv_0.values->Some_0, value_width, dim as int, saved, len);
    }
    assert forall|b: int|
        0 <= b < blocks.len() && fragmentation is BlockWise && !has_kv(layers[i]) implies
    #[trigger] conv_loaded(file, b, i) == (if i < blocks[b].len() && blocks[b][i] is Conv {
        blocks[b][i]
    } else {
        LayerView::Empty
    }) by {
        lemma_stored_conv(ids, layers, blocks, dim, fragmentation, b, i);
    }
}

/// The inputs that are kept of a layer at the end of a block, if there are any.
pub open spec fn inputs_at(block: Seq<LayerView>, layer: int) -> LayerView {
    if layer < block.len() && block[layer] is Conv {
        block[layer]
    } else {
        LayerView::Empty
    }
}

/// All tensors of a list can be loaded.
pub open spec fn all_loadable(list: Seq<(Seq<char>, RawView)>) -> bool {
    forall|i: int| 0 <= i < list.len() ==> loads((#[trigger] list[i]).1)
}

/// A memory that was written to a file can be loaded from it, for any prefix of its tokens: the
/// processor then loads it without fail. Its tensors have to be ones that can be loaded, and the
/// blocks may speak of no more layers than there are.
pub proof fn law_saved_cache_can_be_loaded(
    model: Seq<char>,
    ids: Seq<u32>,
    layers: Seq<LayerView>,
    blocks: Seq<Seq<LayerView>>,
    dim: usize,
    fragmentation: ModelCacheFragmentation,
    matched: usize,
)
    requires
        ids.len() <= usize::MAX,
        layers.len() <= usize::MAX,
        block_size_of(fragmentation) > 0,
        matched <= ids.len(),
        kv_reach(
            layers,
            dim,
            whole_blocks(ids.len() as int, block_size_of(fragmentation) as int) as usize,
        ),
        forall|b: int| 0 <= b < blocks.len() ==> (#[trigger] blocks[b]).len() <= layers.len(),
        all_loadable(saved_entries(ids, layers, blocks, dim, fragmentation)),
    ensures
        ({
            let file = saved_file(model, ids, layers, blocks, dim, fragmentation);
            &&& block_mismatch(file, fragmentation) is None
            &&& can_load(file, matched, fragmentation, dim)
        }),
{
    let file = saved_file(model, ids, layers, blocks, dim, fragmentation);
    let all = saved_entries(ids, layers, blocks, dim, fragmentation);
    let n = layers.len() as usize;
    let block = block_size_of(fragmentation) as int;
    let saved = whole_blocks(ids.len() as int, block) as usize;
    let len = whole_blocks(matched as int, block) as usize;
    let count = block_count(fragmentation, matched);
    law_whole_blocks(ids.len() as int, block);
    law_whole_blocks(matched as int, block);
    assert(len <= saved) by {
        vstd::arithmetic::div_mod::lemma_div_is_ordered(
            matched as int,
            ids.len() as int,
            block,
        );
        vstd::arithmetic::mul::lemma_mul_inequality(
            matched as int / block,
            ids.len() as int / block,
            block,
        );
    }
    lemma_saved_notes(model, layers.len(), fragmentation);
    lemma_stored_kv(ids, layers, blocks, dim, fragmentation, n as int);
    assert forall|b: int| 0 <= b < count implies !file.tensors.contains_key(
        #[trigger] conv_name(b, n as int),
    ) by {
        lemma_stored_conv(ids, layers, blocks, dim, fragmentation, b, n as int);
    }
    assert forall|name: Seq<char>| #[trigger] file.tensors.contains_key(name) implies loads(
        file.tensors[name],
    ) by {
        lemma_saved_entries(ids, layers, blocks, dim, fragmentation);
        let e = lemma_entry_of(all, name);
        lemma_lookup(all, e);
    }
    assert forall|b: int| 0 <= b < count implies #[trigger] block_loads(file, b, n as int) by {
        assert forall|i: int| 0 <= i < n implies #[trigger] conv_loads(file, b, i) by {
            if file.tensors.contains_key(conv_name(b, i)) {
                assert(loads(file.tensors[conv_name(b, i)]));
            }
        }
    }
    assert forall|i: int| 0 <= i < n implies #[trigger] layer_loads(file, i, dim, len) by {
        lemma_stored_kv(ids, layers, blocks, dim, fragmentation, i);
        if stores_kv(file, i) {
            assert(has_kv(layers[i]));
            assert(loads(file.tensors[kv_name(i, "_k"@)]));
            assert(loads(file.tensors[kv_name(i, "_v"@)]));
        }
    }
    assert(can_load_layers(file, n, matched, fragmentation, dim));
}

/// What comes back of a memory that was written to a file: as many layers as there were; the keys
/// and values of each, cut to the whole blocks of the prefix; and, where it is cut into blocks, the
/// inputs of the last tokens of each block, and in the layers those of the last. A request for
/// blocks of another size is refused.
pub proof fn law_saved_cache_comes_back(
    loaded: LoadedMixedCache,
    model: Seq<char>,
    ids: Seq<u32>,
    layers: Seq<LayerView>,
    blocks: Seq<Seq<LayerView>>,
    dim: usize,
    fragmentation: ModelCacheFragmentation,
    matched: usize,
    on_cpu: bool,
)
    requires
        ids.len() <= usize::MAX,
        layers.len() <= usize::MAX,
        block_size_of(fragmentation) > 0,
        matched <= ids.len(),
        kv_reach(
            layers,
            dim,
            whole_blocks(ids.len() as int, block_size_of(fragmentation) as int) as usize,
        ),
        block_count(fragmentation, matched) <= blocks.len(),
        is_loaded_from(
            loaded,
            saved_file(model, ids, layers, blocks, dim, fragmentation),
            matched,
            fragmentation,
            dim,
            on_cpu,
            true,
        ),
    ensures
        ({
            let block = block_size_of(fragmentation);
            let len = whole_blocks(matched as int, block as int) as usize;
            let count = block_count(fragmentation, matched);
            &&& loaded.cached_token_length == len
            &&& loaded.mixed_cache@.len() == layers.len()
            &&& loaded.block_boundary_conv_cache@.len() == count
            &&& forall|i: int, key_width: nat, value_width: nat|
                0 <= i < layers.len() && has_kv(layers[i]) && #[trigger] has_width(
                    layers[i]->Kv_0.keys->Some_0,
                    key_width,
                ) && #[trigger] has_width(layers[i]->Kv_0.values->Some_0, value_width)
                    ==> layer_view(loaded.mixed_cache@[i]) == LayerView::Kv(
                    KvView {
                        keys: Some(
                            narrowed_view(layers[i]->Kv_0.keys->Some_0, dim as int, 0, len),
                        ),
                        values: Some(
                            narrowed_view(layers[i]->Kv_0.values->Some_0, dim as int, 0, len),
                        ),
                        dim,
                    },
                )
            &&& forall|i: int|
                0 <= i < layers.len() && !has_kv(layers[i]) ==> layer_view(
                    #[trigger] loaded.mixed_cache@[i],
                ) == (if count > 0 {
                    inputs_at(blocks[count - 1], i)
                } else {
                    LayerView::Empty
                })
            &&& forall|b: int, i: int|
                0 <= b < count && 0 <= i < layers.len() ==> layer_view(
                    #[trigger] loaded.block_boundary_conv_cache@[b]@[i],
                ) == (if has_kv(layers[i]) {
                    LayerView::Empty
                } else {
                    inputs_at(blocks[b], i)
                })
            &&& forall|other: usize|
                other != block ==> #[trigger] block_mismatch(
                    saved_file(model, ids, layers, blocks, dim, fragmentation),
                    ModelCacheFragmentation::BlockWise { block_size: other },
                ) is Some
        }),
{
    let file = saved_file(model, ids, layers, blocks, dim, fragmentation);
    let block = block_size_of(fragmentation);
    let len = whole_blocks(matched as int, block as int) as usize;
    let count = block_count(fragmentation, matched);
    let n = choose|n: usize| #[trigger]
        loaded_agrees(loaded, file, n, matched, fragmentation, dim, on_cpu, true);
    lemma_saved_notes(model, layers.len(), fragmentation);
    lemma_one_count(file, n, layers.len() as usize);
    law_whole_blocks(matched as int, block as int);
    assert forall|i: int, key_width: nat, value_width: nat|
        0 <= i < layers.len() && has_kv(layers[i]) && #[trigger] has_width(
            layers[i]->Kv_0.keys->Some_0,
            key_width,
        ) && #[trigger] has_width(
            layers[i]->Kv_0.values->Some_0,
            value_width,
        ) implies layer_view(loaded.mixed_cache@[i]) == LayerView::Kv(
        KvView {
            keys: Some(narrowed_view(layers[i]->Kv_0.keys->Some_0, dim as int, 0, len)),
            values: Some(narrowed_view(layers[i]->Kv_0.values->Some_0, dim as int, 0, len)),
            dim,
        },
    ) by {
        law_saved_cache_loads(model, ids, layers, blocks, dim, fragmentation, matched, i);
        assert(layer_agrees(loaded.mixed_cache@[i], file, i, dim, len, count, on_cpu, true));
    }
    assert forall|i: int| 0 <= i < layers.len() && !has_kv(layers[i]) implies layer_view(
        #[trigger] loaded.mixed_cache@[i],
    ) == (if count > 0 {
        inputs_at(blocks[count - 1], i)
    } else {
        LayerView::Empty
    }) by {
        law_saved_cache_loads(model, ids, layers, blocks, dim, fragmentation, matched, i);
        assert(layer_agrees(loaded.mixed_cache@[i], file, i, dim, len, count, on_cpu, true));
        if count > 0 {
            assert(conv_loaded(file, count - 1, i) == inputs_at(blocks[count - 1], i));
        }
    }
    assert forall|b: int, i: int| 0 <= b < count && 0 <= i < layers.len() implies layer_view(
        #[trigger] loaded.block_boundary_conv_cache@[b]@[i],
    ) == (if has_kv(layers[i]) {
        LayerView::Empty
    } else {
        inputs_at(blocks[b], i)
    }) by {
        law_saved_cache_loads(model, ids, layers, blocks, dim, fragmentation, matched, i);
        let kept = loaded.block_boundary_conv_cache@[b]@;
        assert(block_agrees(kept, file, b, n as int, on_cpu));
        assert(conv_agrees(kept[i], file, b, i, on_cpu));
        if !has_kv(layers[i]) {
            assert(conv_loaded(file, b, i) == inputs_at(blocks[b], i));
        }
    }
}

/// How the file of a cached prefix is laid out: the tokens of the whole blocks, the keys and values
/// of each layer as far as they reach, and the inputs at the end of each block, each under its own
/// name, with notes on the model, the layers and the blocks.
pub proof fn law_layout_of_file(
    model: Seq<char>,
    ids: Seq<u32>,
    layers: Seq<LayerView>,
    blocks: Seq<Seq<LayerView>>,
    dim: usize,
    fragmentation: ModelCacheFragmentation,
    layer: int,
    block: int,
)
    requires
        0 <= layer,
        0 <= block,
    ensures
        ({
            let file = saved_file(model, ids, layers, blocks, dim, fragmentation);
            let size = block_size_of(fragmentation);
            let len = ids.len() as int / size as int * size as int;
            let keys = "layer_"@ + dec(layer as nat) + "_k"@;
            let values = "layer_"@ + dec(layer as nat) + "_v"@;
            let inputs = "block_"@ + dec(block as nat) + "_layer_"@ + dec(layer as nat)
                + "_conv_cache"@;
            let has_keys = layer < layers.len() && (layers[layer] matches LayerView::Kv(kv)
                && kv.keys is Some && kv.values is Some);
            let has_inputs = fragmentation is BlockWise && block < blocks.len() && layer
                < blocks[block].len() && blocks[block][layer] is Conv;
            &&& file.tensors.contains_key("token_ids"@)
            &&& file.tensors["token_ids"@].dtype == "U32"@
            &&& file.tensors["token_ids"@].data == id_bytes(ids.take(len as usize as int))
            &&& file.tensors.contains_key(keys) <==> has_keys
            &&& file.tensors.contains_key(values) <==> has_keys
            &&& has_keys ==> file.tensors[keys] == narrowed_view(
                layers[layer]->Kv_0.keys->Some_0,
                dim as int,
                0,
                len as usize,
            )
            &&& has_keys ==> file.tensors[values] == narrowed_view(
                layers[layer]->Kv_0.values->Some_0,
                dim as int,
                0,
                len as usize,
            )
            &&& file.tensors.contains_key(inputs) <==> has_inputs
            &&& has_inputs ==> LayerView::Conv(file.tensors[inputs]) == blocks[block][layer]
            &&& file.notes matches Some(notes)
            &&& notes["model_name"@] == model
            &&& notes["n_layers"@] == dec(layers.len())
            &&& notes["fragmentation"@] == fragmentation.text()
            &&& notes["block_size"@] == dec(size as nat)
        }),
{
    reveal_strlit("model_name");
    reveal_strlit("n_layers");
    reveal_strlit("fragmentation");
    reveal_strlit("block_size");
    assert("model_name"@[0] == 'm');
    assert("n_layers"@[0] == 'n');
    assert("fragmentation"@[0] == 'f');
    assert("block_size"@[0] == 'b');
    let all = saved_entries(ids, layers, blocks, dim, fragmentation);
    lemma_saved_entries(ids, layers, blocks, dim, fragmentation);
    lemma_lookup(all, 0);
    lemma_stored_kv(ids, layers, blocks, dim, fragmentation, layer);
    lemma_stored_conv(ids, layers, blocks, dim, fragmentation, block, layer);
}

/// A file is a cached prefix of the model that it names, cut as it notes; it is none of another
/// model nor for another cut.
pub proof fn law_prefix_belongs_to_model(
    file: FileView,
    model: Seq<char>,
    other: Seq<char>,
    block: usize,
    path: Seq<char>,
)
    requires
        note_of(file.notes, "model_name"@) == Some(model),
        number_of_note(file.notes, "block_size"@) == Some(block),
    ensures
        match (prefix_in(file, model, block, path), stored_ids(file)) {
            (Ok(Some(prefix)), Ok(ids)) => prefix.model == model && prefix.token_ids == ids
                && prefix.cache_file_path == path,
            (Err(error), Err(message)) => error == ErrorView::CacheLoad(message),
            _ => false,
        },
        other != model ==> prefix_in(file, other, block, path) == Ok::<
            Option<CacheMetadataView>,
            ErrorView,
        >(None),
        forall|size: usize|
            size != block ==> #[trigger] prefix_in(file, model, size, path) == Ok::<
                Option<CacheMetadataView>,
                ErrorView,
            >(None),
{
}

/// The layers of a file that does not note their number are counted by the names of its tensors.
pub proof fn law_layer_of_name(layer: usize, suffix: Seq<char>)
    requires
        suffix.len() > 0,
        suffix[0] == '_',
    ensures
        layer_number("layer_"@ + dec(layer as nat) + suffix) == Some(layer),
{
    let number = dec(layer as nat);
    let name = "layer_"@ + number + suffix;
    let n = "layer_"@.len() as int;
    assert(name.take(n) =~= "layer_"@);
    assert(name.skip(n) =~= number + suffix);
    law_dec_parses(layer as nat);
    lemma_up_to_underscore(number, suffix);
}

proof fn lemma_up_to_underscore(digits: Seq<char>, suffix: Seq<char>)
    requires
        forall|i: int| 0 <= i < digits.len() ==> #[trigger] digits[i] != '_',
        suffix.len() > 0,
        suffix[0] == '_',
    ensures
        up_to_underscore(digits + suffix) == digits,
    decreases digits.len(),
{
    let text = digits + suffix;
    if digits.len() > 0 {
        assert(text.skip(1) =~= digits.skip(1) + suffix);
        assert forall|i: int| 0 <= i < digits.skip(1).len() implies #[trigger] digits.skip(1)[i]
            != '_' by {
            assert(digits.skip(1)[i] == digits[i + 1]);
        }
        lemma_up_to_underscore(digits.skip(1), suffix);
        assert(seq![digits[0]] + digits.skip(1) =~= digits);
    } else {
        assert(text =~= suffix);
    }
}

/// The formats that can be loaded, each under its own name.
pub proof fn law_loadable_formats(dtype: Seq<char>)
    ensures
        loadable("F16"@) == Some(TensorDtype::F16),
        loadable("BF16"@) == Some(TensorDtype::BF16),
        loadable("F32"@) == Some(TensorDtype::F32),
        loadable("F64"@) == Some(TensorDtype::F64),
        loadable("U8"@) == Some(TensorDtype::U8),
        loadable("U32"@) == Some(TensorDtype::U32),
        loadable(dtype) matches Some(format) ==> format.text() == dtype,
{
    reveal_strlit("F16");
    reveal_strlit("BF16");
    reveal_strlit("F32");
    reveal_strlit("F64");
    reveal_strlit("U8");
    reveal_strlit("U32");
    assert("F16"@[1] == '1');
    assert("F32"@[1] == '3');
    assert("F64"@[1] == '6');
    assert("F16"@[0] == 'F');
    assert("F32"@[0] == 'F');
    assert("F64"@[0] == 'F');
    assert("BF16"@[0] == 'B');
    assert("U8"@[0] == 'U');
    assert("U32"@[0] == 'U');
    assert("U8"@.len() == 2);
}

} // verus!
