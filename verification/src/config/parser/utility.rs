//! What the metadata of all architectures have in common.
use vstd::prelude::*;
use vstd::string::*;

use crate::float::Float32;
use crate::gguf::lookup::{
    f32_of, float_of_key, size_of_key, string_of_key, text_of_key, usize_of,
};
use crate::gguf::types::{GgufKVMeta, GgufValue};
use crate::text::{dec, push_dec, same_text};

verus! {

/// The pattern of 0.00001.
pub const DEFAULT_RMS_EPSILON_BITS: u32 = 0x3727_C5AC;

/// The counts that a list of values gives.
pub open spec fn counts_in(items: Seq<GgufValue>) -> Seq<usize> {
    items.map_values(|item: GgufValue| item.usize_value()->Some_0)
}

/// All values of a list give counts.
pub open spec fn all_counts(items: Seq<GgufValue>) -> bool {
    forall|i: int| 0 <= i < items.len() ==> (#[trigger] items[i]).usize_value() is Some
}

/// The counts of key and value heads that a value gives, or why it gives none.
pub open spec fn kv_count(value: GgufValue) -> Result<Seq<usize>, Seq<char>> {
    match value {
        GgufValue::Array(items) => if all_counts(items@) {
            Ok(counts_in(items@))
        } else {
            Err("Invalid KV head entry"@)
        },
        _ => match value.usize_value() {
            Some(n) => Ok(seq![n]),
            None => Err("Expected usize for KV count"@),
        },
    }
}

/// The counts of key and value heads of an entry: a list as it stands, a single number as a list
/// of one.
pub fn build_n_kv_count(gguf_meta_entry: &GgufKVMeta) -> (result: Result<Vec<usize>, String>)
    ensures
        match (result, kv_count(gguf_meta_entry.value)) {
            (Ok(counts), Ok(expected)) => counts@ == expected,
            (Err(message), Err(expected)) => message@ == expected,
            _ => false,
        },
{
    match &gguf_meta_entry.value {
        GgufValue::Array(items) => {
            let mut counts: Vec<usize> = Vec::new();
            let mut i: usize = 0;
            while i < items.len()
                invariant
                    i <= items@.len(),
                    counts@.len() == i,
                    forall|j: int|
                        0 <= j < i ==> (#[trigger] items@[j]).usize_value() == Some(counts@[j]),
                    gguf_meta_entry.value == GgufValue::Array(*items),
                decreases items.len() - i,
            {
                match items[i].as_usize() {
                    Some(n) => {
                        counts.push(n);
                    },
                    None => {
                        assert(!all_counts(items@));
                        return Err(String::from_str("Invalid KV head entry"));
                    },
                }
                i = i + 1;
            }
            assert(counts@ =~= counts_in(items@));
            Ok(counts)
        },
        _ => match gguf_meta_entry.value.as_usize() {
            Some(n) => {
                let counts = vec![n];
                assert(counts@ =~= seq![n]);
                Ok(counts)
            },
            None => Err(String::from_str("Expected usize for KV count")),
        },
    }
}

/// The counts of key and value heads that the entries with a key give: those of the last such
/// entry, if every one of them gives some.
pub open spec fn kv_counts_of_key(entries: Seq<GgufKVMeta>, key: Seq<char>) -> Result<
    Option<Seq<usize>>,
    Seq<char>,
>
    decreases entries.len(),
{
    if entries.len() == 0 {
        Ok(None)
    } else {
        match kv_counts_of_key(entries.drop_last(), key) {
            Err(message) => Err(message),
            Ok(before) => if entries.last().key@ == key {
                match kv_count(entries.last().value) {
                    Ok(counts) => Ok(Some(counts)),
                    Err(message) => Err(message),
                }
            } else {
                Ok(before)
            },
        }
    }
}

/// An entry that gives no counts is the reason, whatever follows it.
proof fn lemma_first_failure(entries: Seq<GgufKVMeta>, key: Seq<char>, n: int)
    requires
        0 <= n <= entries.len(),
        kv_counts_of_key(entries.take(n), key) is Err,
    ensures
        kv_counts_of_key(entries, key) == kv_counts_of_key(entries.take(n), key),
    decreases entries.len() - n,
{
    if n == entries.len() {
        assert(entries.take(n) =~= entries);
    } else {
        assert(entries.take(n + 1).drop_last() =~= entries.take(n));
        lemma_first_failure(entries, key, n + 1);
    }
}

pub fn find_kv_counts(entries: &[GgufKVMeta], key: &str) -> (result: Result<
    Option<Vec<usize>>,
    String,
>)
    ensures
        match (result, kv_counts_of_key(entries@, key@)) {
            (Ok(Some(counts)), Ok(Some(expected))) => counts@ == expected,
            (Ok(None), Ok(None)) => true,
            (Err(message), Err(expected)) => message@ == expected,
            _ => false,
        },
{
    let mut found: Option<Vec<usize>> = None;
    let mut i: usize = 0;
    while i < entries.len()
        invariant
            i <= entries@.len(),
            match (found, kv_counts_of_key(entries@.take(i as int), key@)) {
                (Some(counts), Ok(Some(expected))) => counts@ == expected,
                (None, Ok(None)) => true,
                _ => false,
            },
        decreases entries.len() - i,
    {
        assert(entries@.take(i + 1).drop_last() =~= entries@.take(i as int));
        assert(entries@.take(i + 1).last() == entries@[i as int]);
        if same_text(entries[i].key.as_str(), key) {
            match build_n_kv_count(&entries[i]) {
                Ok(counts) => {
                    found = Some(counts);
                },
                Err(message) => {
                    proof {
                        lemma_first_failure(entries@, key@, i + 1);
                    }
                    return Err(message);
                },
            }
        }
        i = i + 1;
    }
    assert(entries@.take(i as int) =~= entries@);
    Ok(found)
}

/// The same count for each layer.
pub open spec fn every_layer(count: usize, n_layers: usize) -> Seq<usize> {
    Seq::new(n_layers as nat, |i: int| count)
}

/// The counts of key and value heads, layer by layer. A single count holds for all layers, where
/// a single one stands for the number of heads, and so does no count at all.
pub open spec fn heads_by_layer(
    counts: Option<Seq<usize>>,
    n_heads: usize,
    n_layers: usize,
) -> Result<Seq<usize>, Seq<char>> {
    match counts {
        Some(list) => if list.len() == 1 {
            if list[0] == 1 {
                Ok(every_layer(n_heads, n_layers))
            } else {
                Ok(every_layer(list[0], n_layers))
            }
        } else if list.len() == n_layers {
            Ok(list)
        } else {
            Err(
                "KV heads length "@ + dec(list.len()) + " does not match layers "@ + dec(
                    n_layers as nat,
                ),
            )
        },
        None => Ok(every_layer(n_heads, n_layers)),
    }
}

fn repeat(count: usize, n_layers: usize) -> (result: Vec<usize>)
    ensures
        result@ == every_layer(count, n_layers),
{
    let mut list: Vec<usize> = Vec::new();
    let mut i: usize = 0;
    while i < n_layers
        invariant
            i <= n_layers,
            list@ == every_layer(count, i),
        decreases n_layers - i,
    {
        list.push(count);
        i = i + 1;
        assert(list@ =~= every_layer(count, i));
    }
    list
}

pub fn spread_heads(counts: Option<Vec<usize>>, n_heads: usize, n_layers: usize) -> (result: Result<
    Vec<usize>,
    String,
>)
    ensures
        match (
            result,
            heads_by_layer(
                match counts {
                    Some(list) => Some(list@),
                    None => None,
                },
                n_heads,
                n_layers,
            ),
        ) {
            (Ok(heads), Ok(expected)) => heads@ == expected,
            (Err(message), Err(expected)) => message@ == expected,
            _ => false,
        },
{
    match counts {
        Some(list) => {
            let n: usize = list.len();
            if n == 1 {
                if list[0] == 1 {
                    Ok(repeat(n_heads, n_layers))
                } else {
                    Ok(repeat(list[0], n_layers))
                }
            } else if n == n_layers {
                Ok(list)
            } else {
                let mut message = String::from_str("KV heads length ");
                push_dec(&mut message, n as u64);
                message.append(" does not match layers ");
                push_dec(&mut message, n_layers as u64);
                Err(message)
            }
        },
        None => Ok(repeat(n_heads, n_layers)),
    }
}

/// Under which keys an architecture keeps what all architectures have, and whether its models have
/// to be named.
pub struct BaseKeys {
    pub is_named: bool,
    pub head_count: &'static str,
    pub head_count_kv: &'static str,
    pub block_count: &'static str,
    pub embedding_length: &'static str,
    pub vocab_size: &'static str,
    pub feed_forward_length: &'static str,
    pub freq_base: &'static str,
    pub context_length: &'static str,
}

/// What all architectures have.
pub struct BaseParameters {
    pub model_name: String,
    pub hidden_size: usize,
    pub n_heads: usize,
    pub n_kv_heads: Vec<usize>,
    pub n_layers: usize,
    pub vocab_size: usize,
    pub intermediate_ffn_size: usize,
    pub rope_theta: Float32,
    pub max_seq_len: usize,
}

/// The mathematical model of what all architectures have.
pub struct BaseView {
    pub model_name: Seq<char>,
    pub hidden_size: usize,
    pub n_heads: usize,
    pub n_kv_heads: Seq<usize>,
    pub n_layers: usize,
    pub vocab_size: usize,
    pub intermediate_ffn_size: usize,
    pub rope_theta: Float32,
    pub max_seq_len: usize,
}

impl View for BaseParameters {
    type V = BaseView;

    open spec fn view(&self) -> BaseView {
        BaseView {
            model_name: self.model_name@,
            hidden_size: self.hidden_size,
            n_heads: self.n_heads,
            n_kv_heads: self.n_kv_heads@,
            n_layers: self.n_layers,
            vocab_size: self.vocab_size,
            intermediate_ffn_size: self.intermediate_ffn_size,
            rope_theta: self.rope_theta,
            max_seq_len: self.max_seq_len,
        }
    }
}

/// What all architectures have, or the first reason why it cannot be had: counts of key and value
/// heads that are none, then the parameters that are missing, one after the other. A model that
/// does not have to be named may have an empty name.
pub open spec fn base_parameters(entries: Seq<GgufKVMeta>, keys: BaseKeys) -> Result<
    BaseView,
    Seq<char>,
> {
    match kv_counts_of_key(entries, keys.head_count_kv@) {
        Err(message) => Err(message),
        Ok(counts) => {
            let heads = size_of_key(entries, keys.head_count@);
            let layers = size_of_key(entries, keys.block_count@);
            let name = text_of_key(entries, "general.name"@);
            let hidden = size_of_key(entries, keys.embedding_length@);
            let vocab = size_of_key(entries, keys.vocab_size@);
            let ffn = size_of_key(entries, keys.feed_forward_length@);
            let theta = float_of_key(entries, keys.freq_base@);
            let context = size_of_key(entries, keys.context_length@);
            if heads is None {
                Err("Missing attention.head_count"@)
            } else if layers is None {
                Err("Missing block_count"@)
            } else {
                match heads_by_layer(counts, heads->Some_0, layers->Some_0) {
                    Err(message) => Err(message),
                    Ok(n_kv_heads) => if keys.is_named && name is None {
                        Err("Missing general.name"@)
                    } else if hidden is None {
                        Err("Missing embedding_length"@)
                    } else if vocab is None {
                        Err("Missing vocab_size"@)
                    } else if ffn is None {
                        Err("Missing feed_forward_length"@)
                    } else if theta is None {
                        Err("Missing rope.freq_base"@)
                    } else if context is None {
                        Err("Missing context_length"@)
                    } else {
                        Ok(
                            BaseView {
                                model_name: match name {
                                    Some(text) => text,
                                    None => seq![],
                                },
                                hidden_size: hidden->Some_0,
                                n_heads: heads->Some_0,
                                n_kv_heads,
                                n_layers: layers->Some_0,
                                vocab_size: vocab->Some_0,
                                intermediate_ffn_size: ffn->Some_0,
                                rope_theta: theta->Some_0,
                                max_seq_len: context->Some_0,
                            },
                        )
                    },
                }
            }
        },
    }
}

pub fn read_base_parameters(entries: &[GgufKVMeta], keys: &BaseKeys) -> (result: Result<
    BaseParameters,
    String,
>)
    ensures
        match (result, base_parameters(entries@, *keys)) {
            (Ok(base), Ok(expected)) => base@ == expected,
            (Err(message), Err(expected)) => message@ == expected,
            _ => false,
        },
{
    let counts = match find_kv_counts(entries, keys.head_count_kv) {
        Ok(counts) => counts,
        Err(message) => {
            return Err(message);
        },
    };
    let n_heads: usize = match usize_of(entries, keys.head_count) {
        Some(n) => n,
        None => {
            return Err(String::from_str("Missing attention.head_count"));
        },
    };
    let n_layers: usize = match usize_of(entries, keys.block_count) {
        Some(n) => n,
        None => {
            return Err(String::from_str("Missing block_count"));
        },
    };
    let n_kv_heads = match spread_heads(counts, n_heads, n_layers) {
        Ok(heads) => heads,
        Err(message) => {
            return Err(message);
        },
    };
    let model_name = match string_of_key(entries, "general.name") {
        Some(name) => name,
        None => {
            if keys.is_named {
                return Err(String::from_str("Missing general.name"));
            }
            String::new()
        },
    };
    let hidden_size: usize = match usize_of(entries, keys.embedding_length) {
        Some(n) => n,
        None => {
            return Err(String::from_str("Missing embedding_length"));
        },
    };
    let vocab_size: usize = match usize_of(entries, keys.vocab_size) {
        Some(n) => n,
        None => {
            return Err(String::from_str("Missing vocab_size"));
        },
    };
    let intermediate_ffn_size: usize = match usize_of(entries, keys.feed_forward_length) {
        Some(n) => n,
        None => {
            return Err(String::from_str("Missing feed_forward_length"));
        },
    };
    let rope_theta = match f32_of(entries, keys.freq_base) {
        Some(theta) => theta,
        None => {
            return Err(String::from_str("Missing rope.freq_base"));
        },
    };
    let max_seq_len: usize = match usize_of(entries, keys.context_length) {
        Some(n) => n,
        None => {
            return Err(String::from_str("Missing context_length"));
        },
    };
    Ok(
        BaseParameters {
            model_name,
            hidden_size,
            n_heads,
            n_kv_heads,
            n_layers,
            vocab_size,
            intermediate_ffn_size,
            rope_theta,
            max_seq_len,
        },
    )
}

/// Parameters that were read have a count of key and value heads for each layer.
pub proof fn law_heads_by_layer(entries: Seq<GgufKVMeta>, keys: BaseKeys)
    ensures
        base_parameters(entries, keys) matches Ok(base) ==> base.n_kv_heads.len() == base.n_layers,
{
}

} // verus!
