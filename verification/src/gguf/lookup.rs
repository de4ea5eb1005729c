//! Finding metadata entries by their keys.
use vstd::prelude::*;
use vstd::string::*;

use crate::float::Float32;
use crate::gguf::types::{GgufKVMeta, GgufValue};
use crate::text::same_text;

verus! {

/// The first entry with a key.
pub open spec fn first_with_key(entries: Seq<GgufKVMeta>, key: Seq<char>) -> Option<GgufKVMeta>
    decreases entries.len(),
{
    if entries.len() == 0 {
        None
    } else if entries[0].key@ == key {
        Some(entries[0])
    } else {
        first_with_key(entries.skip(1), key)
    }
}

/// The last entry with a key.
pub open spec fn last_with_key(entries: Seq<GgufKVMeta>, key: Seq<char>) -> Option<GgufKVMeta>
    decreases entries.len(),
{
    if entries.len() == 0 {
        None
    } else if entries.last().key@ == key {
        Some(entries.last())
    } else {
        last_with_key(entries.drop_last(), key)
    }
}

/// Finds the first entry with a key.
pub fn find_first<'a>(entries: &'a [GgufKVMeta], key: &str) -> (result: Option<&'a GgufKVMeta>)
    ensures
        match result {
            Some(entry) => first_with_key(entries@, key@) == Some(*entry),
            None => first_with_key(entries@, key@) is None,
        },
{
    let mut i: usize = 0;
    assert(entries@.skip(0) =~= entries@);
    while i < entries.len()
        invariant
            i <= entries@.len(),
            first_with_key(entries@, key@) == first_with_key(entries@.skip(i as int), key@),
        decreases entries.len() - i,
    {
        assert(entries@.skip(i as int)[0] == entries@[i as int]);
        if same_text(entries[i].key.as_str(), key) {
            return Some(&entries[i]);
        }
        assert(entries@.skip(i as int).skip(1) =~= entries@.skip(i + 1));
        i = i + 1;
    }
    None
}

/// Finds the last entry with a key.
pub fn find_last<'a>(entries: &'a [GgufKVMeta], key: &str) -> (result: Option<&'a GgufKVMeta>)
    ensures
        match result {
            Some(entry) => last_with_key(entries@, key@) == Some(*entry),
            None => last_with_key(entries@, key@) is None,
        },
{
    let mut n: usize = entries.len();
    assert(entries@.take(n as int) =~= entries@);
    while n > 0
        invariant
            n <= entries@.len(),
            last_with_key(entries@, key@) == last_with_key(entries@.take(n as int), key@),
        decreases n,
    {
        assert(entries@.take(n as int).last() == entries@[n - 1]);
        assert(entries@.take(n as int).drop_last() =~= entries@.take(n - 1));
        if same_text(entries[n - 1].key.as_str(), key) {
            return Some(&entries[n - 1]);
        }
        n = n - 1;
    }
    None
}

/// The size that the last entry with a key gives, if it gives one.
pub open spec fn size_of_key(entries: Seq<GgufKVMeta>, key: Seq<char>) -> Option<usize> {
    match last_with_key(entries, key) {
        Some(entry) => entry.value.usize_value(),
        None => None,
    }
}

pub fn usize_of(entries: &[GgufKVMeta], key: &str) -> (result: Option<usize>)
    ensures
        result == size_of_key(entries@, key@),
{
    match find_last(entries, key) {
        Some(entry) => entry.value.as_usize(),
        None => None,
    }
}

/// The number that the last entry with a key gives, if it gives one.
pub open spec fn float_of_key(entries: Seq<GgufKVMeta>, key: Seq<char>) -> Option<Float32> {
    match last_with_key(entries, key) {
        Some(entry) => entry.value.f32_value(),
        None => None,
    }
}

pub fn f32_of(entries: &[GgufKVMeta], key: &str) -> (result: Option<Float32>)
    ensures
        result == float_of_key(entries@, key@),
{
    match find_last(entries, key) {
        Some(entry) => entry.value.as_f32(),
        None => None,
    }
}

/// The token id that the last entry with a key gives, if it gives one.
pub open spec fn id_of_key(entries: Seq<GgufKVMeta>, key: Seq<char>) -> Option<u32> {
    match last_with_key(entries, key) {
        Some(entry) => entry.value.u32_value(),
        None => None,
    }
}

pub fn u32_of(entries: &[GgufKVMeta], key: &str) -> (result: Option<u32>)
    ensures
        result == id_of_key(entries@, key@),
{
    match find_last(entries, key) {
        Some(entry) => entry.value.as_u32(),
        None => None,
    }
}

/// The truth value that the last entry with a key gives, if it gives one.
pub open spec fn flag_of_key(entries: Seq<GgufKVMeta>, key: Seq<char>) -> Option<bool> {
    match last_with_key(entries, key) {
        Some(entry) => entry.value.bool_value(),
        None => None,
    }
}

pub fn bool_of(entries: &[GgufKVMeta], key: &str) -> (result: Option<bool>)
    ensures
        result == flag_of_key(entries@, key@),
{
    match find_last(entries, key) {
        Some(entry) => entry.value.as_bool(),
        None => None,
    }
}

/// The text that the last entry with a key gives, if it gives one.
pub open spec fn text_of_key(entries: Seq<GgufKVMeta>, key: Seq<char>) -> Option<Seq<char>> {
    match last_with_key(entries, key) {
        Some(entry) => entry.value.str_value(),
        None => None,
    }
}

pub fn string_of_key(entries: &[GgufKVMeta], key: &str) -> (result: Option<String>)
    ensures
        crate::text::text_of(result) == text_of_key(entries@, key@),
{
    match find_last(entries, key) {
        Some(entry) => match entry.value.as_str() {
            Some(text) => Some(String::from_str(text)),
            None => None,
        },
        None => None,
    }
}

/// The key is one of several.
pub open spec fn is_one_of(key: Seq<char>, keys: Seq<&str>) -> bool {
    exists|i: int| 0 <= i < keys.len() && #[trigger] keys[i]@ == key
}

fn one_of(key: &str, keys: &[&str]) -> (result: bool)
    ensures
        result == is_one_of(key@, keys@),
{
    let mut i: usize = 0;
    while i < keys.len()
        invariant
            i <= keys@.len(),
            forall|q: int| 0 <= q < i ==> #[trigger] keys@[q]@ != key@,
        decreases keys.len() - i,
    {
        if same_text(keys[i], key) {
            return true;
        }
        i = i + 1;
    }
    false
}

/// The number of the last entry with one of the keys that gives a number.
pub open spec fn last_float(entries: Seq<GgufKVMeta>, keys: Seq<&str>) -> Option<Float32>
    decreases entries.len(),
{
    if entries.len() == 0 {
        None
    } else if is_one_of(entries.last().key@, keys) && entries.last().value.f32_value() is Some {
        entries.last().value.f32_value()
    } else {
        last_float(entries.drop_last(), keys)
    }
}

/// Finds the number of the last entry with one of the keys that gives a number.
pub fn find_last_f32(entries: &[GgufKVMeta], keys: &[&str]) -> (result: Option<Float32>)
    ensures
        result == last_float(entries@, keys@),
{
    let mut n: usize = entries.len();
    assert(entries@.take(n as int) =~= entries@);
    while n > 0
        invariant
            n <= entries@.len(),
            last_float(entries@, keys@) == last_float(entries@.take(n as int), keys@),
        decreases n,
    {
        assert(entries@.take(n as int).last() == entries@[n - 1]);
        assert(entries@.take(n as int).drop_last() =~= entries@.take(n - 1));
        if one_of(entries[n - 1].key.as_str(), keys) {
            if let Some(value) = entries[n - 1].value.as_f32() {
                return Some(value);
            }
        }
        n = n - 1;
    }
    None
}

/// The size of the last entry with the key that gives a size.
pub open spec fn last_size(entries: Seq<GgufKVMeta>, key: Seq<char>) -> Option<usize>
    decreases entries.len(),
{
    if entries.len() == 0 {
        None
    } else if entries.last().key@ == key && entries.last().value.usize_value() is Some {
        entries.last().value.usize_value()
    } else {
        last_size(entries.drop_last(), key)
    }
}

/// Finds the size of the last entry with the key that gives a size.
pub fn find_last_usize(entries: &[GgufKVMeta], key: &str) -> (result: Option<usize>)
    ensures
        result == last_size(entries@, key@),
{
    let mut n: usize = entries.len();
    assert(entries@.take(n as int) =~= entries@);
    while n > 0
        invariant
            n <= entries@.len(),
            last_size(entries@, key@) == last_size(entries@.take(n as int), key@),
        decreases n,
    {
        assert(entries@.take(n as int).last() == entries@[n - 1]);
        assert(entries@.take(n as int).drop_last() =~= entries@.take(n - 1));
        if same_text(entries[n - 1].key.as_str(), key) {
            if let Some(value) = entries[n - 1].value.as_usize() {
                return Some(value);
            }
        }
        n = n - 1;
    }
    None
}

/// The texts among the first `n` items of an array, in their order.
pub open spec fn texts_among(items: Seq<GgufValue>) -> Seq<Seq<char>>
    decreases items.len(),
{
    if items.len() == 0 {
        seq![]
    } else {
        let before = texts_among(items.drop_last());
        match items.last().str_value() {
            Some(text) => before.push(text),
            None => before,
        }
    }
}

/// The small integers among the items of an array, in their order.
pub open spec fn integers_among(items: Seq<GgufValue>) -> Seq<i32>
    decreases items.len(),
{
    if items.len() == 0 {
        seq![]
    } else {
        let before = integers_among(items.drop_last());
        match items.last().i32_value() {
            Some(n) => before.push(n),
            None => before,
        }
    }
}

/// The texts of the array that the last entry with a key gives, if it gives one. Items that are
/// no texts are left out.
pub open spec fn texts_of_key(entries: Seq<GgufKVMeta>, key: Seq<char>) -> Option<Seq<Seq<char>>> {
    match last_with_key(entries, key) {
        Some(entry) => match entry.value {
            GgufValue::Array(items) => Some(texts_among(items@)),
            _ => None,
        },
        None => None,
    }
}

pub fn strings_of_key(entries: &[GgufKVMeta], key: &str) -> (result: Option<Vec<String>>)
    ensures
        match result {
            Some(list) => texts_of_key(entries@, key@) == Some(crate::text::texts_of(list@)),
            None => texts_of_key(entries@, key@) is None,
        },
{
    let items = match find_last(entries, key) {
        Some(entry) => match entry.value.as_slice() {
            Some(items) => items,
            None => {
                return None;
            },
        },
        None => {
            return None;
        },
    };
    let mut out: Vec<String> = Vec::new();
    assert(crate::text::texts_of(out@) =~= seq![]);
    let mut i: usize = 0;
    while i < items.len()
        invariant
            i <= items@.len(),
            crate::text::texts_of(out@) == texts_among(items@.take(i as int)),
        decreases items.len() - i,
    {
        assert(items@.take(i + 1).drop_last() =~= items@.take(i as int));
        if let Some(text) = items[i].as_str() {
            let ghost before = out@;
            out.push(String::from_str(text));
            assert(crate::text::texts_of(out@) =~= crate::text::texts_of(before).push(text@));
        }
        i = i + 1;
    }
    assert(items@.take(items@.len() as int) =~= items@);
    Some(out)
}

/// The small integers of the array that the last entry with a key gives, if it gives one. Other
/// items are left out.
pub open spec fn integers_of_key(entries: Seq<GgufKVMeta>, key: Seq<char>) -> Option<Seq<i32>> {
    match last_with_key(entries, key) {
        Some(entry) => match entry.value {
            GgufValue::Array(items) => Some(integers_among(items@)),
            _ => None,
        },
        None => None,
    }
}

pub fn i32s_of_key(entries: &[GgufKVMeta], key: &str) -> (result: Option<Vec<i32>>)
    ensures
        match result {
            Some(list) => integers_of_key(entries@, key@) == Some(list@),
            None => integers_of_key(entries@, key@) is None,
        },
{
    let items = match find_last(entries, key) {
        Some(entry) => match entry.value.as_slice() {
            Some(items) => items,
            None => {
                return None;
            },
        },
        None => {
            return None;
        },
    };
    let mut out: Vec<i32> = Vec::new();
    let mut i: usize = 0;
    while i < items.len()
        invariant
            i <= items@.len(),
            out@ == integers_among(items@.take(i as int)),
        decreases items.len() - i,
    {
        assert(items@.take(i + 1).drop_last() =~= items@.take(i as int));
        if let Some(n) = items[i].as_i32() {
            out.push(n);
        }
        i = i + 1;
    }
    assert(items@.take(items@.len() as int) =~= items@);
    Some(out)
}

} // verus!
