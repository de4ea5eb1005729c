//! Prefixes that were computed before: what is kept of them in files, which files go when the
//! room is used up, and what is read back.
use vstd::prelude::*;
use vstd::string::*;

use crate::config::model_cache_config::{
    default_cache_config, CacheConfigView, ModelCacheConfig,
};
use crate::ids::{is_id_text, new_id_text};
use crate::model::MixedCache;
use crate::text::{
    dec, lemma_last_place, push_dec, rsplit_text, same_text, split_at_last, stands_at,
};
use crate::types::ModelCacheFragmentation;

verus! {

/// A cached prefix: the tokens and where their memory is kept.
#[derive(Debug, Clone, PartialEq)]
pub struct CacheMetadata {
    pub model: String,
    pub token_ids: Vec<u32>,
    pub cache_file_path: String,
}

/// The mathematical model of a cached prefix.
pub struct CacheMetadataView {
    pub model: Seq<char>,
    pub token_ids: Seq<u32>,
    pub cache_file_path: Seq<char>,
}

impl View for CacheMetadata {
    type V = CacheMetadataView;

    open spec fn view(&self) -> CacheMetadataView {
        CacheMetadataView {
            model: self.model@,
            token_ids: self.token_ids@,
            cache_file_path: self.cache_file_path@,
        }
    }
}

/// What was read back of a cached prefix.
pub struct LoadedMixedCache {
    pub mixed_cache: Vec<Option<MixedCache>>,
    pub block_boundary_conv_cache: Vec<Vec<Option<MixedCache>>>,
    pub cached_token_length: usize,
}

pub struct ModelCacheManagerBuilder {
    pub config: Option<ModelCacheConfig>,
    pub model: String,
}

/// Knows where the cached prefixes of a model are kept.
#[derive(Debug, Clone, PartialEq)]
pub struct ModelCacheManager {
    pub model: String,
    pub cache_dir: String,
    pub max_cache_size: u64,
    pub min_cache_tokens: usize,
}

impl Default for ModelCacheManager {
    fn default() -> (result: Self)
        ensures
            result.model@ == Seq::<char>::empty(),
            result.cache_dir@ == Seq::<char>::empty(),
            result.max_cache_size == 0,
            result.min_cache_tokens == 0,
    {
        ModelCacheManager {
            model: String::new(),
            cache_dir: String::new(),
            max_cache_size: 0,
            min_cache_tokens: 0,
        }
    }
}

impl ModelCacheManagerBuilder {
    pub fn new(model: &str) -> (result: Self)
        ensures
            result.config is None,
            result.model@ == model@,
    {
        ModelCacheManagerBuilder { config: None, model: String::from_str(model) }
    }

    pub fn with_config(self, config: ModelCacheConfig) -> (result: Self)
        ensures
            result == (ModelCacheManagerBuilder { config: Some(config), ..self }),
    {
        ModelCacheManagerBuilder { config: Some(config), ..self }
    }

    /// The manager with the settings of the configuration, or with the defaults.
    pub fn build(self) -> (result: ModelCacheManager)
        ensures
            result.model == self.model,
            ({
                let config: CacheConfigView = match self.config {
                    Some(config) => config@,
                    None => default_cache_config(),
                };
                &&& result.cache_dir@ == config.cache_dir
                &&& result.max_cache_size == config.max_cache_size
                &&& result.min_cache_tokens == config.min_cache_tokens
            }),
    {
        let config = match self.config {
            Some(config) => config,
            None => ModelCacheConfig::default(),
        };
        ModelCacheManager {
            model: self.model,
            cache_dir: config.cache_dir,
            max_cache_size: config.max_cache_size,
            min_cache_tokens: config.min_cache_tokens,
        }
    }
}

/// The number of tokens of a block.
pub open spec fn block_size_of(fragmentation: ModelCacheFragmentation) -> usize {
    match fragmentation {
        ModelCacheFragmentation::BlockWise { block_size } => block_size,
        ModelCacheFragmentation::TokenWise => 1,
    }
}

pub fn block_size(fragmentation: &ModelCacheFragmentation) -> (result: usize)
    ensures
        result == block_size_of(*fragmentation),
{
    match fragmentation {
        ModelCacheFragmentation::BlockWise { block_size } => *block_size,
        ModelCacheFragmentation::TokenWise => 1,
    }
}

/// The number of tokens in whole blocks.
pub open spec fn whole_blocks(tokens: int, block: int) -> int {
    tokens / block * block
}

/// Whole blocks are what is left when tokens are taken off the end until the number is a multiple
/// of the size of a block; less than a block is lost.
pub proof fn law_whole_blocks(tokens: int, block: int)
    requires
        0 <= tokens,
        0 < block,
    ensures
        0 <= whole_blocks(tokens, block) <= tokens,
        tokens < whole_blocks(tokens, block) + block,
        whole_blocks(tokens, block) % block == 0,
        whole_blocks(tokens, 1) == tokens,
        whole_blocks(whole_blocks(tokens, block), block) == whole_blocks(tokens, block),
{
    vstd::arithmetic::div_mod::lemma_fundamental_div_mod(tokens, block);
    vstd::arithmetic::mul::lemma_mul_is_commutative(tokens / block, block);
    vstd::arithmetic::div_mod::lemma_mod_bound(tokens, block);
    vstd::arithmetic::div_mod::lemma_mod_multiples_basic(tokens / block, block);
    vstd::arithmetic::div_mod::lemma_div_pos_is_pos(tokens, block);
    vstd::arithmetic::mul::lemma_mul_nonnegative(tokens / block, block);
    vstd::arithmetic::div_mod::lemma_div_multiples_vanish(tokens / block, block);
}

/// The number of tokens in whole blocks.
pub fn in_whole_blocks(tokens: usize, block: usize) -> (result: usize)
    requires
        block > 0,
    ensures
        result == whole_blocks(tokens as int, block as int),
        result <= tokens,
{
    proof {
        law_whole_blocks(tokens as int, block as int);
    }
    tokens / block * block
}

/// The name of the file of a cached prefix.
pub open spec fn cache_file_name(model: Seq<char>, block: usize, id: Seq<char>) -> Seq<char> {
    "cache-"@ + model + "-blk-size-"@ + dec(block as nat) + "-"@ + id + ".safetensors"@
}

/// A file of this name may hold a cached prefix.
pub open spec fn names_cache_file(file_name: Seq<char>) -> bool {
    match split_at_last(file_name, "."@) {
        Some((stem, extension)) => stem.len() > 0 && extension == "safetensors"@,
        None => false,
    }
}

/// Whether a file of this name may hold a cached prefix, which its extension says.
pub fn is_cache_file(file_name: &str) -> (result: bool)
    ensures
        result == names_cache_file(file_name@),
{
    match rsplit_text(file_name, ".") {
        Some((stem, extension)) => !stem.as_str().is_empty() && same_text(
            extension.as_str(),
            "safetensors",
        ),
        None => false,
    }
}

impl ModelCacheManager {
    pub fn builder(model_name: &str) -> (result: ModelCacheManagerBuilder)
        ensures
            result.config is None,
            result.model@ == model_name@,
    {
        ModelCacheManagerBuilder::new(model_name)
    }

    /// The name of the file of a cached prefix with this identifier.
    pub fn file_name_for(&self, fragmentation: &ModelCacheFragmentation, id: &str) -> (result:
        String)
        ensures
            result@ == cache_file_name(self.model@, block_size_of(*fragmentation), id@),
    {
        let mut name = String::from_str("cache-");
        name.append(self.model.as_str());
        name.append("-blk-size-");
        push_dec(&mut name, block_size(fragmentation) as u64);
        name.append("-");
        name.append(id);
        name.append(".safetensors");
        name
    }

    /// A new name for the file of a cached prefix.
    pub fn new_file_name(&self, fragmentation: &ModelCacheFragmentation) -> (result: String)
        ensures
            exists|id: Seq<char>| #[trigger]
                is_id_text(id) && result@ == cache_file_name(
                    self.model@,
                    block_size_of(*fragmentation),
                    id,
                ),
    {
        let id = new_id_text();
        self.file_name_for(fragmentation, id.as_str())
    }
}

/// A file that may hold a cached prefix. The time of its last change is a number that grows with
/// the time.
#[derive(Debug, Clone, PartialEq)]
pub struct CacheFileMetadata {
    pub cache_file_path: String,
    pub modified: u128,
    pub file_size: u64,
}

/// The size of all files together.
pub open spec fn sizes(files: Seq<CacheFileMetadata>) -> nat
    decreases files.len(),
{
    if files.len() == 0 {
        0
    } else {
        sizes(files.drop_last()) + files.last().file_size as nat
    }
}

proof fn lemma_sizes_grow(files: Seq<CacheFileMetadata>, n: int)
    requires
        0 <= n <= files.len(),
    ensures
        sizes(files.take(n)) <= sizes(files),
    decreases files.len() - n,
{
    if n < files.len() {
        lemma_sizes_grow(files, n + 1);
        assert(files.take(n + 1).drop_last() =~= files.take(n));
    } else {
        assert(files.take(n) =~= files);
    }
}

/// The size of all files together, if it can be counted.
pub fn total_size(files: &Vec<CacheFileMetadata>) -> (result: Option<u64>)
    ensures
        match result {
            Some(total) => total == sizes(files@),
            None => sizes(files@) > u64::MAX,
        },
{
    let mut total: u64 = 0;
    let mut i: usize = 0;
    while i < files.len()
        invariant
            i <= files@.len(),
            total == sizes(files@.take(i as int)),
        decreases files.len() - i,
    {
        assert(files@.take(i + 1).drop_last() =~= files@.take(i as int));
        match total.checked_add(files[i].file_size) {
            Some(sum) => {
                total = sum;
            },
            None => {
                proof {
                    lemma_sizes_grow(files@, i + 1);
                }
                return None;
            },
        }
        i = i + 1;
    }
    assert(files@.take(i as int) =~= files@);
    Some(total)
}

/// The files stand in the order of their last change.
pub open spec fn oldest_first(files: Seq<CacheFileMetadata>) -> bool {
    forall|i: int, j: int|
        0 <= i <= j < files.len() ==> (#[trigger] files[i]).modified <= (
        #[trigger] files[j]).modified
}

/// Puts the files in the order of their last change. Files of the same time may end in either
/// order.
pub fn sort_by_age(files: &mut Vec<CacheFileMetadata>)
    ensures
        final(files)@.to_multiset() == old(files)@.to_multiset(),
        oldest_first(final(files)@),
{
    let mut i: usize = 0;
    while i < files.len()
        invariant
            i <= files@.len(),
            files@.to_multiset() == old(files)@.to_multiset(),
            oldest_first(files@.take(i as int)),
        decreases files.len() - i,
    {
        let ghost before = files@;
        let file = files.remove(i);
        let ghost without = files@;
        let mut j: usize = i;
        while j > 0 && files[j - 1].modified > file.modified
            invariant
                j <= i <= files@.len(),
                files@ == without,
                forall|q: int|
                    j <= q < i ==> file.modified <= (#[trigger] files@[q]).modified,
            decreases j,
        {
            j = j - 1;
        }
        files.insert(j, file);
        proof {
            vstd::seq_lib::to_multiset_remove(before, i as int);
            vstd::seq_lib::to_multiset_insert(without, j as int, file);
            assert(before.contains(before[i as int]));
            vstd::seq_lib::to_multiset_contains(before, before[i as int]);
            assert(files@.to_multiset() =~= before.to_multiset());
            assert forall|p: int, q: int| 0 <= p <= q < i + 1 implies (
            #[trigger] files@.take(i + 1)[p]).modified <= (#[trigger] files@.take(
                i + 1,
            )[q]).modified by {
                let placed = before.take(i as int);
                let from_p = if p > j {
                    p - 1
                } else {
                    p
                };
                let from_q = if q > j {
                    q - 1
                } else {
                    q
                };
                if p != j {
                    assert(files@[p] == placed[from_p]);
                }
                if q != j {
                    assert(files@[q] == placed[from_q]);
                }
                if p < j && q >= j {
                    assert(placed[p].modified <= placed[j - 1].modified);
                    assert(without[j - 1] == placed[j - 1]);
                }
                if p == j && q > j {
                    assert(without[q - 1] == placed[q - 1]);
                }
            }
        }
        i = i + 1;
    }
    assert(files@.take(i as int) =~= files@);
}

/// What is left of a size when the first files are gone.
pub open spec fn size_without(files: Seq<CacheFileMetadata>, total: int) -> int
    decreases files.len(),
{
    if files.len() == 0 {
        total
    } else {
        let before = size_without(files.drop_last(), total);
        if before < files.last().file_size {
            0
        } else {
            before - files.last().file_size
        }
    }
}

/// How many of the first files have to go until the size is within the limit: none if it is, else
/// the fewest that are enough, or all.
pub open spec fn to_evict(
    files: Seq<CacheFileMetadata>,
    total: u64,
    max: u64,
    count: int,
) -> bool {
    &&& 0 <= count <= files.len()
    &&& total <= max ==> count == 0
    &&& total > max ==> {
        &&& forall|k: int|
            0 <= k < count ==> size_without(#[trigger] files.take(k), total as int) > max
        &&& count == files.len() || count > 0 && size_without(files.take(count), total as int)
            <= max
    }
}

/// How many of the first files have to go until the size is within the limit.
pub fn count_to_evict(files: &Vec<CacheFileMetadata>, total: u64, max: u64) -> (result: usize)
    ensures
        to_evict(files@, total, max, result as int),
{
    if total <= max {
        return 0;
    }
    let mut left: u64 = total;
    let mut count: usize = 0;
    assert(files@.take(0) =~= Seq::<CacheFileMetadata>::empty());
    while count < files.len() && left > max
        invariant
            count <= files@.len(),
            left == size_without(files@.take(count as int), total as int),
            forall|k: int|
                0 <= k < count ==> size_without(#[trigger] files@.take(k), total as int) > max,
            total > max,
            count == 0 ==> left == total,
        decreases files.len() - count,
    {
        assert(files@.take(count + 1).drop_last() =~= files@.take(count as int));
        left = if left < files[count].file_size {
            0
        } else {
            left - files[count].file_size
        };
        count = count + 1;
    }
    count
}

/// A path is the path of one of the files.
pub open spec fn is_path_of(path: Seq<char>, files: Seq<CacheFileMetadata>) -> bool {
    exists|i: int| 0 <= i < files.len() && (#[trigger] files[i]).cache_file_path@ == path
}

fn is_evicted(path: &str, files: &Vec<CacheFileMetadata>, count: usize) -> (result: bool)
    requires
        count <= files@.len(),
    ensures
        result == is_path_of(path@, files@.take(count as int)),
{
    let mut i: usize = 0;
    while i < count
        invariant
            i <= count <= files@.len(),
            forall|j: int| 0 <= j < i ==> (#[trigger] files@[j]).cache_file_path@ != path@,
        decreases count - i,
    {
        if same_text(files[i].cache_file_path.as_str(), path) {
            assert(files@.take(count as int)[i as int].cache_file_path@ == path@);
            return true;
        }
        i = i + 1;
    }
    false
}

/// The cached prefixes whose files are still there.
pub open spec fn kept_prefixes(
    prefixes: Seq<CacheMetadata>,
    evicted: Seq<CacheFileMetadata>,
) -> Seq<CacheMetadata> {
    prefixes.filter(|prefix: CacheMetadata| !is_path_of(prefix.cache_file_path@, evicted))
}

/// Forgets the cached prefixes whose files are gone: the first `count` of `files`.
pub fn forget_evicted(
    prefixes: &mut Vec<CacheMetadata>,
    files: &Vec<CacheFileMetadata>,
    count: usize,
)
    requires
        count <= files@.len(),
    ensures
        final(prefixes)@ == kept_prefixes(old(prefixes)@, files@.take(count as int)),
{
    let ghost evicted = files@.take(count as int);
    let ghost keep = |prefix: CacheMetadata| !is_path_of(prefix.cache_file_path@, evicted);
    let ghost all = prefixes@;
    let mut rest: Vec<CacheMetadata> = Vec::new();
    std::mem::swap(prefixes, &mut rest);
    let mut kept: Vec<CacheMetadata> = Vec::new();
    assert(all.skip(0) =~= all);
    assert(all.take(0).filter(keep) =~= Seq::<CacheMetadata>::empty()) by {
        reveal(Seq::filter);
    }
    let ghost mut done: int = 0;
    while rest.len() > 0
        invariant
            count <= files@.len(),
            evicted == files@.take(count as int),
            keep == (|prefix: CacheMetadata| !is_path_of(prefix.cache_file_path@, evicted)),
            0 <= done <= all.len(),
            rest@ == all.skip(done),
            kept@ == all.take(done).filter(keep),
        decreases rest.len(),
    {
        let prefix = rest.remove(0);
        proof {
            assert(prefix == all[done]);
            assert(rest@ =~= all.skip(done + 1));
            assert(all.take(done + 1).drop_last() =~= all.take(done));
            assert(all.take(done + 1).last() == prefix);
            reveal(Seq::filter);
        }
        let ghost was = kept@;
        if !is_evicted(prefix.cache_file_path.as_str(), files, count) {
            kept.push(prefix);
        }
        proof {
            assert(kept@ =~= all.take(done + 1).filter(keep));
            done = done + 1;
        }
    }
    assert(all.take(done) =~= all);
    *prefixes = kept;
}

/// After the files that have to go are gone, what is left is within the limit, or nothing is
/// left; what went is not newer than what stayed; and if all was within the limit, all is left.
pub proof fn law_eviction(files: Seq<CacheFileMetadata>, total: u64, max: u64, count: int)
    requires
        oldest_first(files),
        total == sizes(files),
        to_evict(files, total, max, count),
    ensures
        sizes(files.skip(count)) <= max || count == files.len(),
        forall|i: int, j: int|
            0 <= i < count <= j < files.len() ==> (#[trigger] files[i]).modified <= (
            #[trigger] files[j]).modified,
        total <= max ==> files.skip(count) == files,
{
    lemma_size_without(files, count);
    assert(files.skip(0) =~= files);
}

proof fn lemma_sizes_add(a: Seq<CacheFileMetadata>, b: Seq<CacheFileMetadata>)
    ensures
        sizes(a + b) == sizes(a) + sizes(b),
    decreases b.len(),
{
    if b.len() == 0 {
        assert(a + b =~= a);
    } else {
        assert((a + b).drop_last() =~= a + b.drop_last());
        lemma_sizes_add(a, b.drop_last());
    }
}

proof fn lemma_size_without(files: Seq<CacheFileMetadata>, count: int)
    requires
        0 <= count <= files.len(),
    ensures
        size_without(files.take(count), sizes(files) as int) == sizes(files.skip(count)),
    decreases count,
{
    if count > 0 {
        lemma_size_without(files, count - 1);
        assert(files.take(count).drop_last() =~= files.take(count - 1));
        assert(files.skip(count - 1) =~= seq![files[count - 1]] + files.skip(count));
        lemma_sizes_add(seq![files[count - 1]], files.skip(count));
        assert(seq![files[count - 1]].drop_last() =~= Seq::<CacheFileMetadata>::empty());
        assert(sizes(seq![files[count - 1]]) == files[count - 1].file_size) by {
            reveal_with_fuel(sizes, 2);
        }
    } else {
        assert(files.skip(0) =~= files);
        assert(files.take(0).len() == 0);
    }
}

/// No fewer files would do: as long as one file less is given up, what is left is over the limit.
pub proof fn law_eviction_is_least(
    files: Seq<CacheFileMetadata>,
    total: u64,
    max: u64,
    count: int,
    fewer: int,
)
    requires
        total == sizes(files),
        to_evict(files, total, max, count),
        0 <= fewer < count,
    ensures
        sizes(files.skip(fewer)) > max,
{
    lemma_size_without(files, fewer);
    assert(size_without(files.take(fewer), total as int) > max);
}

/// A prefix is forgotten exactly if its file is one that was given up; the others stay, in their
/// order.
pub proof fn law_only_evicted_are_forgotten(
    prefixes: Seq<CacheMetadata>,
    last: CacheMetadata,
    evicted: Seq<CacheFileMetadata>,
)
    ensures
        kept_prefixes(prefixes.push(last), evicted) == (if exists|i: int|
            0 <= i < evicted.len() && (#[trigger] evicted[i]).cache_file_path@
                == last.cache_file_path@ {
            kept_prefixes(prefixes, evicted)
        } else {
            kept_prefixes(prefixes, evicted).push(last)
        }),
        kept_prefixes(Seq::<CacheMetadata>::empty(), evicted) == Seq::<CacheMetadata>::empty(),
        kept_prefixes(prefixes, Seq::<CacheFileMetadata>::empty()) == prefixes,
    decreases prefixes.len(),
{
    reveal(Seq::filter);
    assert(prefixes.push(last).drop_last() =~= prefixes);
    assert(prefixes.push(last).last() == last);
    if prefixes.len() > 0 {
        law_only_evicted_are_forgotten(prefixes.drop_last(), prefixes.last(), evicted);
        assert(prefixes.drop_last().push(prefixes.last()) =~= prefixes);
        let none = Seq::<CacheFileMetadata>::empty();
        assert(!is_path_of(prefixes.last().cache_file_path@, none));
    } else {
        assert(prefixes =~= seq![]);
    }
}

/// A file that is written for a cached prefix is recognised by its name.
pub proof fn law_cache_files_are_recognised(model: Seq<char>, block: usize, id: Seq<char>)
    ensures
        names_cache_file(cache_file_name(model, block, id)),
        cache_file_name(model, block, id) == "cache-"@ + model + "-blk-size-"@ + dec(block as nat)
            + "-"@ + id + ".safetensors"@,
{
    reveal_strlit(".safetensors");
    reveal_strlit("safetensors");
    reveal_strlit("cache-");
    reveal_strlit(".");
    let head = "cache-"@ + model + "-blk-size-"@ + dec(block as nat) + "-"@ + id;
    let name = head + ".safetensors"@;
    let extension = "safetensors"@;
    let k = head.len() as int;
    assert("."@ =~= seq!['.']);
    assert(".safetensors"@ =~= seq!['.'] + extension);
    assert(name =~= head + seq!['.'] + extension);
    assert(name.subrange(k, k + 1) =~= "."@);
    assert forall|q: int| q > k implies !#[trigger] stands_at(name, "."@, q) by {
        if stands_at(name, "."@, q) {
            assert(name.subrange(q, q + 1)[0] == '.');
            assert(extension[q - k - 1] == '.');
        }
    }
    lemma_last_place(name, "."@, name.len() - 1);
    assert(stands_at(name, "."@, k));
    assert(name.take(k) =~= head);
    assert(name.skip(k + 1) =~= extension);
}

} // verus!
