use std::collections::HashMap;

use candle_core::{Device, Tensor};
use candle_nn::kv_cache::ConcatKvCache;
use loci::config::ModelCacheConfig;
use loci::error::LociError;
use loci::inference::cache_file::{
    get_candle_dtype, read_cache_metadata, read_token_ids, FileCacheLoader,
};
use loci::inference::generation_context::{
    adjust_fragmentation, common_len, plan_match, CacheLoader, GenerationContext, MatchPlan,
    ModelCacheManagerInterface,
};
use loci::inference::model_cache::{
    block_size, count_to_evict, forget_evicted, in_whole_blocks, is_cache_file, sort_by_age,
    total_size, CacheFileMetadata, CacheMetadata, LoadedMixedCache, ModelCacheManager,
};
use loci::model::{MixedCache, ModelCacheInfo, ModelCacheType};
use loci::tensor::{has_countable_end, narrow, TensorDtype};
use loci::types::ModelCacheFragmentation;

fn manager(model_name: &str) -> ModelCacheManager {
    ModelCacheManager {
        cache_dir: "model_cache".to_string(),
        model: model_name.to_string(),
        max_cache_size: 10_000_000,
        min_cache_tokens: 1,
    }
}

fn cache_file_of(model_name: &str, block_size: usize) -> Vec<u8> {
    let mut metadata = HashMap::new();
    metadata.insert("model_name".to_string(), model_name.to_string());
    metadata.insert("n_layers".to_string(), "2".to_string());
    metadata.insert("fragmentation".to_string(), "TokenWise".to_string());
    metadata.insert("block_size".to_string(), block_size.to_string());
    let token_ids: Vec<u32> = vec![1, 2, 3];
    let token_ids_tensor = Tensor::from_slice(&token_ids, token_ids.len(), &Device::Cpu)
        .expect("token_ids_tensor creation expected to succeed, but failed");
    let data = vec![("token_ids".to_string(), token_ids_tensor)];
    safetensors::serialize(data, Some(metadata)).expect("safetensors serialization failed")
}

#[test]
fn test_load_cache_metadata_same_model() {
    let file = cache_file_of("test_model", 1);
    let metadata = read_cache_metadata(&file, "test_model", 1, "a.safetensors")
        .expect("Failed to load cache metadata")
        .expect("a prefix of the model");
    assert_eq!(metadata.model, "test_model");
    assert_eq!(metadata.token_ids, vec![1, 2, 3]);
    assert_eq!(metadata.cache_file_path, "a.safetensors");
}

#[test]
fn test_load_cache_metadata_different_model() {
    let file = cache_file_of("other_model", 1);
    let metadata = read_cache_metadata(&file, "test_model", 1, "a.safetensors")
        .expect("Failed to load cache metadata");
    assert!(metadata.is_none());
}

#[test]
fn prefixes_of_other_block_sizes_are_left_alone() {
    let file = cache_file_of("test_model", 32);
    assert!(read_cache_metadata(&file, "test_model", 1, "a.safetensors")
        .expect("a readable file")
        .is_none());
    assert!(read_cache_metadata(&file, "test_model", 32, "a.safetensors")
        .expect("a readable file")
        .is_some());
    let error = read_cache_metadata(b"nothing", "test_model", 1, "a.safetensors")
        .expect_err("bytes that are no file");
    assert!(matches!(error, LociError::CacheLoad(_)));
}

fn file(path: &str, modified: u128, file_size: u64) -> CacheFileMetadata {
    CacheFileMetadata {
        cache_file_path: path.to_string(),
        modified,
        file_size,
    }
}

fn prefix(path: &str, model: &str) -> CacheMetadata {
    CacheMetadata {
        model: model.to_string(),
        token_ids: vec![1, 2, 3],
        cache_file_path: path.to_string(),
    }
}

#[test]
fn test_load_cache_metadata_triggers_eviction() {
    let size = cache_file_of("test_model", 1).len() as u64;
    let mut files = vec![file("b", 2, size), file("a", 1, size)];
    let mut prefixes = vec![prefix("a", "test_model"), prefix("b", "test_model")];
    let total = total_size(&files).expect("a small total");
    assert_eq!(total, 2 * size);
    sort_by_age(&mut files);
    let count = count_to_evict(&files, total, 1);
    assert_eq!(count, 2);
    forget_evicted(&mut prefixes, &files, count);
    assert!(prefixes.is_empty());
}

#[test]
fn test_enforce_limits() {
    let mut files = vec![
        file("small", 20, 200),
        file("big", 10, 40_000_000),
    ];
    let mut prefixes = vec![prefix("big", "different_test_model")];
    let total = total_size(&files).expect("a small total");
    assert_eq!(count_to_evict(&files, total, 1_024_000_000), 0);
    sort_by_age(&mut files);
    assert_eq!(files[0].cache_file_path, "big");
    let count = count_to_evict(&files, total, 1_000_000);
    assert_eq!(count, 1);
    forget_evicted(&mut prefixes, &files, count);
    assert!(prefixes.is_empty());
    assert_eq!(files[count].cache_file_path, "small");
}

#[test]
fn the_oldest_files_go_first_and_no_more_than_needed() {
    let mut files = vec![file("c", 3, 10), file("a", 1, 10), file("d", 4, 10), file("b", 2, 10)];
    sort_by_age(&mut files);
    let order: Vec<&str> = files.iter().map(|f| f.cache_file_path.as_str()).collect();
    assert_eq!(order, vec!["a", "b", "c", "d"]);
    assert_eq!(count_to_evict(&files, 40, 40), 0);
    assert_eq!(count_to_evict(&files, 40, 39), 1);
    assert_eq!(count_to_evict(&files, 40, 25), 2);
    assert_eq!(count_to_evict(&files, 40, 0), 4);
    let mut prefixes = vec![prefix("d", "m"), prefix("a", "m"), prefix("b", "m"), prefix("c", "m")];
    forget_evicted(&mut prefixes, &files, 2);
    let left: Vec<&str> = prefixes.iter().map(|p| p.cache_file_path.as_str()).collect();
    assert_eq!(left, vec!["d", "c"]);
    assert_eq!(total_size(&vec![file("x", 0, u64::MAX), file("y", 0, 1)]), None);
}

#[test]
fn files_of_cached_prefixes() {
    assert!(is_cache_file("cache-model-blk-size-1-x.safetensors"));
    assert!(!is_cache_file("cache.txt"));
    assert!(!is_cache_file(".safetensors"));
    assert!(!is_cache_file("safetensors"));
    let blocks = ModelCacheFragmentation::BlockWise { block_size: 32 };
    assert_eq!(
        manager("m").file_name_for(&blocks, "id"),
        "cache-m-blk-size-32-id.safetensors"
    );
    let name = manager("m").new_file_name(&ModelCacheFragmentation::TokenWise);
    assert!(name.starts_with("cache-m-blk-size-1-"));
    assert!(is_cache_file(&name));
    assert_ne!(name, manager("m").new_file_name(&ModelCacheFragmentation::TokenWise));
    assert_eq!(block_size(&blocks), 32);
    assert_eq!(in_whole_blocks(100, 32), 96);
    assert_eq!(in_whole_blocks(31, 32), 0);
}

#[test]
fn managers_are_built_from_their_settings() {
    let built = ModelCacheManager::builder("m").build();
    let default = ModelCacheConfig::default();
    assert_eq!(built.model, "m");
    assert_eq!(built.cache_dir, default.cache_dir);
    assert_eq!(built.min_cache_tokens, default.min_cache_tokens);
    let mut config = ModelCacheConfig::default();
    config.max_cache_size = 5;
    config.cache_dir = "elsewhere".to_string();
    let built = ModelCacheManager::builder("m").with_config(config).build();
    assert_eq!(built.max_cache_size, 5);
    assert_eq!(built.cache_dir, "elsewhere");
}

fn row(from: f64, to: f64) -> Tensor {
    Tensor::arange(from, to, &Device::Cpu)
        .unwrap()
        .unsqueeze(0)
        .unwrap()
        .unsqueeze(0)
        .unwrap()
}

fn numbers(tensor: &Tensor) -> Vec<f64> {
    tensor.flatten_all().unwrap().to_vec1::<f64>().unwrap()
}

fn two_layers() -> Vec<Option<MixedCache>> {
    let mut kv_layer_cache = ConcatKvCache::new(2);
    kv_layer_cache
        .append(&row(0.0, 10.0), &row(0.0, 10.0))
        .expect("cache append failed");
    vec![
        Some(MixedCache::KvCache(kv_layer_cache)),
        Some(MixedCache::ConvCache(row(10.0, 20.0))),
    ]
}

fn boundaries() -> Vec<Vec<Option<MixedCache>>> {
    let blocks_len = 10 / 3;
    let mut block_boundary_cache = vec![vec![None, None]; blocks_len];
    for block_idx in 0..blocks_len {
        block_boundary_cache[block_idx][1] = Some(MixedCache::ConvCache(row(
            block_idx as f64,
            (block_idx + 10) as f64,
        )));
    }
    block_boundary_cache
}

fn ten_tokens() -> Vec<u32> {
    vec![1, 2, 3, 4, 5, 6, 7, 8, 9, 10]
}

fn saved_and_loaded(
    matched: usize,
    fragmentation: &ModelCacheFragmentation,
    blocks: &Vec<Vec<Option<MixedCache>>>,
) -> LoadedMixedCache {
    let bytes = manager("test_model")
        .cache_file(&ten_tokens(), &two_layers(), 2, fragmentation, blocks)
        .expect("cache save failed");
    FileCacheLoader
        .load_mixed_cache(&bytes, matched, fragmentation, 2, &Device::Cpu, true)
        .expect("load_mixed_cache failed")
}

fn assert_keys_and_values(layer: &Option<MixedCache>, len: usize) {
    match layer {
        Some(MixedCache::KvCache(kv_cache)) => {
            let k = kv_cache.k().expect("getting k tensor from layer_cache failed");
            let v = kv_cache.v().expect("getting v tensor from layer_cache failed");
            let mut expected = numbers(&row(0.0, 10.0));
            expected.truncate(len);
            assert_eq!(numbers(k), expected);
            assert_eq!(numbers(v), expected);
        }
        _ => panic!("a layer of keys and values"),
    }
}

fn conv_of(layer: &Option<MixedCache>) -> Vec<f64> {
    let cache = layer.clone().expect("conv cache should be present");
    numbers(cache.as_conv_cache().expect("conv cache should be present"))
}

#[test]
fn test_save_load_roundtrip_tokenwise_full() {
    let loaded_cache = saved_and_loaded(10, &ModelCacheFragmentation::TokenWise, &vec![]);
    assert!(loaded_cache.block_boundary_conv_cache.is_empty());
    assert_eq!(loaded_cache.cached_token_length, 10);
    assert_eq!(loaded_cache.mixed_cache.len(), 2);
    assert_keys_and_values(&loaded_cache.mixed_cache[0], 10);
    assert!(loaded_cache.mixed_cache[1].is_none(), "conv cache should not be present");
}

#[test]
fn test_save_load_roundtrip_tokenwise_truncated() {
    let loaded_cache = saved_and_loaded(7, &ModelCacheFragmentation::TokenWise, &vec![]);
    assert!(loaded_cache.block_boundary_conv_cache.is_empty());
    assert_eq!(loaded_cache.cached_token_length, 7);
    assert_eq!(loaded_cache.mixed_cache.len(), 2);
    assert_keys_and_values(&loaded_cache.mixed_cache[0], 7);
    assert!(loaded_cache.mixed_cache[1].is_none(), "conv cache should not be present");
}

#[test]
fn test_save_load_roundtrip_blockwise_full() {
    let fragmentation = ModelCacheFragmentation::BlockWise { block_size: 3 };
    let blocks = boundaries();
    let loaded_cache = saved_and_loaded(10, &fragmentation, &blocks);
    assert_eq!(loaded_cache.cached_token_length, 9);
    assert_keys_and_values(&loaded_cache.mixed_cache[0], 9);
    assert_eq!(conv_of(&loaded_cache.mixed_cache[1]), conv_of(&blocks[2][1]));
    assert_eq!(loaded_cache.block_boundary_conv_cache.len(), 3);
    for block_idx in 0..3 {
        assert_eq!(
            conv_of(&loaded_cache.block_boundary_conv_cache[block_idx][1]),
            conv_of(&blocks[block_idx][1])
        );
    }
}

#[test]
fn test_save_load_roundtrip_blockwise_truncated() {
    let fragmentation = ModelCacheFragmentation::BlockWise { block_size: 3 };
    let blocks = boundaries();
    let loaded_cache = saved_and_loaded(7, &fragmentation, &blocks);
    assert_eq!(loaded_cache.cached_token_length, 6);
    assert_keys_and_values(&loaded_cache.mixed_cache[0], 6);
    assert_eq!(conv_of(&loaded_cache.mixed_cache[1]), conv_of(&blocks[1][1]));
    for block_idx in 0..2 {
        assert_eq!(
            conv_of(&loaded_cache.block_boundary_conv_cache[block_idx][1]),
            conv_of(&blocks[block_idx][1])
        );
    }
    assert_eq!(loaded_cache.block_boundary_conv_cache.len(), 2);
}

#[test]
fn a_saved_prefix_is_found_again() {
    let fragmentation = ModelCacheFragmentation::BlockWise { block_size: 3 };
    let bytes = manager("test_model")
        .cache_file(&ten_tokens(), &two_layers(), 2, &fragmentation, &boundaries())
        .expect("cache save failed");
    assert_eq!(
        read_token_ids(&bytes).expect("the tokens"),
        vec![1, 2, 3, 4, 5, 6, 7, 8, 9]
    );
    let found = read_cache_metadata(&bytes, "test_model", 3, "p.safetensors")
        .expect("a readable file")
        .expect("a prefix of the model");
    assert_eq!(found.token_ids.len(), 9);
    let other = FileCacheLoader.load_mixed_cache(
        &bytes,
        6,
        &ModelCacheFragmentation::BlockWise { block_size: 4 },
        2,
        &Device::Cpu,
        true,
    );
    assert!(matches!(
        other,
        Err(message) if message == "Cache block size (3) does not match requested block size (4)"
    ));
}

fn one_tensor(name: &str, tensor: Tensor) -> Vec<u8> {
    safetensors::serialize(vec![(name.to_string(), tensor)], None)
        .expect("safetensors serialization failed")
}

#[test]
fn test_read_token_ids_success() {
    let token_ids = vec![1u32, 2, 3, 4, 5, 6, 7, 8, 9, 10];
    let bytes = one_tensor(
        "token_ids",
        Tensor::from_slice(&token_ids, token_ids.len(), &Device::Cpu).unwrap(),
    );
    assert_eq!(read_token_ids(&bytes).unwrap(), token_ids);
}

#[test]
fn test_read_token_ids_failure() {
    let ids = [1u32, 2, 3, 4, 5, 6, 7, 8, 9, 10];
    let floats = [1f32, 2., 3., 4., 5., 6., 7., 8., 9., 10.];
    let cases = vec![
        (
            "not_token_ids",
            Tensor::from_slice(&ids, 10, &Device::Cpu).unwrap(),
            "token_ids not found",
        ),
        (
            "token_ids",
            Tensor::from_slice(&floats, 10, &Device::Cpu).unwrap(),
            "token_ids must be u32",
        ),
        (
            "token_ids",
            Tensor::from_slice(&ids, &[1, 10], &Device::Cpu).unwrap(),
            "token_ids must be 1d",
        ),
    ];
    for (name, tensor, expected_error) in cases {
        let error = read_token_ids(&one_tensor(name, tensor))
            .expect_err("read_token_ids expected to fail, but succeeded");
        assert!(error.message().contains(expected_error));
    }
}

#[test]
fn test_get_candle_dtype_success() {
    let cases = [
        ("U32", TensorDtype::U32),
        ("F16", TensorDtype::F16),
        ("BF16", TensorDtype::BF16),
        ("F32", TensorDtype::F32),
        ("F64", TensorDtype::F64),
        ("U8", TensorDtype::U8),
    ];
    for (name, expected_dtype) in cases {
        let dtype = get_candle_dtype(name).expect("get_candle_dtype failed");
        assert_eq!(dtype, expected_dtype);
    }
}

#[test]
fn test_get_candle_dtype_failure() {
    let error = get_candle_dtype("U16")
        .expect_err("get_candle_dtype expected to fail, but succeeded");
    assert!(error.message().contains("Unsupported dtype"));
}

#[test]
fn narrowing_takes_a_front_part() {
    let tensor = Tensor::from_slice(&[1f64, 2., 3., 4., 5., 6.], &[2, 3], &Device::Cpu).unwrap();
    let front = narrow(&tensor, 1, 0, 2).expect("a part of the tensor");
    assert_eq!(numbers(&front), vec![1., 2., 4., 5.]);
    let back = narrow(&tensor, 1, 1, 2).expect("a part of the tensor");
    assert_eq!(numbers(&back), vec![2., 3., 5., 6.]);
    let within = narrow(&front, 1, 0, 1).expect("a part of the part");
    assert_eq!(numbers(&within), numbers(&narrow(&tensor, 1, 0, 1).unwrap()));
    assert!(narrow(&tensor, 1, 2, 2).is_err());
    assert!(narrow(&tensor, 2, 0, 1).is_err());
}

/// Keeps nothing on disk: saved prefixes are handed out under running numbers.
struct Keeper {
    min_tokens: usize,
}

impl ModelCacheManagerInterface for Keeper {
    fn min_cache_tokens(&self) -> usize {
        self.min_tokens
    }

    fn save_cache(
        &self,
        token_ids: &Vec<u32>,
        _cache: &Vec<Option<MixedCache>>,
        _cache_seq_len_dim: usize,
        _fragmentation: &ModelCacheFragmentation,
        _block_boundary_conv_cache: &Vec<Vec<Option<MixedCache>>>,
    ) -> Result<String, LociError> {
        Ok(format!("saved-{}", token_ids.len()))
    }

    fn enforce_limits(&self, _cache_meta: &mut Vec<CacheMetadata>) -> Result<(), LociError> {
        Ok(())
    }
}

/// Loads from one file that it holds.
struct Shelf {
    bytes: Vec<u8>,
}

impl CacheLoader for Shelf {
    fn load_mixed_cache(
        &self,
        _cache_file_path: &str,
        matched_token_length: usize,
        fragmentation: &ModelCacheFragmentation,
        cache_seq_len_dim: usize,
        device: &Device,
        conv_on_cpu: bool,
    ) -> Result<LoadedMixedCache, String> {
        FileCacheLoader.load_mixed_cache(
            &self.bytes,
            matched_token_length,
            fragmentation,
            cache_seq_len_dim,
            device,
            conv_on_cpu,
        )
    }
}

fn context(
    cache_type: ModelCacheType,
    hint: usize,
    prefixes: Vec<CacheMetadata>,
    bytes: Vec<u8>,
) -> GenerationContext<Keeper, Shelf> {
    let mut config = ModelCacheConfig::default();
    config.prefix_caching = true;
    config.fragmentation = ModelCacheFragmentation::TokenWise;
    GenerationContext::new(
        "test_model",
        Some(config),
        ModelCacheInfo {
            cache_type,
            cache_seq_len_dim: 2,
            cache_block_size_hint: hint,
            n_layers: 2,
        },
        Keeper { min_tokens: 2 },
        Shelf { bytes },
        prefixes,
    )
}

fn kv_layers(len: usize) -> Vec<Option<MixedCache>> {
    let mut kv_layer_cache = ConcatKvCache::new(2);
    kv_layer_cache
        .append(&row(0.0, len as f64), &row(0.0, len as f64))
        .expect("cache append failed");
    vec![Some(MixedCache::KvCache(kv_layer_cache)), None]
}

#[test]
fn an_empty_tensor_of_huge_dimensions_is_refused() {
    let huge = 1usize << 33;
    let view = || {
        safetensors::tensor::TensorView::new(safetensors::Dtype::F16, vec![0, huge, huge], &[])
            .expect("an empty tensor")
    };
    let notes = HashMap::from([("n_layers".to_string(), "1".to_string())]);
    let bytes = safetensors::serialize(
        vec![("layer_0_k", view()), ("layer_0_v", view())],
        Some(notes),
    )
    .expect("a file");
    let loaded = FileCacheLoader.load_mixed_cache(
        &bytes,
        1,
        &ModelCacheFragmentation::TokenWise,
        2,
        &Device::Cpu,
        true,
    );
    assert!(matches!(
        loaded,
        Err(message) if message == "the dimensions of a tensor are too large"
    ));
}

fn declaring(tensors: usize, elements: u64) -> Vec<u8> {
    let mut header = String::from("{");
    for i in 0..tensors as u64 {
        let name = if i == 0 { "token_ids".to_string() } else { format!("t{}", i) };
        header.push_str(&format!(
            "{}\"{}\":{{\"dtype\":\"U8\",\"shape\":[{}],\"data_offsets\":[{},{}]}}",
            if i == 0 { "" } else { "," },
            name,
            elements,
            i * elements,
            (i + 1) * elements
        ));
    }
    header.push('}');
    let mut bytes = (header.len() as u64).to_le_bytes().to_vec();
    bytes.extend_from_slice(header.as_bytes());
    bytes
}

#[test]
fn a_file_that_declares_too_much_data_is_refused() {
    let bytes = declaring(8, (1u64 << 61) - 1);
    assert!(!has_countable_end(&bytes));
    match read_token_ids(&bytes) {
        Err(LociError::CacheLoad(message)) => {
            assert_eq!(message, "the file declares more data than can be counted");
        }
        other => panic!("{:?}", other),
    }
    assert!(read_cache_metadata(&bytes, "test_model", 1, "p").is_err());
    let loaded = FileCacheLoader.load_mixed_cache(
        &bytes,
        1,
        &ModelCacheFragmentation::TokenWise,
        2,
        &Device::Cpu,
        true,
    );
    assert!(loaded.is_err());
    let short = declaring(1, 5);
    assert!(has_countable_end(&short));
    assert!(read_token_ids(&short).is_err());
    assert!(has_countable_end(b""));
    assert!(read_token_ids(b"").is_err());
}

#[test]
fn blocks_of_nothing_are_refused() {
    let bytes = manager("test_model")
        .cache_file(
            &ten_tokens(),
            &two_layers(),
            2,
            &ModelCacheFragmentation::BlockWise { block_size: 3 },
            &boundaries(),
        )
        .expect("cache save failed");
    let none = ModelCacheFragmentation::BlockWise { block_size: 0 };
    let loaded = FileCacheLoader.load_mixed_cache(&bytes, 6, &none, 2, &Device::Cpu, true);
    assert!(matches!(
        loaded,
        Err(message) if message == "Cache block size (3) does not match requested block size (0)"
    ));
    let notes = HashMap::from([("block_size".to_string(), "0".to_string())]);
    let bytes = safetensors::serialize(vec![("token_ids", row(0.0, 1.0))], Some(notes))
        .expect("a file");
    let loaded = FileCacheLoader.load_mixed_cache(&bytes, 6, &none, 2, &Device::Cpu, true);
    assert!(matches!(
        loaded,
        Err(message) if message == "Cache block size is zero"
    ));
}

fn conv_numbers(layer: &Option<MixedCache>) -> Vec<f64> {
    match layer {
        Some(MixedCache::ConvCache(tensor)) => numbers(tensor),
        _ => panic!("a layer of inputs"),
    }
}

#[test]
fn layers_are_cut_up_to_the_first_that_is_too_short() {
    let conv = ModelCacheType::MixedWithConv { conv_l_cache: 2 };
    let mut ctx = context(conv, 3, vec![], vec![]);
    ctx.active_cache = vec![
        Some(MixedCache::ConvCache(row(0.0, 5.0))),
        Some(MixedCache::ConvCache(row(0.0, 1.0))),
    ];
    match ctx.update(vec![1, 2, 3]) {
        Err(LociError::Cache(_)) => (),
        other => panic!("{:?}", other),
    }
    assert_eq!(conv_numbers(&ctx.active_cache[0]), vec![3.0, 4.0]);
    assert_eq!(conv_numbers(&ctx.active_cache[1]), vec![0.0]);
    assert!(ctx.token_ids.is_empty());
    assert!(ctx.block_boundary_conv_cache.is_empty());
}

#[test]
fn block_ends_are_kept_for_each_layer() {
    let conv = ModelCacheType::MixedWithConv { conv_l_cache: 2 };
    let mut ctx = context(conv, 3, vec![], vec![]);
    ctx.active_cache = vec![
        Some(MixedCache::ConvCache(row(0.0, 7.0))),
        Some(MixedCache::ConvCache(row(10.0, 17.0))),
    ];
    ctx.update(vec![1, 2, 3, 4, 5, 6, 7]).expect("two blocks");
    assert_eq!(ctx.token_ids.len(), 7);
    assert_eq!(ctx.block_boundary_conv_cache.len(), 2);
    assert_eq!(conv_numbers(&ctx.block_boundary_conv_cache[0][0]), vec![1.0, 2.0]);
    assert_eq!(conv_numbers(&ctx.block_boundary_conv_cache[1][0]), vec![4.0, 5.0]);
    assert_eq!(conv_numbers(&ctx.block_boundary_conv_cache[1][1]), vec![14.0, 15.0]);
    assert_eq!(conv_numbers(&ctx.active_cache[0]), vec![5.0, 6.0]);
}

#[test]
fn the_active_memory_is_cut_to_the_common_prefix() {
    let mut ctx = context(ModelCacheType::FullAttn, 1, vec![], vec![]);
    ctx.active_cache = kv_layers(5);
    ctx.token_ids = vec![1, 2, 3, 4, 5];
    let found = ctx
        .match_cache(&[1, 2, 3, 9, 9, 9], 1, &Device::Cpu, true)
        .expect("a cut memory");
    assert_eq!(found, 3);
    assert_eq!(ctx.token_ids, vec![1, 2, 3]);
    assert_keys_and_values(&ctx.active_cache[0], 3);
    ctx.update(vec![9, 9, 9]).expect("tokens without new memory");
    assert_eq!(ctx.token_ids, vec![1, 2, 3, 9, 9, 9]);
}

#[test]
fn a_kept_prefix_is_loaded_where_it_is_longer() {
    let bytes = manager("test_model")
        .cache_file(
            &ten_tokens(),
            &two_layers(),
            2,
            &ModelCacheFragmentation::TokenWise,
            &vec![],
        )
        .expect("cache save failed");
    let mut kept = prefix("p", "test_model");
    kept.token_ids = ten_tokens();
    let mut ctx = context(ModelCacheType::FullAttn, 1, vec![kept], bytes);
    ctx.active_cache = kv_layers(2);
    ctx.token_ids = vec![1, 9];
    let prompt = [1, 2, 3, 4, 5, 6, 7, 8, 8];
    let found = ctx
        .match_cache(&prompt, 1, &Device::Cpu, true)
        .expect("a loaded memory");
    assert_eq!(found, 8);
    assert_eq!(ctx.token_ids, vec![1, 2, 3, 4, 5, 6, 7, 8]);
    assert_keys_and_values(&ctx.active_cache[0], 8);
}

#[test]
fn a_memory_of_no_use_is_given_up() {
    let mut ctx = context(ModelCacheType::FullAttn, 1, vec![], vec![]);
    ctx.active_cache = kv_layers(3);
    ctx.token_ids = vec![1, 2, 3];
    let found = ctx
        .match_cache(&[7, 8, 9], 1, &Device::Cpu, true)
        .expect("nothing to cut");
    assert_eq!(found, 0);
    ctx.reset_active_cache(kv_layers(1), true);
    assert!(ctx.token_ids.is_empty());
    assert_eq!(ctx.cache_metadata.len(), 1);
    assert_eq!(ctx.cache_metadata[0].cache_file_path, "saved-3");
    assert_eq!(ctx.cache_metadata[0].token_ids, vec![1, 2, 3]);
}

#[test]
fn a_model_reads_a_least_number_of_tokens() {
    let tokens = ten_tokens();
    let prefixes = vec![];
    assert_eq!(
        plan_match(true, &tokens, &prefixes, "m", &tokens, 3, 2),
        MatchPlan::Narrow { len: 7 }
    );
    assert_eq!(
        plan_match(true, &tokens, &prefixes, "m", &[9, 9], 1, 2),
        MatchPlan::Nothing
    );
    assert_eq!(
        plan_match(true, &vec![1, 2], &prefixes, "m", &tokens, 1, 2),
        MatchPlan::Keep { len: 2 }
    );
    let mut kept = prefix("p", "m");
    kept.token_ids = ten_tokens();
    assert_eq!(
        plan_match(true, &vec![1, 9], &vec![kept.clone()], "m", &tokens, 1, 2),
        MatchPlan::Load { index: 0, len: 9 }
    );
    assert_eq!(
        plan_match(true, &vec![1, 9], &vec![kept.clone()], "other", &tokens, 1, 2),
        MatchPlan::SaveAndNarrow { len: 1 }
    );
    assert_eq!(
        plan_match(false, &tokens, &vec![kept], "m", &tokens, 1, 2),
        MatchPlan::Nothing
    );
}

#[test]
fn common_prefixes() {
    assert_eq!(common_len(&[1, 2, 3], &[1, 2, 4]), 2);
    assert_eq!(common_len(&[], &[1]), 0);
    assert_eq!(common_len(&[1, 2], &[1, 2, 3]), 2);
}

#[test]
fn blocks_fit_the_model() {
    let block = |block_size: usize| ModelCacheFragmentation::BlockWise { block_size };
    let token = ModelCacheFragmentation::TokenWise;
    assert_eq!(adjust_fragmentation(token, 1), token);
    assert_eq!(adjust_fragmentation(token, 4), block(4));
    assert_eq!(adjust_fragmentation(block(32), 1), block(32));
    assert_eq!(adjust_fragmentation(block(2), 4), block(4));
}
