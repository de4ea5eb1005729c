//! How the model is run.
use vstd::prelude::*;

use crate::config::file_config::{first_of, first_set, ComputeDtype, InferenceFileConfig};

verus! {

#[derive(Debug, Clone, Copy, PartialEq, Eq, Structural)]
pub struct InferenceConfig {
    pub dtype: ComputeDtype,
    pub max_seq_len: usize,
    pub flash_attn: bool,
    pub conv_on_cpu: bool,
}

/// The configuration that holds where nothing is set.
pub open spec fn default_inference_config() -> InferenceConfig {
    InferenceConfig {
        dtype: ComputeDtype::F16,
        max_seq_len: 32_000,
        flash_attn: true,
        conv_on_cpu: true,
    }
}

impl Default for InferenceConfig {
    fn default() -> (result: Self)
        ensures
            result == default_inference_config(),
    {
        InferenceConfig {
            dtype: ComputeDtype::F16,
            max_seq_len: 32_000,
            flash_attn: true,
            conv_on_cpu: true,
        }
    }
}

impl InferenceConfig {
    pub fn builder() -> (result: InferenceConfigBuilder)
        ensures
            result == empty_inference_builder(),
    {
        InferenceConfigBuilder {
            dtype: None,
            max_seq_len: None,
            flash_attn: None,
            conv_on_cpu: None,
            file_config: None,
        }
    }
}

/// A builder with nothing set.
pub open spec fn empty_inference_builder() -> InferenceConfigBuilder {
    InferenceConfigBuilder {
        dtype: None,
        max_seq_len: None,
        flash_attn: None,
        conv_on_cpu: None,
        file_config: None,
    }
}

/// Collects settings; what is set explicitly comes before what the file sets, and that before the
/// defaults.
#[derive(Debug, Clone, Copy, PartialEq, Eq, Structural)]
pub struct InferenceConfigBuilder {
    pub dtype: Option<ComputeDtype>,
    pub max_seq_len: Option<usize>,
    pub flash_attn: Option<bool>,
    pub conv_on_cpu: Option<bool>,
    pub file_config: Option<InferenceFileConfig>,
}

/// A setting of the file, if there is a file.
pub open spec fn from_file<T>(
    file: Option<InferenceFileConfig>,
    pick: spec_fn(InferenceFileConfig) -> Option<T>,
) -> Option<T> {
    match file {
        Some(config) => pick(config),
        None => None,
    }
}

/// The value, or the default.
pub open spec fn value_or<T>(value: Option<T>, default: T) -> T {
    match value {
        Some(v) => v,
        None => default,
    }
}

fn or_default<T>(value: Option<T>, default: T) -> (result: T)
    ensures
        result == value_or(value, default),
{
    match value {
        Some(v) => v,
        None => default,
    }
}

impl InferenceConfigBuilder {
    /// Sets the number format; nothing given changes nothing.
    pub fn dtype(self, compute_dtype: Option<ComputeDtype>) -> (result: Self)
        ensures
            result == (InferenceConfigBuilder {
                dtype: first_of(compute_dtype, self.dtype),
                ..self
            }),
    {
        InferenceConfigBuilder { dtype: first_set(compute_dtype, self.dtype), ..self }
    }

    pub fn max_seq_len(self, max_seq_len: Option<usize>) -> (result: Self)
        ensures
            result == (InferenceConfigBuilder { max_seq_len, ..self }),
    {
        InferenceConfigBuilder { max_seq_len, ..self }
    }

    pub fn flash_attn(self, flash_attn: Option<bool>) -> (result: Self)
        ensures
            result == (InferenceConfigBuilder { flash_attn, ..self }),
    {
        InferenceConfigBuilder { flash_attn, ..self }
    }

    pub fn conv_on_cpu(self, conv_on_cpu: Option<bool>) -> (result: Self)
        ensures
            result == (InferenceConfigBuilder { conv_on_cpu, ..self }),
    {
        InferenceConfigBuilder { conv_on_cpu, ..self }
    }

    pub fn with_file_config(self, config: Option<InferenceFileConfig>) -> (result: Self)
        ensures
            result == (InferenceConfigBuilder { file_config: config, ..self }),
    {
        InferenceConfigBuilder { file_config: config, ..self }
    }

    /// The configuration: each setting as it was set explicitly, else as the file sets it, else
    /// the default.
    pub fn build(self) -> (result: InferenceConfig)
        ensures
            result == (InferenceConfig {
                dtype: value_or(
                    first_of(
                        self.dtype,
                        from_file(self.file_config, |c: InferenceFileConfig| c.dtype),
                    ),
                    default_inference_config().dtype,
                ),
                max_seq_len: value_or(
                    first_of(
                        self.max_seq_len,
                        from_file(self.file_config, |c: InferenceFileConfig| c.max_seq_len),
                    ),
                    default_inference_config().max_seq_len,
                ),
                flash_attn: value_or(
                    first_of(
                        self.flash_attn,
                        from_file(self.file_config, |c: InferenceFileConfig| c.flash_attn),
                    ),
                    default_inference_config().flash_attn,
                ),
                conv_on_cpu: value_or(
                    first_of(
                        self.conv_on_cpu,
                        from_file(self.file_config, |c: InferenceFileConfig| c.conv_on_cpu),
                    ),
                    default_inference_config().conv_on_cpu,
                ),
            }),
    {
        let default = InferenceConfig::default();
        let file = match self.file_config {
            Some(config) => config,
            None => InferenceFileConfig {
                dtype: None,
                max_seq_len: None,
                conv_on_cpu: None,
                flash_attn: None,
            },
        };
        InferenceConfig {
            dtype: or_default(first_set(self.dtype, file.dtype), default.dtype),
            max_seq_len: or_default(
                first_set(self.max_seq_len, file.max_seq_len),
                default.max_seq_len,
            ),
            flash_attn: or_default(
                first_set(self.flash_attn, file.flash_attn),
                default.flash_attn,
            ),
            conv_on_cpu: or_default(
                first_set(self.conv_on_cpu, file.conv_on_cpu),
                default.conv_on_cpu,
            ),
        }
    }
}

/// The configuration that settings and a file make.
pub fn build_inference_config(
    compute_dtype: Option<ComputeDtype>,
    max_seq_len: Option<usize>,
    flash_attn: Option<bool>,
    conv_on_cpu: Option<bool>,
    config: Option<InferenceFileConfig>,
) -> (result: InferenceConfig)
    ensures
        compute_dtype matches Some(dtype) ==> result.dtype == dtype,
        max_seq_len matches Some(n) ==> result.max_seq_len == n,
        flash_attn matches Some(flag) ==> result.flash_attn == flag,
        conv_on_cpu matches Some(flag) ==> result.conv_on_cpu == flag,
        compute_dtype is None ==> result.dtype == value_or(
            from_file(config, |c: InferenceFileConfig| c.dtype),
            ComputeDtype::F16,
        ),
        max_seq_len is None ==> result.max_seq_len == value_or(
            from_file(config, |c: InferenceFileConfig| c.max_seq_len),
            32_000,
        ),
        flash_attn is None ==> result.flash_attn == value_or(
            from_file(config, |c: InferenceFileConfig| c.flash_attn),
            true,
        ),
        conv_on_cpu is None ==> result.conv_on_cpu == value_or(
            from_file(config, |c: InferenceFileConfig| c.conv_on_cpu),
            true,
        ),
{
    InferenceConfig::builder().dtype(compute_dtype).max_seq_len(max_seq_len).flash_attn(
        flash_attn,
    ).conv_on_cpu(conv_on_cpu).with_file_config(config).build()
}

} // verus!
