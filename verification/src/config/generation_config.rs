//! How tokens are picked and when a generation ends.
use vstd::prelude::*;
use vstd::string::*;

use crate::config::file_config::{first_of, first_set, GenerationFileConfig};
use crate::config::inference_config::value_or;
use crate::float::Float32;
use crate::gguf::lookup::{
    find_first, find_last_f32, find_last_usize, first_with_key, last_float, last_size,
};
use crate::gguf::types::{GgufInfo, GgufKVMeta};
use crate::text::{list_of, texts_of};
use crate::types::{ReasoningEffort, ToolChoice, ToolChoiceMode, ToolChoiceView};

verus! {

/// The pattern of 0.8.
pub const DEFAULT_TEMPERATURE_BITS: u32 = 0x3F4C_CCCD;

/// The pattern of 0.9.
pub const DEFAULT_TOP_P_BITS: u32 = 0x3F66_6666;

/// The pattern of 1.15.
pub const DEFAULT_REPETITION_PENALTY_BITS: u32 = 0x3F93_3333;

#[derive(Debug, Clone, PartialEq)]
pub struct GenerationConfig {
    pub max_tokens: usize,
    pub temperature: Float32,
    pub top_p: Float32,
    pub repetition_penalty: Float32,
    pub tool_choice: ToolChoice,
    pub reasoning_effort: ReasoningEffort,
    pub stop_tokens: Option<Vec<String>>,
    pub logprobs: bool,
    pub top_logprobs: Option<usize>,
    pub seed: usize,
}

/// The mathematical model of a generation configuration.
pub struct GenerationConfigView {
    pub max_tokens: usize,
    pub temperature: Float32,
    pub top_p: Float32,
    pub repetition_penalty: Float32,
    pub tool_choice: ToolChoiceView,
    pub reasoning_effort: ReasoningEffort,
    pub stop_tokens: Option<Seq<Seq<char>>>,
    pub logprobs: bool,
    pub top_logprobs: Option<usize>,
    pub seed: usize,
}

impl View for GenerationConfig {
    type V = GenerationConfigView;

    open spec fn view(&self) -> GenerationConfigView {
        GenerationConfigView {
            max_tokens: self.max_tokens,
            temperature: self.temperature,
            top_p: self.top_p,
            repetition_penalty: self.repetition_penalty,
            tool_choice: self.tool_choice.model(),
            reasoning_effort: self.reasoning_effort,
            stop_tokens: list_of(self.stop_tokens),
            logprobs: self.logprobs,
            top_logprobs: self.top_logprobs,
            seed: self.seed,
        }
    }
}

/// The configuration that holds where nothing is set.
pub open spec fn default_generation_config() -> GenerationConfigView {
    GenerationConfigView {
        max_tokens: 32_000,
        temperature: Float32 { bits: DEFAULT_TEMPERATURE_BITS },
        top_p: Float32 { bits: DEFAULT_TOP_P_BITS },
        repetition_penalty: Float32 { bits: DEFAULT_REPETITION_PENALTY_BITS },
        tool_choice: ToolChoiceView::Mode(ToolChoiceMode::Auto),
        reasoning_effort: ReasoningEffort::High,
        stop_tokens: None,
        logprobs: false,
        top_logprobs: None,
        seed: 19,
    }
}

impl Default for GenerationConfig {
    fn default() -> (result: Self)
        ensures
            result@ == default_generation_config(),
            result.tool_choice == ToolChoice::Mode(ToolChoiceMode::Auto),
            result.stop_tokens is None,
    {
        GenerationConfig {
            max_tokens: 32_000,
            temperature: Float32 { bits: DEFAULT_TEMPERATURE_BITS },
            top_p: Float32 { bits: DEFAULT_TOP_P_BITS },
            repetition_penalty: Float32 { bits: DEFAULT_REPETITION_PENALTY_BITS },
            tool_choice: ToolChoice::Mode(ToolChoiceMode::Auto),
            reasoning_effort: ReasoningEffort::High,
            stop_tokens: None,
            logprobs: false,
            top_logprobs: None,
            seed: 19,
        }
    }
}

/// The metadata name the architecture of the model.
pub open spec fn names_architecture(metadata: Seq<GgufKVMeta>) -> bool {
    match first_with_key(metadata, "general.architecture"@) {
        Some(entry) => entry.value.str_value() is Some,
        None => false,
    }
}

/// `list` are these keys.
pub open spec fn keys_are(list: Seq<&str>, keys: Seq<Seq<char>>) -> bool {
    &&& list.len() == keys.len()
    &&& forall|i: int| 0 <= i < keys.len() ==> (#[trigger] list[i])@ == keys[i]
}

/// The number of the last entry with one of the keys that gives a number, or the default.
pub open spec fn tuned(metadata: Seq<GgufKVMeta>, keys: Seq<Seq<char>>, default: Float32) -> Float32
    decreases metadata.len(),
{
    if metadata.len() == 0 {
        default
    } else if keys.contains(metadata.last().key@) && metadata.last().value.f32_value() is Some {
        metadata.last().value.f32_value()->Some_0
    } else {
        tuned(metadata.drop_last(), keys, default)
    }
}

pub proof fn lemma_tuned(
    metadata: Seq<GgufKVMeta>,
    list: Seq<&str>,
    keys: Seq<Seq<char>>,
    default: Float32,
)
    requires
        keys_are(list, keys),
    ensures
        tuned(metadata, keys, default) == value_or(last_float(metadata, list), default),
    decreases metadata.len(),
{
    if metadata.len() > 0 {
        lemma_tuned(metadata.drop_last(), list, keys, default);
        let key = metadata.last().key@;
        if keys.contains(key) {
            let i = choose|i: int| 0 <= i < keys.len() && keys[i] == key;
            assert(list[i]@ == key);
        }
        if crate::gguf::lookup::is_one_of(key, list) {
            let i = choose|i: int| 0 <= i < list.len() && #[trigger] list[i]@ == key;
            assert(keys[i] == key);
        }
    }
}

/// The metadata keys of the temperature.
pub open spec fn temperature_keys() -> Seq<Seq<char>> {
    seq![
        "sampling.temperature"@,
        "general.sampling.temp"@,
        "general.sampling.temperature"@,
    ]
}

/// The metadata keys of the nucleus threshold.
pub open spec fn top_p_keys() -> Seq<Seq<char>> {
    seq!["sampling.top_p"@, "general.sampling.top_p"@]
}

/// The metadata keys of the repetition penalty.
pub open spec fn repetition_keys() -> Seq<Seq<char>> {
    seq!["sampling.repetition_penalty"@, "general.sampling.repetition_penalty"@]
}

/// The configuration that a model's metadata ask for.
pub open spec fn metadata_config(metadata: Seq<GgufKVMeta>) -> GenerationConfigView {
    let default = default_generation_config();
    GenerationConfigView {
        max_tokens: value_or(last_size(metadata, "general.max_tokens"@), default.max_tokens),
        temperature: tuned(metadata, temperature_keys(), default.temperature),
        top_p: tuned(metadata, top_p_keys(), default.top_p),
        repetition_penalty: tuned(metadata, repetition_keys(), default.repetition_penalty),
        ..default
    }
}

impl GenerationConfig {
    pub fn builder() -> (result: GenerationConfigBuilder)
        ensures
            result == empty_generation_builder(),
    {
        GenerationConfigBuilder::default()
    }

    /// The configuration that a model's metadata ask for. The metadata have to name the model's
    /// architecture.
    pub fn from_gguf_metadata(gguf_info: &GgufInfo) -> (result: Result<Self, String>)
        ensures
            match result {
                Ok(config) => {
                    &&& names_architecture(gguf_info.kv_meta@)
                    &&& config@ == metadata_config(gguf_info.kv_meta@)
                },
                Err(message) => {
                    &&& !names_architecture(gguf_info.kv_meta@)
                    &&& message@
                        == "Could not find 'general.architecture' key in gguf metadata"@
                },
            },
    {
        let metadata = gguf_info.kv_meta.as_slice();
        let named = match find_first(metadata, "general.architecture") {
            Some(entry) => entry.value.as_str().is_some(),
            None => false,
        };
        if !named {
            return Err(
                String::from_str("Could not find 'general.architecture' key in gguf metadata"),
            );
        }
        let default = GenerationConfig::default();
        let temperature_list: [&str; 3] = [
            "sampling.temperature",
            "general.sampling.temp",
            "general.sampling.temperature",
        ];
        let top_p_list: [&str; 2] = ["sampling.top_p", "general.sampling.top_p"];
        let repetition_list: [&str; 2] = [
            "sampling.repetition_penalty",
            "general.sampling.repetition_penalty",
        ];
        proof {
            lemma_tuned(metadata@, temperature_list@, temperature_keys(), default.temperature);
            lemma_tuned(metadata@, top_p_list@, top_p_keys(), default.top_p);
            lemma_tuned(
                metadata@,
                repetition_list@,
                repetition_keys(),
                default.repetition_penalty,
            );
        }
        let temperature = match find_last_f32(metadata, temperature_list.as_slice()) {
            Some(value) => value,
            None => default.temperature,
        };
        let top_p = match find_last_f32(metadata, top_p_list.as_slice()) {
            Some(value) => value,
            None => default.top_p,
        };
        let repetition_penalty = match find_last_f32(metadata, repetition_list.as_slice()) {
            Some(value) => value,
            None => default.repetition_penalty,
        };
        let max_tokens: usize = match find_last_usize(metadata, "general.max_tokens") {
            Some(value) => value,
            None => default.max_tokens,
        };
        Ok(
            GenerationConfig { max_tokens, temperature, top_p, repetition_penalty, ..default },
        )
    }
}

/// Collects settings; what is set explicitly comes before what the file sets, that before what
/// the metadata ask for, and that before the defaults. The metadata do not set the seed.
#[derive(Debug, Clone)]
pub struct GenerationConfigBuilder {
    pub temperature: Option<Float32>,
    pub top_p: Option<Float32>,
    pub max_tokens: Option<usize>,
    pub repetition_penalty: Option<Float32>,
    pub tool_choice: Option<ToolChoice>,
    pub reasoning_effort: Option<ReasoningEffort>,
    pub stop_tokens: Option<Vec<String>>,
    pub logprobs: Option<bool>,
    pub top_logprobs: Option<usize>,
    pub seed: Option<usize>,
    pub gguf_config: Option<GenerationConfig>,
    pub file_config: Option<GenerationFileConfig>,
}

/// A builder with nothing set.
pub open spec fn empty_generation_builder() -> GenerationConfigBuilder {
    GenerationConfigBuilder {
        temperature: None,
        top_p: None,
        max_tokens: None,
        repetition_penalty: None,
        tool_choice: None,
        reasoning_effort: None,
        stop_tokens: None,
        logprobs: None,
        top_logprobs: None,
        seed: None,
        gguf_config: None,
        file_config: None,
    }
}

/// The section of a file that sets nothing.
pub open spec fn empty_generation_section() -> GenerationFileConfig {
    GenerationFileConfig {
        temperature: None,
        max_tokens: None,
        top_p: None,
        repetition_penalty: None,
        tool_choice: None,
        reasoning_effort: None,
        stop_tokens: None,
        logprobs: None,
        top_logprobs: None,
        seed: None,
    }
}

/// The model of an optional tool choice.
pub open spec fn choice_of(choice: Option<ToolChoice>) -> Option<ToolChoiceView> {
    match choice {
        Some(c) => Some(c.model()),
        None => None,
    }
}

/// The configuration that a builder stands for.
pub open spec fn resolved_generation_config(b: GenerationConfigBuilder) -> GenerationConfigView {
    let file = value_or(b.file_config, empty_generation_section());
    let base = match b.gguf_config {
        Some(config) => config@,
        None => default_generation_config(),
    };
    GenerationConfigView {
        max_tokens: value_or(first_of(b.max_tokens, file.max_tokens), base.max_tokens),
        temperature: value_or(first_of(b.temperature, file.temperature), base.temperature),
        top_p: value_or(first_of(b.top_p, file.top_p), base.top_p),
        repetition_penalty: value_or(
            first_of(b.repetition_penalty, file.repetition_penalty),
            base.repetition_penalty,
        ),
        tool_choice: value_or(
            first_of(choice_of(b.tool_choice), choice_of(file.tool_choice)),
            base.tool_choice,
        ),
        reasoning_effort: value_or(
            first_of(b.reasoning_effort, file.reasoning_effort),
            base.reasoning_effort,
        ),
        stop_tokens: first_of(
            first_of(list_of(b.stop_tokens), list_of(file.stop_tokens)),
            base.stop_tokens,
        ),
        logprobs: value_or(first_of(b.logprobs, file.logprobs), base.logprobs),
        top_logprobs: first_of(first_of(b.top_logprobs, file.top_logprobs), base.top_logprobs),
        seed: value_or(first_of(b.seed, file.seed), default_generation_config().seed),
    }
}

/// The builder with the overrides that are set.
pub open spec fn overridden(
    b: GenerationConfigBuilder,
    o: GenerationOverrides,
) -> GenerationConfigBuilder {
    GenerationConfigBuilder {
        temperature: first_of(o.temperature, b.temperature),
        top_p: first_of(o.top_p, b.top_p),
        max_tokens: first_of(o.max_tokens, b.max_tokens),
        repetition_penalty: first_of(o.repetition_penalty, b.repetition_penalty),
        tool_choice: first_of(o.tool_choice, b.tool_choice),
        reasoning_effort: first_of(o.reasoning_effort, b.reasoning_effort),
        stop_tokens: first_of(o.stop_tokens, b.stop_tokens),
        logprobs: first_of(o.logprobs, b.logprobs),
        top_logprobs: first_of(o.top_logprobs, b.top_logprobs),
        seed: first_of(o.seed, b.seed),
        gguf_config: b.gguf_config,
        file_config: first_of(o.file_config, b.file_config),
    }
}

impl Default for GenerationConfigBuilder {
    fn default() -> (result: Self)
        ensures
            result == empty_generation_builder(),
    {
        GenerationConfigBuilder {
            temperature: None,
            top_p: None,
            max_tokens: None,
            repetition_penalty: None,
            tool_choice: None,
            reasoning_effort: None,
            stop_tokens: None,
            logprobs: None,
            top_logprobs: None,
            seed: None,
            gguf_config: None,
            file_config: None,
        }
    }
}

impl GenerationConfigBuilder {
    pub fn temperature(self, temp: Option<Float32>) -> (result: Self)
        ensures
            result == (GenerationConfigBuilder { temperature: temp, ..self }),
    {
        GenerationConfigBuilder { temperature: temp, ..self }
    }

    pub fn top_p(self, top_p: Option<Float32>) -> (result: Self)
        ensures
            result == (GenerationConfigBuilder { top_p, ..self }),
    {
        GenerationConfigBuilder { top_p, ..self }
    }

    pub fn max_tokens(self, tokens: Option<usize>) -> (result: Self)
        ensures
            result == (GenerationConfigBuilder { max_tokens: tokens, ..self }),
    {
        GenerationConfigBuilder { max_tokens: tokens, ..self }
    }

    pub fn repetition_penalty(self, penalty: Option<Float32>) -> (result: Self)
        ensures
            result == (GenerationConfigBuilder { repetition_penalty: penalty, ..self }),
    {
        GenerationConfigBuilder { repetition_penalty: penalty, ..self }
    }

    pub fn tool_choice(self, tool_choice: Option<ToolChoice>) -> (result: Self)
        ensures
            result == (GenerationConfigBuilder { tool_choice, ..self }),
    {
        GenerationConfigBuilder { tool_choice, ..self }
    }

    pub fn reasoning_effort(self, effort: Option<ReasoningEffort>) -> (result: Self)
        ensures
            result == (GenerationConfigBuilder { reasoning_effort: effort, ..self }),
    {
        GenerationConfigBuilder { reasoning_effort: effort, ..self }
    }

    pub fn stop_tokens(self, stop_tokens: Option<Vec<String>>) -> (result: Self)
        ensures
            result == (GenerationConfigBuilder { stop_tokens, ..self }),
    {
        GenerationConfigBuilder { stop_tokens, ..self }
    }

    pub fn logprobs(self, logprobs: Option<bool>) -> (result: Self)
        ensures
            result == (GenerationConfigBuilder { logprobs, ..self }),
    {
        GenerationConfigBuilder { logprobs, ..self }
    }

    pub fn top_logprobs(self, top_logprobs: Option<usize>) -> (result: Self)
        ensures
            result == (GenerationConfigBuilder { top_logprobs, ..self }),
    {
        GenerationConfigBuilder { top_logprobs, ..self }
    }

    pub fn seed(self, seed: Option<usize>) -> (result: Self)
        ensures
            result == (GenerationConfigBuilder { seed, ..self }),
    {
        GenerationConfigBuilder { seed, ..self }
    }

    /// Takes over what a model's metadata ask for.
    pub fn with_gguf_metadata(self, gguf_info: &GgufInfo) -> (result: Result<Self, String>)
        ensures
            match result {
                Ok(builder) => {
                    &&& names_architecture(gguf_info.kv_meta@)
                    &&& builder.gguf_config is Some
                    &&& builder.gguf_config->Some_0@ == metadata_config(gguf_info.kv_meta@)
                    &&& builder == (GenerationConfigBuilder {
                        gguf_config: builder.gguf_config,
                        ..self
                    })
                },
                Err(message) => {
                    &&& !names_architecture(gguf_info.kv_meta@)
                    &&& message@
                        == "Could not find 'general.architecture' key in gguf metadata"@
                },
            },
    {
        match GenerationConfig::from_gguf_metadata(gguf_info) {
            Ok(config) => Ok(GenerationConfigBuilder { gguf_config: Some(config), ..self }),
            Err(message) => Err(message),
        }
    }

    /// Takes over the overrides that are set.
    pub fn with_overrides(self, overrides: GenerationOverrides) -> (result: Self)
        ensures
            result == overridden(self, overrides),
    {
        GenerationConfigBuilder {
            temperature: first_set(overrides.temperature, self.temperature),
            top_p: first_set(overrides.top_p, self.top_p),
            max_tokens: first_set(overrides.max_tokens, self.max_tokens),
            repetition_penalty: first_set(
                overrides.repetition_penalty,
                self.repetition_penalty,
            ),
            tool_choice: first_set(overrides.tool_choice, self.tool_choice),
            reasoning_effort: first_set(overrides.reasoning_effort, self.reasoning_effort),
            stop_tokens: first_set(overrides.stop_tokens, self.stop_tokens),
            logprobs: first_set(overrides.logprobs, self.logprobs),
            top_logprobs: first_set(overrides.top_logprobs, self.top_logprobs),
            seed: first_set(overrides.seed, self.seed),
            gguf_config: self.gguf_config,
            file_config: first_set(overrides.file_config, self.file_config),
        }
    }

    pub fn with_file_config(self, config: Option<GenerationFileConfig>) -> (result: Self)
        ensures
            result == (GenerationConfigBuilder { file_config: config, ..self }),
    {
        GenerationConfigBuilder { file_config: config, ..self }
    }

    /// The configuration that the settings make.
    pub fn build(self) -> (result: GenerationConfig)
        ensures
            result@ == resolved_generation_config(self),
    {
        let default_seed: usize = GenerationConfig::default().seed;
        let file = match self.file_config {
            Some(config) => config,
            None => GenerationFileConfig {
                temperature: None,
                max_tokens: None,
                top_p: None,
                repetition_penalty: None,
                tool_choice: None,
                reasoning_effort: None,
                stop_tokens: None,
                logprobs: None,
                top_logprobs: None,
                seed: None,
            },
        };
        let base = match self.gguf_config {
            Some(config) => config,
            None => GenerationConfig::default(),
        };
        GenerationConfig {
            max_tokens: match first_set(self.max_tokens, file.max_tokens) {
                Some(value) => value,
                None => base.max_tokens,
            },
            temperature: match first_set(self.temperature, file.temperature) {
                Some(value) => value,
                None => base.temperature,
            },
            top_p: match first_set(self.top_p, file.top_p) {
                Some(value) => value,
                None => base.top_p,
            },
            repetition_penalty: match first_set(
                self.repetition_penalty,
                file.repetition_penalty,
            ) {
                Some(value) => value,
                None => base.repetition_penalty,
            },
            tool_choice: match first_set(self.tool_choice, file.tool_choice) {
                Some(value) => value,
                None => base.tool_choice,
            },
            reasoning_effort: match first_set(self.reasoning_effort, file.reasoning_effort) {
                Some(value) => value,
                None => base.reasoning_effort,
            },
            stop_tokens: first_set(
                first_set(self.stop_tokens, file.stop_tokens),
                base.stop_tokens,
            ),
            logprobs: match first_set(self.logprobs, file.logprobs) {
                Some(value) => value,
                None => base.logprobs,
            },
            top_logprobs: first_set(
                first_set(self.top_logprobs, file.top_logprobs),
                base.top_logprobs,
            ),
            seed: match first_set(self.seed, file.seed) {
                Some(value) => value,
                None => default_seed,
            },
        }
    }
}

fn copy_texts(list: &Vec<String>) -> (result: Vec<String>)
    ensures
        texts_of(result@) == texts_of(list@),
{
    let mut copy: Vec<String> = Vec::new();
    let mut i: usize = 0;
    while i < list.len()
        invariant
            i <= list@.len(),
            copy@.len() == i,
            forall|j: int| 0 <= j < i ==> (#[trigger] copy@[j])@ == list@[j]@,
        decreases list.len() - i,
    {
        copy.push(String::from_str(list[i].as_str()));
        i = i + 1;
    }
    assert(texts_of(copy@) =~= texts_of(list@));
    copy
}

pub fn copy_list(list: &Option<Vec<String>>) -> (result: Option<Vec<String>>)
    ensures
        list_of(result) == list_of(*list),
{
    match list {
        Some(texts) => Some(copy_texts(texts)),
        None => None,
    }
}

fn copy_choice(choice: &Option<ToolChoice>) -> (result: Option<ToolChoice>)
    ensures
        choice_of(result) == choice_of(*choice),
{
    match choice {
        Some(c) => Some(c.copy()),
        None => None,
    }
}

fn copy_config(config: &GenerationConfig) -> (result: GenerationConfig)
    ensures
        result@ == config@,
{
    GenerationConfig {
        max_tokens: config.max_tokens,
        temperature: config.temperature,
        top_p: config.top_p,
        repetition_penalty: config.repetition_penalty,
        tool_choice: config.tool_choice.copy(),
        reasoning_effort: config.reasoning_effort,
        stop_tokens: copy_list(&config.stop_tokens),
        logprobs: config.logprobs,
        top_logprobs: config.top_logprobs,
        seed: config.seed,
    }
}

fn copy_section(section: &GenerationFileConfig) -> (result: GenerationFileConfig)
    ensures
        section_agrees(result, *section),
{
    GenerationFileConfig {
        temperature: section.temperature,
        max_tokens: section.max_tokens,
        top_p: section.top_p,
        repetition_penalty: section.repetition_penalty,
        tool_choice: copy_choice(&section.tool_choice),
        reasoning_effort: section.reasoning_effort,
        stop_tokens: copy_list(&section.stop_tokens),
        logprobs: section.logprobs,
        top_logprobs: section.top_logprobs,
        seed: section.seed,
    }
}

/// Two sections of files set the same.
pub open spec fn section_agrees(a: GenerationFileConfig, b: GenerationFileConfig) -> bool {
    &&& choice_of(a.tool_choice) == choice_of(b.tool_choice)
    &&& list_of(a.stop_tokens) == list_of(b.stop_tokens)
    &&& a == (GenerationFileConfig {
        tool_choice: a.tool_choice,
        stop_tokens: a.stop_tokens,
        ..b
    })
}

impl GenerationConfigBuilder {
    /// The configuration that the settings make with the overrides of one request.
    pub fn resolve(&self, overrides: GenerationOverrides) -> (result: GenerationConfig)
        ensures
            result@ == resolved_generation_config(overridden(*self, overrides)),
    {
        let copy = GenerationConfigBuilder {
            temperature: self.temperature,
            top_p: self.top_p,
            max_tokens: self.max_tokens,
            repetition_penalty: self.repetition_penalty,
            tool_choice: copy_choice(&self.tool_choice),
            reasoning_effort: self.reasoning_effort,
            stop_tokens: copy_list(&self.stop_tokens),
            logprobs: self.logprobs,
            top_logprobs: self.top_logprobs,
            seed: self.seed,
            gguf_config: match &self.gguf_config {
                Some(config) => Some(copy_config(config)),
                None => None,
            },
            file_config: match &self.file_config {
                Some(section) => Some(copy_section(section)),
                None => None,
            },
        };
        copy.with_overrides(overrides).build()
    }
}

/// Settings of one request.
#[derive(Debug, Clone)]
pub struct GenerationOverrides {
    pub temperature: Option<Float32>,
    pub top_p: Option<Float32>,
    pub max_tokens: Option<usize>,
    pub repetition_penalty: Option<Float32>,
    pub tool_choice: Option<ToolChoice>,
    pub reasoning_effort: Option<ReasoningEffort>,
    pub stop_tokens: Option<Vec<String>>,
    pub logprobs: Option<bool>,
    pub top_logprobs: Option<usize>,
    pub seed: Option<usize>,
    pub file_config: Option<GenerationFileConfig>,
}

/// Overrides that set nothing.
pub open spec fn no_overrides() -> GenerationOverrides {
    GenerationOverrides {
        temperature: None,
        top_p: None,
        max_tokens: None,
        repetition_penalty: None,
        tool_choice: None,
        reasoning_effort: None,
        stop_tokens: None,
        logprobs: None,
        top_logprobs: None,
        seed: None,
        file_config: None,
    }
}

impl Default for GenerationOverrides {
    fn default() -> (result: Self)
        ensures
            result == no_overrides(),
    {
        GenerationOverrides {
            temperature: None,
            top_p: None,
            max_tokens: None,
            repetition_penalty: None,
            tool_choice: None,
            reasoning_effort: None,
            stop_tokens: None,
            logprobs: None,
            top_logprobs: None,
            seed: None,
            file_config: None,
        }
    }
}

impl GenerationOverrides {
    pub fn with_temperature(self, temperature: Option<Float32>) -> (result: Self)
        ensures
            result == (GenerationOverrides { temperature, ..self }),
    {
        GenerationOverrides { temperature, ..self }
    }

    pub fn with_top_p(self, top_p: Option<Float32>) -> (result: Self)
        ensures
            result == (GenerationOverrides { top_p, ..self }),
    {
        GenerationOverrides { top_p, ..self }
    }

    pub fn with_max_tokens(self, max_tokens: Option<usize>) -> (result: Self)
        ensures
            result == (GenerationOverrides { max_tokens, ..self }),
    {
        GenerationOverrides { max_tokens, ..self }
    }

    pub fn with_repetition_penalty(self, penalty: Option<Float32>) -> (result: Self)
        ensures
            result == (GenerationOverrides { repetition_penalty: penalty, ..self }),
    {
        GenerationOverrides { repetition_penalty: penalty, ..self }
    }

    pub fn with_tool_choice(self, tool_choice: Option<ToolChoice>) -> (result: Self)
        ensures
            result == (GenerationOverrides { tool_choice, ..self }),
    {
        GenerationOverrides { tool_choice, ..self }
    }

    pub fn with_reasoning_effort(self, reasoning_effort: Option<ReasoningEffort>) -> (result: Self)
        ensures
            result == (GenerationOverrides { reasoning_effort, ..self }),
    {
        GenerationOverrides { reasoning_effort, ..self }
    }

    pub fn with_stop_tokens(self, stop_tokens: Option<Vec<String>>) -> (result: Self)
        ensures
            result == (GenerationOverrides { stop_tokens, ..self }),
    {
        GenerationOverrides { stop_tokens, ..self }
    }

    pub fn with_logprobs(self, logprobs: Option<bool>) -> (result: Self)
        ensures
            result == (GenerationOverrides { logprobs, ..self }),
    {
        GenerationOverrides { logprobs, ..self }
    }

    pub fn with_top_logprobs(self, top_logprobs: Option<usize>) -> (result: Self)
        ensures
            result == (GenerationOverrides { top_logprobs, ..self }),
    {
        GenerationOverrides { top_logprobs, ..self }
    }

    pub fn with_seed(self, seed: Option<usize>) -> (result: Self)
        ensures
            result == (GenerationOverrides { seed, ..self }),
    {
        GenerationOverrides { seed, ..self }
    }

    pub fn with_file_config(self, file_config: Option<GenerationFileConfig>) -> (result: Self)
        ensures
            result == (GenerationOverrides { file_config, ..self }),
    {
        GenerationOverrides { file_config, ..self }
    }
}

/// Overrides that set nothing change nothing, and overrides that are set decide whatever the
/// file, the metadata and the defaults say.
pub proof fn law_overrides_decide(b: GenerationConfigBuilder, o: GenerationOverrides)
    ensures
        overridden(b, no_overrides()) == b,
        o.temperature matches Some(t) ==> resolved_generation_config(overridden(b, o)).temperature
            == t,
        o.top_p matches Some(p) ==> resolved_generation_config(overridden(b, o)).top_p == p,
        o.max_tokens matches Some(n) ==> resolved_generation_config(overridden(b, o)).max_tokens
            == n,
        o.repetition_penalty matches Some(p) ==> resolved_generation_config(
            overridden(b, o),
        ).repetition_penalty == p,
        o.tool_choice matches Some(c) ==> resolved_generation_config(overridden(b, o)).tool_choice
            == c.model(),
        o.reasoning_effort matches Some(e) ==> resolved_generation_config(
            overridden(b, o),
        ).reasoning_effort == e,
        o.seed matches Some(s) ==> resolved_generation_config(overridden(b, o)).seed == s,
        o.logprobs matches Some(l) ==> resolved_generation_config(overridden(b, o)).logprobs == l,
{
}

} // verus!
