use loci::config::{
    CacheFileConfig, ComputeDtype, FileConfig, GenerationConfig, GenerationFileConfig,
    InferenceConfig, InferenceFileConfig, ModelArchitecture, ModelCacheConfig, ModelConfig,
    TokenizerConfig,
};
use loci::error::LociError;
use loci::float::Float32;
use loci::gguf::Loader;
use loci::inference::ToolFormatStyle;
use loci::types::{ModelCacheFragmentation, ReasoningEffort, ToolChoice, ToolChoiceMode};

fn float(value: f32) -> Float32 {
    Float32 {
        bits: value.to_bits(),
    }
}

fn chat_template() -> String {
    r###"{{- bos_token -}}
{%- set keep_past_thinking = keep_past_thinking | default(false) -%}
{%- set ns = namespace(system_prompt="") -%}
{%- if messages[0]["role"] == "system" -%}
    {%- set sys_content = messages[0]["content"] -%}
    {%- if sys_content is not string -%}
        {%- for item in sys_content -%}
            {%- if item["type"] == "text" -%}
                {%- set ns.system_prompt = ns.system_prompt + item["text"] -%}
            {%- endif -%}
        {%- endfor -%}
    {%- else -%}
        {%- set ns.system_prompt = sys_content -%}
    {%- endif -%}
    {%- set messages = messages[1:] -%}
{%- endif -%}
{%- if tools -%}
    {%- set ns.system_prompt = ns.system_prompt + ("\n" if ns.system_prompt else "") + "List of tools: [" -%}
    {%- for tool in tools -%}
        {%- if tool is not string -%}
            {%- set tool = tool | tojson -%}
        {%- endif -%}
        {%- set ns.system_prompt = ns.system_prompt + tool -%}
        {%- if not loop.last -%}
            {%- set ns.system_prompt = ns.system_prompt + ", " -%}
        {%- endif -%}
    {%- endfor -%}
    {%- set ns.system_prompt = ns.system_prompt + "]" -%}
{%- endif -%}
{%- if ns.system_prompt -%}
    {{- "<|im_start|>system\n" + ns.system_prompt + "<|im_end|>\n" -}}
{%- endif -%}
{%- set ns.last_assistant_index = -1 -%}
{%- for message in messages -%}
    {%- if message["role"] == "assistant" -%}
        {%- set ns.last_assistant_index = loop.index0 -%}
    {%- endif -%}
{%- endfor -%}
{%- for message in messages -%}
    {{- "<|im_start|>" + message["role"] + "\n" -}}
    {%- if message.get('tool_calls') %}
        {# ───── create a list to append tool calls to ───── #}
        {%- set tool_calls_ns = namespace(tool_calls=[])%}
        {%- for tool_call in message['tool_calls'] %}
            {%- set func_name = tool_call['function']['name'] %}
            {%- set func_args = tool_call['function']['arguments'] %}
            {# ───── create a list of func_arg strings to accumulate for each tool call ───── #}
            {%- set args_ns = namespace(arg_strings=[])%}
            {%- for arg_name, arg_value in func_args.items() %}
                {%- if arg_value is none %}
                    {%- set formatted_arg_value = 'null' %}
                {%- elif arg_value is boolean %}
                    {%- set formatted_arg_value = 'True' if arg_value else 'False' %}
                {%- elif arg_value is string %}
                    {%- set formatted_arg_value = '"' ~ arg_value ~ '"' %}
                {%- elif arg_value is mapping or arg_value is iterable %}
                    {%- set formatted_arg_value = arg_value | tojson %}
                {%- else %}
                    {%- set formatted_arg_value = arg_value | string %}
                {%- endif %}
                {# ───── format each argument key,value pair ───── #}
                {%- set args_ns.arg_strings =  args_ns.arg_strings + [arg_name ~ '=' ~ formatted_arg_value] %}
            {%- endfor %}
            {# ───── append each formatted tool call ───── #}
            {%- set tool_calls_ns.tool_calls = tool_calls_ns.tool_calls + [(func_name + '(' + (args_ns.arg_strings | join(", ")) + ')' )]%}
        {%- endfor %}
        {# ───── format the final tool calls ───── #}
        {{-'<|tool_call_start|>[' + (tool_calls_ns.tool_calls | join(", ")) + ']<|tool_call_end|>'}}
    {%- endif %}
    {%- set content = message["content"] -%}
    {%- if content is not string -%}
        {%- set ns.content = "" -%}
        {%- for item in content -%}
            {%- if item["type"] == "image" -%}
                {%- set ns.content = ns.content + "<image>" -%}
            {%- elif item["type"] == "text" -%}
                {%- set ns.content = ns.content + item["text"] -%}
            {%- else -%}
                {%- set ns.content = ns.content + item | tojson -%}
            {%- endfor -%}
        {%- endfor -%}
        {%- set content = ns.content -%}
    {%- endif -%}
    {%- if message["role"] == "assistant" and not keep_past_thinking and loop.index0 != ns.last_assistant_index -%}
        {%- if "</think>" in content -%}
            {%- set content = content.split("</think>")[-1] | trim -%}
        {%- endif -%}
    {%- endif -%}
    {{- content + "<|im_end|>\n" -}}
{%- endfor -%}
{%- if add_generation_prompt -%}
    {{- "<|im_start|>assistant\n" -}}
{%- endif -%}"###.to_string()
}

fn put_text(file: &mut Vec<u8>, text: &str) {
    file.extend_from_slice(&(text.len() as u64).to_le_bytes());
    file.extend_from_slice(text.as_bytes());
}

fn put_number(file: &mut Vec<u8>, key: &str, value: u32) {
    put_text(file, key);
    file.extend_from_slice(&4i32.to_le_bytes());
    file.extend_from_slice(&value.to_le_bytes());
}

fn put_float(file: &mut Vec<u8>, key: &str, value: f32) {
    put_text(file, key);
    file.extend_from_slice(&6i32.to_le_bytes());
    file.extend_from_slice(&value.to_le_bytes());
}

fn put_flag(file: &mut Vec<u8>, key: &str, value: i8) {
    put_text(file, key);
    file.extend_from_slice(&7i32.to_le_bytes());
    file.extend_from_slice(&value.to_le_bytes());
}

fn put_string(file: &mut Vec<u8>, key: &str, value: &str) {
    put_text(file, key);
    file.extend_from_slice(&8i32.to_le_bytes());
    put_text(file, value);
}

fn put_array_head(file: &mut Vec<u8>, key: &str, item_type: i32, count: i64) {
    put_text(file, key);
    file.extend_from_slice(&9i32.to_le_bytes());
    file.extend_from_slice(&item_type.to_le_bytes());
    file.extend_from_slice(&count.to_le_bytes());
}

fn tokens() -> Vec<&'static str> {
    vec![
        "<|pad|>",
        "<|startoftext|>",
        "<|endoftext|>",
        "<|fim_pre|>",
        "<|fim_mid|>",
        "<|fim_suf|>",
        "<|im_start|>",
        "<|im_end|>",
        "<|tool_list_start|>",
        "<|tool_list_end|>",
        "<|tool_call_start|>",
        "<|tool_call_end|>",
        "<|tool_response_start|>",
        "<|tool_response_end|>",
        "<|reserved_4|>",
        "<|reserved_5|>",
    ]
}

fn merges() -> Vec<&'static str> {
    vec![
        "a b", "c d", "e f", "g h", "i j", "k l", "m n", "o p", "q r", "s t", "u v", "w x", "y z",
        "r j", "i b", "e s",
    ]
}

fn owned(list: Vec<&str>) -> Vec<String> {
    list.iter().map(|item| item.to_string()).collect()
}

fn fake_lfm2_gguf() -> Vec<u8> {
    let mut file = vec![];
    file.extend_from_slice(b"GGUF");
    file.extend_from_slice(&3u32.to_le_bytes());
    file.extend_from_slice(&0u64.to_le_bytes());
    file.extend_from_slice(&23u64.to_le_bytes());
    put_number(&mut file, "general.alignment", 32);
    put_string(&mut file, "general.architecture", "lfm2");
    put_string(&mut file, "general.name", "test");
    put_string(&mut file, "tokenizer.ggml.model", "gpt2");
    put_string(&mut file, "tokenizer.chat_template", &chat_template());
    put_number(&mut file, "lfm2.block_count", 16);
    put_number(&mut file, "lfm2.context_length", 4096);
    put_number(&mut file, "lfm2.embedding_length", 1024);
    put_number(&mut file, "lfm2.feed_forward_length", 4608);
    put_number(&mut file, "lfm2.attention.head_count", 16);
    put_number(&mut file, "lfm2.vocab_size", 16);
    put_number(&mut file, "lfm2.shortconv.l_cache", 3);
    put_number(&mut file, "tokenizer.ggml.bos_token_id", 1);
    put_number(&mut file, "tokenizer.ggml.eos_token_id", 7);
    put_number(&mut file, "tokenizer.ggml.padding_token_id", 0);
    put_array_head(&mut file, "lfm2.attention.head_count_kv", 4, 16);
    for heads in [0u32, 0, 8, 0, 0, 8, 0, 0, 8, 0, 8, 0, 8, 0, 8, 0] {
        file.extend_from_slice(&heads.to_le_bytes());
    }
    put_array_head(&mut file, "tokenizer.ggml.tokens", 8, 16);
    for token in tokens() {
        put_text(&mut file, token);
    }
    put_array_head(&mut file, "tokenizer.ggml.token_type", 5, 16);
    for token_type in [3i32, 3, 3, 3, 3, 3, 3, 3, 3, 3, 3, 3, 3, 3, 1, 1] {
        file.extend_from_slice(&token_type.to_le_bytes());
    }
    put_array_head(&mut file, "tokenizer.ggml.merges", 8, 16);
    for merge in merges() {
        put_text(&mut file, merge);
    }
    put_float(&mut file, "lfm2.rope.freq_base", 1000000f32);
    put_float(&mut file, "lfm2.attention.layer_norm_rms_epsilon", 0.00001f32);
    put_flag(&mut file, "tokenizer.ggml.add_bos_token", 1);
    put_flag(&mut file, "tokenizer.ggml.add_eos_token", 0);
    file
}

fn fake_file_config() -> FileConfig {
    FileConfig {
        inference_config: Some(InferenceFileConfig {
            dtype: Some(ComputeDtype::F16),
            max_seq_len: Some(32000),
            conv_on_cpu: Some(true),
            flash_attn: Some(true),
        }),
        generation_config: Some(GenerationFileConfig {
            temperature: Some(float(0.7)),
            max_tokens: Some(4096),
            top_p: Some(float(0.9)),
            repetition_penalty: Some(float(1.15)),
            tool_choice: Some(ToolChoice::Mode(ToolChoiceMode::Auto)),
            reasoning_effort: Some(ReasoningEffort::High),
            stop_tokens: None,
            logprobs: Some(false),
            top_logprobs: Some(5),
            seed: Some(19),
        }),
        cache_config: Some(CacheFileConfig {
            prefix_caching: Some(true),
            cache_dir: Some("model_cache".to_string()),
            max_cache_size: Some(16_000_000_000),
            min_cache_tokens: Some(512),
            fragmentation: ModelCacheFragmentation::from_text("BlockWise(32)").ok(),
        }),
    }
}

#[test]
fn test_config_file_loading() {
    let expected_inference_config = InferenceConfig {
        dtype: ComputeDtype::F16,
        max_seq_len: 32_000,
        flash_attn: true,
        conv_on_cpu: true,
    };
    let expected_generation_config = GenerationConfig {
        stop_tokens: None,
        temperature: float(0.7),
        top_p: float(0.9),
        max_tokens: 4096,
        repetition_penalty: float(1.15),
        tool_choice: ToolChoice::Mode(ToolChoiceMode::Auto),
        reasoning_effort: ReasoningEffort::High,
        logprobs: false,
        top_logprobs: Some(5),
        seed: 19,
    };
    let expected_cache_config = ModelCacheConfig {
        prefix_caching: true,
        cache_dir: "model_cache".to_string(),
        max_cache_size: 16_000_000_000,
        min_cache_tokens: 512,
        fragmentation: ModelCacheFragmentation::BlockWise { block_size: 32 },
    };

    let mut expected_model_config = ModelConfig::default();
    expected_model_config.architecture = ModelArchitecture::Lfm2;
    expected_model_config.file_path = "test.gguf".to_string();
    expected_model_config.model_name = "test".to_string();
    expected_model_config.n_layers = 16;
    expected_model_config.max_seq_len = 4096;
    expected_model_config.hidden_size = 1024;
    expected_model_config.intermediate_ffn_size = 4608;
    expected_model_config.n_heads = 16;
    expected_model_config.vocab_size = 16;
    expected_model_config.n_kv_heads = vec![0, 0, 8, 0, 0, 8, 0, 0, 8, 0, 8, 0, 8, 0, 8, 0];
    expected_model_config.conv_l_cache = Some(3);
    expected_model_config.rope_theta = float(1000000.0);
    expected_model_config.rms_epsilon = float(0.00001);
    expected_model_config.cache_seq_len_dim = 2;
    expected_model_config.supports_reasoning = false;
    expected_model_config.supports_tool_calling = true;
    expected_model_config.tool_call_start_token_id = Some(10);
    expected_model_config.tool_call_end_token_id = Some(11);
    expected_model_config.flatten_tools_to_functions = true;
    expected_model_config.tool_call_format_style = ToolFormatStyle::PythonCall;

    let expected_tokenizer_config = TokenizerConfig {
        model_type: Some("gpt2".to_string()),
        pre_tokenizer_tag: None,
        tokens: Some(owned(tokens())),
        token_type: Some(vec![3, 3, 3, 3, 3, 3, 3, 3, 3, 3, 3, 3, 3, 3, 1, 1]),
        merges: Some(owned(merges())),
        json_config: None,
        chat_template: Some(chat_template()),
        bos_token_id: Some(1),
        eos_token_id: Some(7),
        padding_token_id: Some(0),
        eot_token_id: None,
        unknown_token_id: None,
        eom_token_id: None,
        add_bos: true,
        add_eos: false,
    };

    let FileConfig {
        generation_config,
        inference_config,
        cache_config,
    } = fake_file_config();

    let inference_config = InferenceConfig::builder()
        .with_file_config(inference_config)
        .build();
    assert_eq!(inference_config, expected_inference_config);

    let generation_config = GenerationConfig::builder()
        .with_file_config(generation_config)
        .build();
    assert_eq!(generation_config, expected_generation_config);

    let cache_config = ModelCacheConfig::builder()
        .with_file_config(cache_config)
        .build();
    assert_eq!(cache_config, expected_cache_config);

    let gguf_info = Loader::load_gguf_info_from_bytes(&fake_lfm2_gguf(), "test.gguf")
        .expect("failed to load gguf info");
    let model_config =
        ModelConfig::from_gguf_info(&gguf_info).expect("failed to parse model config");
    assert_eq!(model_config, expected_model_config);

    let tokenizer_config = TokenizerConfig::from_metadata(gguf_info.kv_meta.as_slice());
    assert_eq!(tokenizer_config, expected_tokenizer_config);
}

#[test]
fn test_load_gguf_corrupt_magic() {
    let result = Loader::load_gguf_info_from_bytes(b"NOTG", "corrupt.gguf");
    assert!(result.is_err(), "expected error for corrupt magic");
    let result = Loader::load_gguf_info("corrupt.gguf", Ok(b"NOTG"));
    assert!(result.is_err(), "expected error for corrupt magic");
}

#[test]
fn test_load_gguf_nonexistent() {
    let read = Err(LociError::Io("No such file or directory".to_string()));
    let result = Loader::load_gguf_info("/nonexistent/path.gguf", read);
    assert!(result.is_err(), "expected error for nonexistent file");
}
