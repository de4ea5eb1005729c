# Loci

A local LLM inference engine. It loads GGUF language models and serves them on the command line
and over an OpenAI-compatible HTTP API, with streaming, tool calls, reasoning budgets and cached
prefixes.

The engine's logic is a library that is verified with [Verus](https://github.com/verus-lang/verus):
each function states what it returns in `ensures` clauses that are proved of its body.

## Layout

- `src/` is the verified library.
  - `gguf/` reads GGUF files and lists what they say.
  - `config/` resolves what a model file, a configuration file and a request ask for.
  - `inference/` runs generations: the handler that picks tokens, the supervisors of reasoning and
    tool calls, the formatters of tool arguments, stop patterns, and the memory of a conversation
    with its cached prefixes. `generation_run.rs` says what a whole generation does.
  - `api/` checks requests and says what is sent when.
  - `session/` keeps conversations.
  - `tensor.rs` holds the contracts of the tensor and file crates that the library calls.
- `tests/` runs the library.
- `app/` is the program: commands, server, files, sampling, and the models themselves, which
  compute with floating-point tensors.

Splitting text into tokens is not part of this repository. A tokenizer service is linked in by an
entry in `app/tokenizer.rs`.

## Laws

Public proof functions named `law_..` state what holds across functions, among them:

- A GGUF file is accepted for its records alone: if any of them is cut off it is refused, and an
  accepted file has what its counts say (`gguf/loader.rs`).
- A saved prefix can be loaded again and is what was saved (`inference/cache_file.rs`).
- A conversation holds exactly the prompt and the tokens that were picked, and the report is what
  the listener heard (`inference/generation_run.rs`).
- A reasoning budget is enforced (`inference/reasoning_supervisor.rs`).
- The pieces of a tool call make up its arguments (`inference/tool_calling_supervisor.rs`).
- The pieces of a streamed answer make up the answer, and a request is only ever answered by the
  model that it names (`api/worker.rs`).
