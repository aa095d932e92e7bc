# behest

Contracts and verified building blocks for an AI agent runtime:
provider-neutral chat messages and tool calls, the run state machine,
token budgets, prompt caching, conversation memory and its compaction,
skills, approval policies, provider stream decoding (OpenAI chat
completions, Server-Sent Events) and the Anthropic Messages API format.

Every function in `src/` is verified with Verus against a contract stated
over mathematical models (`Seq`, `Map`, integers). JSON values are carried
as serialized JSON text; calls into outside crates (serde_json, regex,
uuid) and into the clock stand behind small trusted wrappers whose
contracts say what the crate documents, or name the result.

## Layout

- `src/` — the verified library, one module per concern:
  - messages and tools: `message`, `tool_types`, `cache`, `capabilities`, `token`
  - runs: `run` (state machine), `budget`, `recovery`, `approval`, `context`,
    `agent_event` (the events of a run), `event` (hook actions and
    subscription kinds), `router` (retry decisions), `tool_runtime`
    (tool batch grouping, call-order results, failure handling)
  - memory: `memory_window`, `compaction`, `compaction_prompt`, `records`,
    `breakpoints`, `facts`, `journal`, `session_data`, `pipeline` (context
    assembly from adapter output, stored history and the user turn)
  - providers: `sse`, `openai_stream`, `anthropic`, `stream`, `health`,
    `cache_stats`, `tool_dispatch`, `sub_engine`, `skills`
- `tests/` — executable tests of the library.
- `app/` — what surrounds the library: async handles and locks, file I/O,
  floating-point scores, and serde copies of library types.
