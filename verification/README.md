# llama-chat

A terminal chat with local and networked LLMs (OpenAI-compatible servers)
that can run tools: shell commands, file tools, MCP servers, todo lists,
subagents and background tasks, with permission prompts.

The session's logic is a library verified with Verus (`src/`): every
public function states what it does in `requires`/`ensures`, and the
laws of the session (permission questions, refusals, error streaks,
`/clear`, MCP routing, background task labels, chunking, wildcard rules,
skill precedence, streamed tool calls) are proof functions.

- `src/chat.rs` — the session as a state machine: each user action or
  runner event gives the next state and the effects to carry out.
- `src/session_laws.rs` — laws that span several session functions.
- `src/background.rs`, `src/bg_agent.rs`, `src/subagent.rs` — background
  tasks and subagents.
- `src/calls.rs`, `src/sse.rs`, `src/types.rs` — streamed completions and
  tool calls.
- `src/permissions.rs`, `src/shell.rs`, `src/tools.rs` — rules and tools.
- `src/skills.rs`, `src/mdc.rs`, `src/config.rs`, `src/theme.rs` —
  configuration, skills and project rules.
- `src/memory.rs`, `src/chunk.rs`, `src/extract.rs`, `src/retrieval.rs` —
  memory commands, archival chunks and search queries.
- `src/display.rs`, `src/text.rs`, `src/num.rs` — text shaping.

- `src/transcript.rs` — the transcript as rows of styled text.

`app/` is the program around the library: the terminal, the network, MCP
transports, processes and files. `tests/` exercises the library.

Long-term memory is not available in this program: its store needs a
SQLite vector extension that is not part of the build. The memory
commands are parsed and answered, and a configuration that enables memory
is reported as unavailable.
