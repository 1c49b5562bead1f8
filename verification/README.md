# tpt_ai_agents

Building blocks for LLM agent infrastructure, written in Verus: each public
function carries a `requires`/`ensures` contract over a mathematical model
of its data, and Verus proves that the code meets it.

## Layout

- `src/` — the verified library.
  - `text` — strings as character sequences: trimming, searching,
    replacing, decimal rendering, UTF-8 byte positions.
  - `prompt_template` — `{{name}}` templates: parsing and rendering.
  - `llm_client` — the SSE parser, request and response shapes, usage
    accounting, endpoints, retry decisions, provider-specific chunks and the
    decoder of streaming responses.
  - `agent_graph` — graphs of nodes run as a state machine with a step
    budget, and a registry that routes tool calls by name.
  - `agent_memory` — a graph of labelled nodes and relationships, the
    keyword test of memory search, entry ids.
  - `mock_server` — recorded responses, per-path FIFO routing, request
    validation and the HTTP texts the server reads and writes.
  - `eval_harness` — scoring rules, metrics of a run, dataset lines.
  - `embeddings` — batch checks, result order and ids, endpoint URLs.
  - `onnx` — tensor shape and model path checks.
  - `json`, `outside` — the calls into `serde_json` and the outside types
    the library carries.
- `tests/` — tests of the library.
- `app/` — the I/O around the library: HTTP clients (`reqwest`), the mock
  server's listener (`tokio`), file loading, serde shapes, and the
  floating-point parts (scores, similarities, tensors with `tract-onnx`).
