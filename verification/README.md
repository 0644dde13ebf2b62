# codex-mimo-shim

A local compatibility layer that lets Codex talk to Xiaomi MiMo: it serves the
Responses API (`POST /v1/responses`, `GET /v1/responses/{id}`, `GET /v1/models`,
`POST /v1/responses/compact`) and forwards each request to MiMo's Chat Completions
endpoint, translating requests, tool calls, reasoning content, usage and SSE events in
both directions.

The library under `src/` holds all of that translation logic and is verified with
Verus: every public function carries a contract over a mathematical model of its
inputs and result, and the properties the shim promises as a whole (for example that a
stored response is what a later `previous_response_id` continues, or that usage counts
are never made up) are stated and proved as `law_*` proof functions.

## Layout

- `src/json.rs`, `src/text.rs`: JSON values and the string helpers the rest builds on.
- `src/wire.rs`: JSON text read and written by `serde_json`, converted one for one to
  and from the library's values.
- `src/content.rs`: message content parts, data URLs, base64 size limits, audio formats.
- `src/tools.rs`, `src/registry.rs`: tool declarations and tool calls, and the registry
  that restores flattened tool names.
- `src/reasoning.rs`: how `reasoning_content` travels under the thinking policy.
- `src/convert.rs`: Responses request to chat payload and conversation.
- `src/usage.rs`, `src/respond.rs`: provider usage, and the Responses object built from
  a chat answer.
- `src/sse.rs`: the buffered SSE event stream.
- `src/models.rs`: model routing, the model list, trace ids, access-log fields.
- `src/store.rs`, `src/service.rs`: the response store and the request flow around the
  provider call.
- `app/`: the HTTP server (axum), the provider client (reqwest) and configuration.
- `tests/`: tests of the library on concrete values.

## Running the server

The server reads its configuration from the environment:

| variable | meaning | default |
|---|---|---|
| `MIMO_API_KEY` | provider API key | required |
| `MIMO_BASE_URL` | provider base URL (`/chat/completions` is appended) | `https://api.xiaomimimo.com/v1` |
| `MIMO_MODEL` | default provider model | `mimo-v2.5` |
| `MIMO_MODELS` | JSON array of provider models | `[MIMO_MODEL]` |
| `MIMO_MODEL_ALIASES` | JSON object, alias to provider model | `{}` |
| `MIMO_FALLBACK_UNKNOWN_MODEL` | route unknown models to the default | `true` |
| `MIMO_TEMPERATURE`, `MIMO_TOP_P`, `MIMO_MAX_OUTPUT_TOKENS` | sampling defaults | none |
| `MIMO_THINKING` | send the explicit thinking option | `false` |
| `MIMO_FORWARD_PARALLEL_TOOL_CALLS` | forward `parallel_tool_calls` | `false` |
| `MIMO_TIMEOUT_SECS` | provider request timeout | `600` |
| `SHIM_BIND` | listen address | `127.0.0.1:8787` |
| `SHIM_LOG` | tracing filter | `info` |
| `SHIM_RESPONSE_STORE_MAX` | responses kept for continuation (0 keeps none, so `previous_response_id` then always fails) | `1024` |
| `SHIM_ACCESS_LOG` | write access log lines | `true` |

The provider client speaks HTTPS through rustls, with the webpki root certificates.
