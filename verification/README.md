# nineclaw

The verified core of the NineClaw desktop agent, written in Verus.

`src/` holds the library. Every function in it carries a contract; Verus proves each body
against its contract, except the few `external_body` wrappers around outside calls (std,
`urlencoding`, `md-5`, `reqwest`, `serde_json`), whose contracts are trusted:

- `text`, `percent`, `paths`, `digest`: characters, percent-encoding, path pieces and MD5-based
  names.
- `json_value`: JSON values as the library holds them, accessors, and the removal of provider
  replay state from recorded session messages.
- `media_directives`, `desktop_media`, `mime`, `replies`: media directives in replies, outbound
  display text, media type inference and multimodal turn summaries.
- `pi_stream`, `pi_session`, `provider`, `compat_extension`, `runtime_extension`: the decisions of
  a Pi prompt stream, session bookkeeping, provider checks and the generated Pi extensions.
- `managed_runtime`, `delegation`, `credential_proxy`, `memory_tools`, `memory_gate`: harness
  choice, session events, agent delegation, the credential proxy's requests and memory routing.
- `desktop_session`: team membership in team sessions, stopping a stream by an RPC abort, the
  wait after Pi's output closes, and which bound IM channels start by themselves.
- `mcp_settings`: MCP server settings and their runtime snapshot.
- `llm_trace`, `trace_registry`, `trace_guard`, `llm_log_export`: LLM call traces, their
  registry, listing and export.

`tests/` exercises the library on concrete values. `app/` is a small command-line front end that
does the file and process work around the library.
