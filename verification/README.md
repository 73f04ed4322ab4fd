# rustymcp

A semantic memory server: documents are split into token-bounded chunks,
embedded, and stored in Qdrant; clients search them, summarise episodic
memories into semantic ones, and read server resources over the Model Context
Protocol (stdio) or a small HTTP API.

## Layout

- `src/` — the library, written in Verus. Every function carries a contract
  and is proved: chunk sizing and overlap, metadata sanitisation, payloads and
  Qdrant filters, JSON building and serialisation, tool argument validation,
  search responses, the summarisation pipeline's decisions (selection,
  idempotency keys, strategy, extractive summaries, prompts), tool and
  resource catalogs and schemas, and the metrics reports (unsafe-code counts,
  line counts, coverage lookup, git churn).
  Calls into outside crates (tokenizers, semantic splitting, SHA-256, hex,
  RFC 3339 parsing, URL handling, HTTP reason phrases, UUIDs, the clock) sit
  behind small trusted wrappers whose contracts state what the crates document.
- `app/` — the program around the library: configuration from the
  environment, logging, HTTP transport to Qdrant and Ollama, the axum routes,
  the rmcp server, and the `metrics-post` command line. It hands plain values
  to the library and performs the I/O the library decides on.
- `tests/` — tests of the library's public functions.

## Running

`rustymcp` serves HTTP (ports 4100–4199 unless `SERVER_PORT` is set),
`rustymcp mcp` serves MCP over stdio, and `rustymcp metrics-post <command>`
post-processes metrics outputs. Configuration comes from the environment
(`QDRANT_URL`, `QDRANT_COLLECTION_NAME`, `EMBEDDING_PROVIDER`,
`EMBEDDING_MODEL`, `EMBEDDING_DIMENSION`, and optional search, chunking and
summarisation settings).
