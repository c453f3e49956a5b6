# tauri-plugins

Two small plugins for Tauri apps, with their decisions proved in Verus.

- **Update gate.** Reads one JSON document over HTTP and tells an app whether the
  installed copy is too old to run. It fails open: a document that cannot be
  fetched, is not JSON, or holds a version that does not parse never locks
  anyone out.
- **PostHog, anonymously.** Sends analytics events from a queue on disk. Nothing
  a caller puts into an event can unmask the install.

## Layout

- `src/` is the library, every function of it with a contract.
  - `update_gate/decide.rs` — the verdict for a document and a running version;
    `version.rs` — versions, as semver reads and orders them; `language.rs` —
    which language the message is in; `source.rs` — how long a document is
    trusted, and what a failed fetch is answered with.
  - `posthog/event.rs` — events and request bodies; `lines.rs` and `queue.rs` —
    the queue file, what is evicted from it and what is read back; `send.rs` —
    batches and backoff; `identity.rs` — the install's id and its opt-out;
    `worker.rs` — what is done about each message; `config.rs` — the settings.
  - `clock.rs`, `text.rs`, `json.rs` — what the rest needs of time, strings and
    JSON.
- `app/` is the plugins as Tauri sees them: files, network, async tasks and
  commands. It carries out what the library decides and reports back.
- `tests/` runs the library on concrete values.

## What is trusted

The library calls `semver`, `serde_json`, `time`, `uuid` and a few functions of
`std` through wrappers. Each says above it which function it calls and what is
claimed of it. The proofs rest on these claims; everything else is proved.

The laws of the library are the public proof functions whose names start with
`law_`.
