# knowloop

Verified core of the KnowLoop orchestrator's blueprint, prompt-compiler,
speech-dictionary, retrospective, heartbeat, protocol-trigger and
neural-routing logic, written in Verus.

- `src/` — the library, verified by Verus, with contracts on its functions:
  - `blueprint/` — taxonomy enums, the markdown blueprint parser, the node
    and its tiered responses, and the Cypher queries on blueprints;
  - `chat/prompt_compiler.rs` — when prompts are compiled, the compiler's
    message, per-session history and hints, and feedback detection;
  - `stt/` — speech-to-text configuration, the ordered correction
    dictionaries and rule generation from code symbols, endpoint replies;
  - `retrospective/` — decoding of recorded chat events, tool traces,
    insights, the cohort of a task and its tool-usage counts, learning
    notes, the steps of a retrospective run and retrospective queries;
  - `heartbeat.rs`, `protocol.rs`, `neural_routing.rs`, `collector.rs` —
    check schedules, drift alerts and dead-session removal, event-triggered
    protocol runs with their debounce, routing settings and the CPU guard,
    decision buffering;
  - `reward_proxy.rs` — the integer parts of the heuristic reward proxy:
    action priors, phase bonuses and the noise bucket;
  - `text.rs`, `unicode.rs`, `digest.rs`, `ids.rs`, `keyed.rs` — character
    sequences, Unicode case mapping, SHA-256, UUIDs and timestamps, and a
    small string-keyed map.
- `tests/` — tests run against the compiled library.
- `app/` — file and process I/O, the loops that run the library's steps
  against the graph, floating-point statistics and serde forms around the
  library.
