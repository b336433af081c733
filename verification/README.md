# backlot

The verified core of Infinite Backlot, an engine that authors short narrative
episodes in a persistent world. The library holds the parts of the engine
that decide things: the bounded protocol between a director and the world,
the validation that stands between them, the deterministic director and the
truthful record of who authored what, story-state mutation, caption text,
the BVH and WAV formats it reads, the motion and voice vocabularies, and the
content keys of its caches. Each public function states its behaviour in a
`requires`/`ensures` contract that Verus proves; the laws that relate several
functions are public proof functions.

## Layout

- `src/` — the library, verified by Verus.
  - `protocol`, `validation`, `world`, `default_world`, `story` — the world
    model, the vocabularies and the validators of plans and beat commands.
  - `director`, `author`, `authoring`, `completion`, `adapt`, `authored`, `briefing`,
    `json`, `llm` — the built-in director, authorship records, the decisions
    of a model-authoring run (fallback, required model, truthful labels) as a
    step function, the chat-completions exchange (request bodies, reading a
    reply, and the order of lenient and strict attempts), and the tolerant
    reading of model-authored plans, commands and replies.
  - `captions`, `phrasing`, `text` — caption normalization, escaping,
    wrapping and phrasing, over the character-level text utilities.
  - `motion`, `avatar`, `soma`, `retarget`, `library`, `bvh`, `stage`,
    `navigation` — motion semantics, the humanoid contract, the SOMA skeleton
    and its cast retargeting, the stand-in skeleton, the motion library and
    the semantics still owed a generation batch, BVH reading, staging
    outcomes and the elevator-door cues of a beat's direction.
  - `production`, `asr` — the checks between the phases of preparing a
    production when the model is required, and word alignment's cache names,
    line ids and kept responses.
  - `tts`, `digest`, `rng`, `config`, `package`, `world_modules` — speech
    decisions (cache keys of synthesized lines, reference-recording checks)
    and WAV headers, content hashing, seeded randomness, defaults,
    provenance records and the world-module registry rules.
- `tests/` — tests run against the compiled library.
- `app/` — the edges around the library: file I/O, the loops that run the
  library's step functions (a structured model call posts through a transport
  its caller supplies), the floating-point timing and numbers, and the serde
  and error-message copies of library types.

Outside crates called from the library: `rand` (the seeded generator),
`blake3` (content digests) and `serde_json` (the JSON text of a string in a
cache key's payload), each behind a small trusted wrapper whose contract says
what the crate's documentation promises.
