# janus

The prompt-assembly and story-tracking core of the Janus roleplay chat
application, written in Verus. The functions in `src/` carry contracts that
Verus proves; the few calls into `std` and outside crates that Verus cannot
see into go through small trusted wrappers, each documented with what its
contract assumes of the code it calls.

- `src/` — the verified library:
  - `assembly` — the whole prompt for a conversation: the system layers in
    order, the kept history, retrieved context, the post-history
    instructions last, and the context statistics;
  - `npc_flow` — one pass of new-character detection as a state machine
    (counter, cast, detector call, per-name classification and counting,
    debounced profile generation);
  - `tokenizer`, `budget`, `window` — token counts, the context budget and
    the sliding window over the conversation history;
  - `cards`, `prompt`, `lorebook`, `scene` — the system layers of a prompt
    (character cards, memories, lorebook entries, emotional state, scene);
  - `response_parser`, `resolve` — splitting a multi-character reply by
    speaker and matching speaker names to the cast;
  - `npc`, `llm_prompts` — the detection cadence and debounce of new
    characters, and the prompts of the background model calls;
  - `history`, `records`, `backup`, `paths`, `error`, `entities`, `models`,
    `text` — message branches, record keys, backup rotation, path checks,
    conflict retries, errors and the shared data types.
- `tests/` — tests of the library on concrete values.
- `app/` — the shell around it: serde forms of the types, reading model
  replies, file-system work, the floating-point scoring of retrieval, and
  the loops that run prompt assembly, detection and retries against a store
  and a model.

Outside crates called from `src/`: `tiktoken-rs` (token counts) and `regex`
(speaker markers), each behind a small wrapper whose contract states what the
crate guarantees.
