# fipa-wasm-agents

A FIPA agent platform whose core is verified with Verus: message and
container formats, the interaction protocols, the platform agents
(AMS, DF, payment escrow, buyer and seller), addressing and name
resolution, and a node's admission guards (trust-on-first-use keys,
replay and rate limits, quarantine, timers, migration checks) together
with the in-process executor that applies them to every message.

- `src/` — the verified library. Each public function states what it
  returns or changes in `requires`/`ensures` over mathematical views;
  laws that relate several functions are public proof functions
  (`law_*`). Calls into outside crates (time, randomness, hashing,
  signatures, JSON) go through small trusted wrappers whose contracts
  say what those crates promise.
- `tests/` — tests of the library on concrete values.
- `app/` — the edges around the library: byte streams, key and identity
  files, OS limits, metrics, and the agents' startup data blocks.
