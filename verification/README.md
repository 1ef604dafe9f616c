# codex_support

Support logic for a coding agent, verified with Verus.

- `patch`: the patch format. A patch that is all there is parsed or refused
  with the line that is wrong; a patch that is still arriving is read character
  by character, and its hunks are reported so far.
- `history`: the history of sessions, with limits on the entries of each session,
  on their bytes and on their age, and its search, export, rotation and stored
  form.
- `identity`: agent identities: keys, the registration of agents and tasks, and
  the assertions that authorize requests.
- `auth`: which authentication applies to a model provider, the headers that an
  agent identity adds, and the task of a session's thread.
- `skills`, `device_key`: the instructions on skills, and the rules for device
  keys on macOS.
- `text`, `json`, `time`: what the others have in common.

Each module states its functions over mathematical models. The `laws` modules,
`patch::grammar` and the ends of a few other modules hold what is true of
several functions together.

What the library has from other crates stands behind small functions whose
contracts are not proved: `time` (chrono), `json` (serde_json),
`identity::crypto` (base64, ed25519-dalek, sha2, crypto_box, rand) and
`auth::headers` (http). `text`, `history::search` and `identity::crypto` each
state a few functions of the standard library in the same way.

`tests/` runs the library together with those crates. `app/` is ordinary Rust
around it: files, network, shared state and native calls.
