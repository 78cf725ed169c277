# arena_server

The server of *Shatterbelt Salvagers*, an arena game whose ships are flown by
bots: WebSocket bots connected live, or WebAssembly bots uploaded by teams and
run in-process under a fuel budget.

The crate has two parts.

- `src/` is the verified library (Verus).  It holds the server's rules and
  state: team tokens, artifact and moderation stores, bot health with its
  capped log buffer, the WASM bot host, slot resolution (WebSocket, uploaded
  WASM, custom or built-in Default Bot), live-match controls and pacing
  decisions, the exhibition loop's decisions, how a finished match's ships
  are grouped by competitor for the ladder, the admin and participant
  request checks, and the protocol's server messages.  `src/laws.rs` and the
  `lemma_*` proof functions state properties that span several operations.
- `app/` is the executable around it: the HTTP and WebSocket endpoints
  (axum/tokio), the floating-point match engine and scripted bots, the
  TrueSkill ratings, recordings on disk, and the threads that run matches.
  The server's rules (which requests are accepted, which driver a slot
  gets, how a live match is controlled and paced, which ships a ladder
  update groups together) are calls into the library; the float ranking and
  the locks around the shared stores are the app's own.

`tests/` exercises the library, including real WASM modules assembled from
WAT text.
