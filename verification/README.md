# openclaw-openai-gateway

An OpenAI-compatible gateway in front of an OpenClaw websocket bridge and a pool of Codex
accounts, with its decision logic verified by Verus.

- `src/` is the verified library: reading quota signals off Codex pages, grading them into
  pool admissions, the pool-member table and request routing, the registration plan and the
  registration worker's dispatch rules, the JSON shapes exchanged with the bridge, the
  settings, authorization, and the answer of every route.
- `app/` is the server around it: environment, HTTP (axum), SQLite (rusqlite) and the
  websocket round trips (tokio-tungstenite). It reads rows and hands them to the library,
  and writes what the library decides.
- `tests/` exercises the library on concrete values.
