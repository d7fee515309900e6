# mutsuki_runtime

The verified core of the Mutsuki runtime kernel, written in Verus.

`src/` is the library; every function there carries a contract that Verus proves:

- `protocol`, `frame`, `bytes`, `msgpack`, `binary`, `jsonl`, `operations`, `schema` —
  the runtime wire: handshake and limits, the opcode registry, the binary frame
  codec (with a round-trip law), the MessagePack structure bound, and the checks on
  JSON lines envelopes.
- `agent`, `runtime`, `election`, `event`, `trace`, `failure` — the agent runtime:
  registration and lifecycle, routing of inputs to awake agents whose scope accepts
  them, election of a primary agent (which does not depend on the candidates' order),
  numbered events, trace spans and their closure check (which passes exactly on
  closed traces, with one duplicate report per repeated id), and structured errors. A failed start commits nothing, and the traces a
  runtime records always pass its closure check.
- `abi`, `plugin` — the plugin ABI's routing: which runner, provider or host
  service serves each request, the one-time initialization of a guest, and the
  backend a plugin with runners declares (each piece once).
- `json`, `qqbot`, `im_qqbot`, `qq_openapi`, `redaction` — the QQBot adapters: a JSON
  model, payload rules, the access-token cache, the OpenAPI calls with their retry
  policy and the chunked-upload plan (with a record of every request handed to
  the HTTP client, so that the contracts say what was sent and in which order), and redaction of secrets before logging.
- `text` — string helpers the rest relies on.

`app/` holds what Verus does not check: serde copies of the wire types, the typed
MessagePack and JSON lines codecs, the bridge to `serde_json::Value`, `Display`
for errors, and the host's shared shutdown switch. `tests/` exercises the library through its public API.
