# LLM reasoning proxy

A proxy between OpenAI-compatible chat clients and inference servers that hand the
reasoning of a model back in a field of its own (`reasoning` or `reasoning_content`).
The proxy moves that field into the content, inside `<think>` tags, in whole responses
and in streams of server-sent events.

`src/` holds the decisions, verified with Verus:

- `reasoning`: messages and streamed chunks are rewritten.
- `sse`: what is sent on for each line of a stream.
- `headers`: which headers pass in each direction.
- `exchange`: what goes to the upstream, what comes back, and how failures are answered.
- `json`, `buffer`, `strings`: what is believed of `serde_json`, `bytes` and std.
- `laws`: what holds of all this as a whole.

`app/` is the server itself: it listens, reads and sends.

    llm-reasoning-proxy --port 5001 --upstream http://127.0.0.1:5000
