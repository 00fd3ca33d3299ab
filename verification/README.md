# Vanguard

A small server-rendered web framework and its demo site, with the logic
verified by Verus.

- `src/` is the verified library: routing (`router`), request-rate token
  buckets (`rate_limit`), base64 and claims JSON (`encoding`, `claims`),
  FN-DSA session tokens and cookies (`auth`), responses (`response`), page
  rendering (`view`, `state`, `pages`), CORS (`server`), static file paths
  (`static_files`), the WebSocket protocol (`ws`) and the demo site's
  handlers (`site`).
- `app/` is the program around it: the hyper server loop, the shared state,
  reading the claims of a verified token payload with serde_json,
  reading request bodies and files, the WebSocket connection, and the key
  file.
- `tests/` runs the library on concrete inputs.
