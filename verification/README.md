# hya_server

The request, error and stream logic of the hya `/v1` server surface, written
in Verus with its contracts proved.

- `src/` is the verified library: provider-credential storage decisions
  (`auth`), the stable error model and its gRPC mapping (`error`), replay
  selection and the stream watermark (`events`), pending-interaction frames
  (`interactions`), query decoding, percent-encoding and dispatch URIs
  (`query`), the gRPC route table (`grpc_routes`), terminal-stream decisions
  (`pty`), startup tracing lines (`startup`), RFC 3339 timestamps
  (`timestamp`) and text helpers (`text`).
- `app/` holds the I/O around it: axum handlers for the auth domain (with
  atomic credential writes), HTTP error responses, JSON conversions into the
  library's plain types, the gRPC dispatcher (forwarding `hya-directory`
  metadata), the event-stream merge, the terminal pump and startup tracing.
- `tests/` runs the library on concrete values.
