# streamcore-rust-sdk

A client for a StreamCoreAI voice agent server over WebRTC and WHIP, with its
decisions proved in Verus.

- `src/` is the library. It says what is sent to the server and what the replies
  mean (`whip`), builds a transport step by step (`dial`), recovers a dropped one
  by ICE restarts and redials (`recovery`, `restart`), reads and rewrites session
  descriptions (`icerestart`), keeps the transcript (`conversation`), and numbers
  and follows audio packets (`audio`). It does no I/O. The modules that end in
  `_laws`, and `history`, state and prove what holds across these functions.
- `app/` drives the library over the WebRTC stack, HTTP and Opus, and holds the
  callbacks.
- `tests/` runs the library on concrete values.

What is not proved is stated where it stands: `String::push` in `text`, and the
URL parser in `whip`.
