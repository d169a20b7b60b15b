# notebooklm-core

A Model Context Protocol (MCP) server that lets an AI client ask questions to
Google NotebookLM notebooks through a shared, persistent Chrome instance, and
keeps a local library of notebooks.

The crate is split in two:

- `src/` is the library, verified with Verus. It holds the notebook library
  and its laws, the tool-profile settings, the configuration read from the
  environment, resource addressing and percent-decoding, the session pool
  (kept in a `DashMap` behind specified wrappers), the answer watcher that
  detects a fully streamed answer, the login and cookie decisions, the
  pruning of isolated browser profiles, the replies and messages of every
  tool, the JSON-RPC routing and the `config` command line.
- `app/` is the binary around it: the stdio JSON-RPC loop, the JSON schemas
  and JSON encoding of replies, reading and writing `library.json`,
  `settings.json` and the browser state files, driving Chrome through
  `chromiumoxide`, and the floating-point timing of human-like typing.

`tests/` exercises the library from outside, with the real outside crates
linked.
