# gemini-cli-rs

A Gemini command-line client and MCP server whose core is verified with Verus.

- `src/` — the verified library: the request and response models (`models`),
  the JSON value model (`json`), Server-Sent-Events framing and event rules
  (`sse`), request construction and grounding sources (`api`), the MCP
  JSON-RPC rules (`mcp`), the `GEMINI.md` context rules (`context`), the
  choice of run mode (`cli`), errors (`error`) and string helpers (`text`).
- `app/` — the program around it: argument parsing, HTTP and stdio I/O, the
  serde wire types, and file-system access.
- `tests/` — tests of the library.
