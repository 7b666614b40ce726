# toolscript

Turns OpenAPI descriptions into a typed Luau SDK and serves it over the
Model Context Protocol, so that an agent can chain many API calls in one
script.

## Layout

- `src/` is the library, written in Verus. Every function carries a
  contract, and Verus proves that the code meets it:
  - `openapi`, `extract`, `parser`: reading the text of an OpenAPI
    document (with `serde_yaml`, then `serde_json`), and from the document's
    model to a manifest of APIs, functions and schemas;
  - `luau_types`, `annotations`: the Luau type annotations of the SDK;
  - `generate`, `config`: naming APIs, frozen parameters, command-line and
    configuration-file inputs, credentials;
  - `registry`, `validate`, `http`: planning the request of an SDK call
    and checking its arguments;
  - `tools`, `resources`, `auth`: what the MCP tools and resources answer;
  - `io`, `sandbox`, `builtins`, `executor`, `mcp_client`: the limits and
    rules of the script runtime;
  - `text`, `json`, `namemap`, `order`: strings, JSON values, maps and
    sorting with exact specifications.
- `app/` is the program around it: the command line, reading specs and the
  configuration file, the Luau runtime, HTTP requests and the MCP server.
  It holds no rule of its own; every decision is a call into the library.
- `tests/` runs the library on concrete inputs.
