# fanin-mcp

A stdio-native MCP aggregator: many upstream MCP servers behind one endpoint
that exposes three meta-tools (`list_tools`, `get_tool_schema`,
`invoke_tool`), scoped by a namespace access list.

- `src/` is the verified core (Verus): configuration validation, namespace
  composition through `extends` and the namespace ACL, `${VAR}` credential
  templating with fail-closed resolution,
  secret redaction, display sanitization, the meta-tool decisions, the
  advertised table of contents, upstream stderr line capture, the `check`
  preflight, and `laws.rs`, the properties proved of the library as a whole.
- `app/` is the executable around it: the CLI, config file loading, the MCP
  server and client plumbing, process spawning and log files.
- `tests/` exercises the library on concrete inputs.

Not in this build: a persistent capability cache (the table of contents
carries server lines without cached tool hints), the Streamable-HTTP
upstream transport (such servers validate but are started like stdio
ones), an OS keychain credential backend (the process environment is the
only source), and Windows job-object containment.
