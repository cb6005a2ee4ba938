# mcp_maxchar_length

Character limits for the arguments of MCP `tools/call` requests, as a gateway
policy. A violation is answered with JSON-RPC `-32602 Invalid params` before
any upstream is reached; every other MCP method passes through.

Layout:

- `src/` — the verified library:
  - `text.rs`: character vectors, decimal rendering, Unicode whitespace trimming;
  - `json.rs`: the JSON value that the checks read, and its character total;
  - `config.rs`: the raw and the validated configuration, `PolicyConfig::from_config`;
  - `argcheck.rs`: the per-field and total checks, their messages, and the laws
    that the check passes exactly when every string is within its limit and that
    it reads strings only through their lengths;
  - `filter.rs`: routing, the transport checks and the JSON-RPC envelope checks;
    no answer carries a string value of the request.
- `app/` — the gateway glue: configuration and body parsing, the PDK entrypoint,
  the request filter and the JSON answers.
- `tests/` — the test suites.
