# blazingly-aasa-mcp

Apple Universal Links diagnostics, as an MCP server and as a command line: it reads a domain's
`apple-app-site-association` file and answers "why doesn't this link open my app?".

## Layout

- `src/` is the library, written in Verus and verified.
  - `fetch.rs`: which URL each source reads, the hostname policy, and what a read yields from
    what the network answered (status, headers, body, refusals).
  - `resolver.rs`: the public-address policy for resolved addresses and the resolver's screening
    step.
  - `tools.rs`: the five tools, over the `blazingly-aasa` crate, which is reached through
    trusted wrappers whose results are named and whose documented facts are stated.
  - `render.rs`: the plain-text report of every result, each with an exact specification.
  - `cli.rs`: flag parsing and command planning.
  - `mcp.rs`: argument handling of the MCP tools.
  - `text.rs`: the string and character helpers the rest is built from.
- `app/` is ordinary Rust: `main`, file and stdin reads, the HTTPS client, DNS lookups, the MCP
  catalog and serialization.
- `tests/` runs the library against the real outside crates.
