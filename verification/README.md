# celguard

Request filtering for a Traefik plugin, with rules written in the Common
Expression Language (CEL). The library under `src/` is verified with Verus;
`app/` is the WebAssembly plugin around it (host calls, YAML configuration,
logging).

Layout of `src/`:

- `text`: character-level helpers (ASCII and Unicode lower-casing, trimming, UTF-8).
- `address`: reading the client IP from the reported socket address.
- `request`: the request and its header table, as the rules see them.
- `lexer`: the subset of CEL programs that the library runs, read outside string literals and comments.
- `engine`: compiling and running CEL programs (through the `cel` crate); programs outside
  the `lexer` subset compile but are declined when run.
- `config`: rules, actions and settings.
- `matcher`: choosing the rule that answers a request.
- `reply`: turning an action into calls on the host's response.
- `agent`: a table of named actions.
