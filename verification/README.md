# r2e-macros

The procedural macros of the r2e web framework (`#[bean]`, `#[controller]`,
`#[routes]`, `#[producer]`, `#[module]`, `#[r2e::main]`, `#[r2e::test]`,
`#[r2e::test_suite]`, `#[grpc_routes]` and the derives `ConfigProperties`,
`Params`, `ApiError`, `FromMultipart`, `ProvideBundle`, ...) split into two
parts:

- `src/` is a library, verified with Verus, that holds the decisions the
  macros make: how attributes and their arguments are read, which
  declarations are refused and with which diagnostic, how names are derived,
  how types are classified, and plans of what the macros generate (for
  `#[routes]`: where each method is emitted, the parameters, guards and
  validation of each handler, the WebSocket upgrade adapters and the
  `Controller` impl). Arguments of `#[r2e::main]`, `#[r2e::test]` and
  `#[r2e::test_suite]` that configure the async runtime are taken as
  already read. It works
  on a plain model of the syntax (`attrs::Attr`, `types::Ty`, `sig::Sig`,
  ...) and states each function's result in its contract. Properties that
  span functions are proved as `lemma_*` proof functions next to the code
  they speak of.
- `app/` is ordinary Rust around it: it reads `syn` syntax trees into the
  library's model, supplies the readings that only `syn` can parse, turns the
  library's refusals into spanned `syn::Error`s and writes the generated
  items with `quote!`. It writes the items of `#[bean]`, `#[controller]`,
  `#[grpc_routes]`, `#[module]`, `#[producer]`, `ProvideBundle` and
  `ObjectParams`; for the other macros it has no emitter yet, and the
  library's plans are what there is of them.

Calls into outside crates that the decisions depend on (`cron` to validate
schedules, `syn` to check that a string parses as an identifier or a path,
and the standard library's Unicode case mappings) stand in `src/` behind
small trusted wrappers whose contracts say what the library relies on.

`tests/` exercises the library on concrete inputs.
