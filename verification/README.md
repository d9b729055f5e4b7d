# chitin

Typed RPC definitions written in Rust, turned into a Rust server trait and a
TypeScript client class per router.

- `src/` — the verified library (Verus):
  - `lib.rs`: the router tree (`ChitinEntry`, `Leaf`, `Argument`) and the
    generation options;
  - `codegen.rs`: the code generators, with the generated text stated as
    spec functions;
  - `chitin_util.rs`, `util.rs`: the routing JSON of a request and the
    TypeScript spelling of Rust types;
  - `derive.rs`, `model.rs`: the decisions of the router derive and of the
    model attribute, on plain descriptions of the syntax;
  - `case.rs`, `pattern.rs`: the calls into `Inflector` and `regex`;
  - `text.rs`: joining and concatenating text.
- `app/` — syntax trees, token streams and output streams around the library.
- `tests/` — tests of the library.
