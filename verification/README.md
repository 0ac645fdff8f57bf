# vela_core

A WebAssembly Component Model optimizer, verified with Verus.

Each core module of a component is optimized on its own, then the component
is put back together:

- **DCE** (dead code elimination) removes the functions that no root reaches
  through the call graph (roots: imported and exported functions, start
  functions, functions placed in tables).
- **DFE** (duplicate function elimination) redirects each reachable function
  to the first reachable function with the same type and body bytes.
- **RUME** removes tables, memories and globals (imported or defined) that are
  not used.

Index maps are built for every index space that loses an entry, and the
module is re-encoded with every index reference rewritten.

## Layout

- `src/` — the library. Reading goes through `wasmparser` and writing through
  `wasm-encoder`; each call into them is a small trusted function in
  `src/wasm.rs` and `src/encode.rs`. Everything else is verified:
  - `callgraph.rs`: call graph from the operators of each body, reachability;
  - `dce.rs`: roots and the reachable set (a worklist search, proved to
    compute exactly the functions reachable from the roots);
  - `dfe.rs`: duplicate detection, stated exactly over type indices and body
    bytes;
  - `rume.rs`: which tables, memories and globals are used;
  - `renumber.rs`: index maps (compaction after redirects) and the rebuild of
    a module;
  - `component.rs`: walking a component and replacing its core modules; the
    output is stated as the component header followed by framed sections,
    each copied from the input or made by the module callback from part of
    the input;
  - `lib.rs`: the plan that the enabled passes make, and the laws that tie the
    passes together (no removed function is left as a call target, roots
    survive dead code elimination, exported elements survive, a component is
    copied when every pass is disabled);
  - `report.rs`: sizes as text and a summary of a binary, for the command line.
- `tests/` — tests of the library.
- `app/` — the `vela` command line (`optimize`, `info`).
