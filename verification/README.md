# rupta

The data structures and decision procedures of a points-to analysis for Rust
MIR, as a Verus library whose functions carry contracts and are proved:

- `util`: growable bit vectors, index trees, chunked queues, the numbering of
  types, the statm record of memory use, the analysis options and the grammar
  of the command line that sets them (names, values, defaults), the search for
  the toolchain's system root, the spread of unsafety along calls and its
  counts by crate, and the statistics of call graphs by kind of call;
- `pts_set`: hybrid points-to sets (a small array that turns into a bit vector)
  and points-to maps, plain with reverse sets, or split into what is still to be
  propagated and what was;
- `mir`: function ids, call sites and the calls grouped by the pointer that
  decides their callees, calling contexts and their cache, memory paths and
  their projections, and the table of well known library functions;
- `graph`: the call graph, and what each function adds to the program
  assignment graph;
- `builder`: how calls to well known functions are handled;
- `pta`: context and flow strategies (call-site, object and hybrid contexts cut
  to `k` elements), how a dynamic `Fn*` trait call is resolved, and the stack
  filter, with the reachability relation of the call graph;
- `info_collector`, `rta`, `ssa_mir`: paths of sources and manifests, and the
  small state these parts keep;
- `cargo_pta`: what the `cargo pta` subcommand asks of `cargo`, and when the
  analysis stands in for the compiler.

`app/` holds the `cargo-pta` program (reading the command line and the
environment, running `cargo`, the compiler or the analysis), and what the
analysis driver does with files, threads, `cargo metadata` and serde; it prints
the help and exits where the library refuses a command line.
