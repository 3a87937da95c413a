# gta5-script-decompiler

A decompiler for Grand Theft Auto 5 scripts (YSC files), written in Verus:
each function of the library carries a `requires`/`ensures` contract that
Verus proves.

## Layout

- `src/script`, `src/parser`: reading a script file (its header, code pages,
  string table, natives) and decoding byte code into instructions.
- `src/disassembler`: the instruction set used by the decompiler.
- `src/decompiler`:
  - `function.rs`: finding functions in a disassembly, making a function
    ready for decompilation, typing statements, combining the statements of
    nested constructs;
  - `function_graph.rs`, `graph.rs`, `dominance.rs`: the control flow graph of
    a function (nodes, edges, unreachable nodes dropped), its dominators and
    domination frontiers, and its diagram in the dot language;
  - `cfg_reducer.rs`, `control_flow.rs`: turning the graph into structured
    constructs (if, if/else, and/or, while, switch, break, continue);
  - `node_code.rs`: decompiling the instructions of one node of the graph
    into statements, on the symbolic stack;
  - `stack.rs`, `stack_entry.rs`, `value_type.rs`: the symbolic stack and the
    type slots that decompilation infers types in;
  - `script_statics.rs`, `script_globals.rs`, `decompiled/`: variables and
    decompiled functions.
- `src/common`: byte and text helpers, the list of parents kept by the
  reducer, and the bubble sort that orders switch cases.
- `src/formatters`: the assembly listing and the C++-like output.
- `src/resources`: the native hash cross map.
- `src/cli.rs`: the command line arguments.
- `app/`: the command line program (file input and output, argument parsing).
- `tests/`: tests of the library.
