# atlas

The component simulators and the assembler of the ATLAS logic-circuit simulator, verified
with Verus. The circuit itself (components placed on a canvas and wired together, and the
propagation of states along the wires) is not part of this crate.

- `src/pins.rs`: pin states and the conversions between lists of states and numbers.
- `src/components.rs`: the kinds of component, their names and slugs.
- `src/simulators.rs`: the high-level simulators of pins, switches, bulbs and junctions.
- `src/latches.rs`: SR and D latches, D flip-flops and multi-bit flip-flops.
- `src/memory.rs`: read only memory and writable memory of 16-bit words.
- `src/assembler/`: the AtlASM assembler: lexer, parser, label resolution, machine code and
  error texts.
- `src/gates.rs`, `src/graphics.rs`: the marker types that name how a gate or chip is drawn.
- `app/lib.rs`: the WebAssembly bindings.

Each simulator states, for every pin, what a read gives and what a write does; the laws that
span several calls (a flip-flop takes its data on a rising clock edge, memory gives back what
it stored, labels resolve to the addresses of their instructions) are proof functions beside
the code they speak of.
