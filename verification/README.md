# rust_sleigh

A verified library for lifting machine code to p-code with the SLEIGH processor
descriptions that Ghidra compiles (`.sla` files, together with the `.ldefs`,
`.pspec` and `.cspec` files of a processor).

`src/` is the library, written in Verus. Its functions carry contracts that Verus
proves, except a few small trusted wrappers around `String`, `Arc`, slice swapping,
`bitvec`, `roxmltree` and `object`, whose contracts are stated from those libraries'
documentation and source and believed without proof:

- `xml` and `sla_syntax`: a tokenizer for the `.sla` format and the decoders that read
  a program of spaces, symbols, constructors and decision trees from its tags;
- `arch`: processor and compiler specifications (registers, prototypes, stack
  pointer) read from the XML of the `.pspec`, `.cspec` and `.ldefs` files;
- `sla_parser`: the language a decoded program describes (symbols, register tables,
  varnode names);
- `symbol_resolver`: matching the instruction bytes against the decision trees and
  constructors, with the context register;
- `pcode_builder`: building the p-code ops and the assembly text of a resolved
  instruction;
- `disassembler`: decoding one instruction, and walking a buffer;
- `binary`: the code sections of an object file (read with the `object` crate) and the
  windows of them that lifting covers;
- `sleigh`: addresses, sequence numbers, varnodes, opcodes and ops of the lifter;
- `ghidra`: the types of the decompiler library's interface (compound varnodes,
  p-code ops, SSA version bookkeeping).

`app/` holds the command-line program: it reads the files, hands their contents to the
library, and prints what the library lifts.
