# custom_pc

An emulator for a small 16-bit computer, with its assembler, a compiler for a
small subset of Rust, a debugger and ROM tools. The library under `src/` is
written in Verus: every function carries a contract over a mathematical model
of its data, and Verus proves the code against it.

- `cpu`, `decoder`, `executor`, `flags`, `registers`, `memory`, `bus`,
  `machine`: the machine. `step_spec` / `run_spec` say what one step and a run
  do; the bus buffers serial output and takes input from the host.
- `devices`: display, keyboard, serial port, timer and disk, each with a
  view; laws state FIFO order, sector round trips and the timer's count-down.
- `assembler`: lexer, parser, two-pass code generator, symbol table; `layout`
  proves that labels are byte offsets and that emitted instructions decode.
- `rsc`: lexer, parser and code generator of the Rust subset, and the linker,
  which is proved to resolve every label to its offset.
- `debugger`: breakpoints, disassembler (proved to agree with the decoder) and
  the monitor's commands.
- `image`: Intel HEX conversion (with a proved round trip) and ROM building.
- `utils`: bit operations, hex formatting and number parsing.

`app/` is the command-line front end (window, terminal, files); `tests/` runs
the library on concrete programs.
