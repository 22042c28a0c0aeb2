# asm_sim

An interpreter for a subset of x86_64 assembly in NASM Intel syntax, written in Verus:
every stage of the pipeline carries a contract, and Verus proves each stage against it.

Source text goes through four stages:

1. `lexer` turns bytes into tokens, each with its line (`scan_tokens` states the result).
2. `parser` turns tokens into labels, instructions and directives (`parse_tokens`).
3. `assembler` lays out symbols, the data segment and the instruction list
   (`assemble_lines`).
4. `cpu` runs the program one instruction at a time (`step_spec`, built on
   `semantics::execute_spec`), with memory, registers and the `read`, `write` and `exit`
   system calls.

Errors of every stage (`error::SimError`) are stated with their position and message.

`simulator::Simulator` puts the stages together: it builds a program from source, runs it
a step at a time or to the end, stops before breakpoint lines, and hands out output,
registers and memory (`sim_next` states a step).

## Layout

- `src/` the verified library.
  - `cpu/alu.rs` flag-computing arithmetic, logic, shifts and rotations.
  - `cpu/semantics.rs` what each instruction does, over sequences and integers.
  - `cpu/laws.rs` laws of the operations: round trips, what a compare tells each
    conditional jump, push/pop and call/ret.
  - `names.rs` case-insensitive register, mnemonic and keyword names.
  - `text.rs` numbers in decimal and hexadecimal.
  - `show.rs` operations, operands and tokens as messages and traces write them.
- `tests/` programs run through the whole pipeline, and unit checks of each stage.
- `app/` the browser interface: the library's `Simulator` exposed through `wasm-bindgen`.

Run `verus` on `src/lib.rs` to check the proofs.
