# cola

A stack-based bytecode machine, verified with Verus.

- `src/opcode.rs`: the instruction set and its one-byte encoding.
- `src/machine.rs`: the machine state, the mathematical meaning of one step
  (`step_spec`), the conditions under which an instruction would panic
  (`fault_of`), and the executable `Machine::step` / `Machine::fault` proved
  against them.
- `src/laws.rs`: properties of the instruction set proved over `step_spec`.
- `app/main.rs`: the host program, which runs the loop, prints what the
  machine shows and reports errors.
- `tests/`: scenarios run on the compiled library.
