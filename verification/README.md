# chip8_core

A CHIP-8 virtual machine whose behaviour is stated in Verus contracts and
proved.

- `src/state.rs`: the mathematical model of the machine (`Chip8View`), the
  fresh state, program loading, timers and opcode fetch.
- `src/instruction.rs`: the instruction set and `decode`, which turns a
  16-bit opcode into an `Instruction` or rejects it.
- `src/semantics.rs`: what each instruction does (`execute_spec`), when it is
  defined (`instruction_ok`), and the CPU cycle (`tick_spec`).
- `src/emulator.rs`: `Emulator`, whose type invariant keeps the machine's
  shape and whose every operation is proved to act on its view as the model
  says.
- `src/frontend.rs`: keyboard layout, pixel scaling and frame timing of the
  desktop front end.
- `src/laws.rs`: properties across instructions and operations (push/pop,
  call/return, XOR drawing, BCD, register dump/load, flags, key wait,
  machine-code calls, timers over many ticks, font).
- `app/main.rs`: the SDL2 window, input and main loop.
