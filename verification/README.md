# librespectrum

A ZX Spectrum emulation library whose logic is verified with Verus.

- `bus`: bus lines with an owner, the CPU bus, the half T-cycle clock, the task scheduler
  (tasks resumed in time order, each wake-up at or after the current clock) and a ring buffer.
- `cpu`: Z80 tokens, the streaming instruction decoder, mnemonics, the disassembler, flags,
  the ALU, the register file (`state`) and instruction semantics (`exec`): each instruction is
  specified by the bus operations it performs before its computation, the state it leaves and
  the bus operations that follow. `laws` proves properties that span instructions.
- `devs`: the CPU as a machine-cycle engine driving the bus T-state by T-state (with a record
  of every instruction it carries out, each as `exec` specifies), 48K memories, breakpoints,
  the bus logger, the device manager and `Machine`, which runs them all under the scheduler;
  and the logic of the debugger views: instruction navigation for the disassembly view, the
  cursor and scrolling of the memory view, and the lanes of the bus scope.
- `gfx`: attributes, the palette and the frame buffer of the screen.
- `misc`: word cells and a push-only ring buffer.

`app/` holds the command-line disassembler.
