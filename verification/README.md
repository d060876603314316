# rshehe

A cycle-level model of a small RV64I processor core, written in Verus: every
pipeline unit is verified against a specification of what it does each cycle.

- `src/buffers`: the delay FIFO that every stage uses, an n-to-m arbiter and a
  pseudo-LRU buffer.
- `src/instr`: instruction formats, the decoder and the in-flight instruction.
- `src/memory`: byte-addressed memory (with hex image loading) and the register
  files.
- `src/frontend`: fetch (program-counter choice, instruction-word read) and decode;
  after power-on the decode stage rests for one cycle once it has taken its first
  instruction.
- `src/backend`: issue and commit, the arithmetic, branch, control-status and
  load-store units, and a multiply-divide unit.
- `src/bpu`: branch prediction state machines, a global-history predictor and a
  branch target buffer.
- `src/lib.rs`: the whole core, `HeHeCore`.
- `app/main.rs`: reads hex images from files and runs the core, asking
  `HeHeCore::cycle_ok` before each cycle.

`tests/isatest_rv64ui.rs` runs one self-checking program per RV64I instruction on
the core, built by a small assembler in that file (loads and stores use positive
and negative offsets); a program passes when it writes 1 to the host-communication
word.
