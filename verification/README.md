# rgb_contract_op

The contract operations of RGB's instruction set extension to AluVM, as a
Verus-verified library.

- `src/op.rs` – the operations, their instruction codes, cost, and the
  registers they read and write.
- `src/codec.rs` – their bytecode: an 8-bit code followed by fixed-width
  argument fields, written and read through AluVM's cursor
  (`src/cursor.rs`, `src/bits.rs`), with the round-trip laws.
- `src/exec.rs` – their execution on a register model (`src/regs.rs`)
  against the state of the operation and of its contract
  (`src/context.rs`); signature checks go to `secp256k1` (`src/sig.rs`).
- `app/lib.rs` – the AluVM `InstructionSet` and `Bytecode` impls, mnemonics,
  and register conversion.
