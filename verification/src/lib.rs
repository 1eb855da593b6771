//! Contract operations of the RGB instruction set extension to AluVM: their
//! bytecode, their cost, the registers they use, and their execution against
//! the state of an operation and of its contract.
use vstd::prelude::*;

pub mod bits;
pub mod codec;
pub mod context;
pub mod cursor;
pub mod exec;
pub mod laws;
pub mod op;
pub mod opcodes;
pub mod regs;
pub mod sig;

pub use codec::{BytecodeError, CodeEof};
pub use cursor::{CodeReader, CodeWriter};
pub use context::{ContractState, OpInfo, OpKind, Outpoint, RevealedState, TypedAssigns, VmContext};
pub use exec::ExecStep;
pub use op::{ContractOp, Reg};
pub use regs::Registers;

verus! {
}
