//! The contract operations of the RGB instruction set extension, their
//! instruction codes, their cost and the registers they read and write.
use vstd::prelude::*;

use crate::opcodes::{
    INSTR_CONTRACT_FROM, INSTR_CONTRACT_TO,
    INSTR_CNC, INSTR_CNG, INSTR_CNP, INSTR_CNS, INSTR_LDC, INSTR_LDF, INSTR_LDG, INSTR_LDM, INSTR_LDOD,
    INSTR_LDOF, INSTR_LDOR, INSTR_LDP, INSTR_LDR, INSTR_LDS, INSTR_SAS, INSTR_SPS, INSTR_SVS, INSTR_VTS,
};

verus! {

/// A contract operation.
///
/// State types (assignment, global and metadata types) are 16-bit numbers.
/// Register indexes are plain numbers: the counting operations (`Cn*`) name
/// one of 32 arithmetic registers, every other register argument names one of
/// the first 16 registers of its bank (see [`ContractOp::wf`]).
#[derive(Clone, Copy, PartialEq, Eq, Structural, Debug, Hash, PartialOrd, Ord)]
pub enum ContractOp {
    /// Counts the inputs (previous state entries) of an assignment type into
    /// an `a16` register.
    CnP(u16, u8),
    /// Counts the outputs (owned state entries) of an assignment type into an
    /// `a16` register.
    CnS(u16, u8),
    /// Counts the global state items of a type defined by the current
    /// operation into an `a8` register.
    CnG(u16, u8),
    /// Counts the global state items of a type in the contract state into an
    /// `a32` register.
    CnC(u16, u8),
    /// Loads an input structured state, indexed by an `a16` register, into an
    /// `s16` register.
    LdP(u16, u8, u8),
    /// Loads an owned structured state, indexed by an `a16` register, into an
    /// `s16` register.
    LdS(u16, u8, u8),
    /// Loads an owned fungible state, indexed by an `a16` register, into an
    /// `a64` register.
    LdF(u16, u8, u8),
    /// Checks that an owned declarative state exists at the index held by an
    /// `a16` register.
    LdR(u16, u8),
    /// Loads a global state item of the current operation, indexed by an `a8`
    /// register, into an `s16` register.
    LdG(u16, u8, u8),
    /// Loads a contract global state item at the depth held by an `a32`
    /// register into an `s16` register.
    LdC(u16, u8, u8),
    /// Loads operation metadata of a type into an `s16` register.
    LdM(u16, u8),
    /// Loads a fungible state of the contract at an outpoint (txid in `r256`,
    /// vout in `a32`, index in `a16`) into an `a64` register.
    LdOF(u16, u8, u8, u8, u8),
    /// Loads a structured state of the contract at an outpoint (txid in
    /// `r256`, vout in `a32`, index in `a16`) into an `s16` register.
    LdOD(u16, u8, u8, u8, u8),
    /// Counts the rights of the contract at an outpoint (txid in `r256`, vout
    /// in `a32`) into an `a32` register.
    LdOR(u16, u8, u8, u8),
    /// Verifies that the sums of fungible inputs and outputs of an assignment
    /// type are equal; fails when either side has no state of the type.
    Svs(u16),
    /// Verifies that the sum of fungible outputs of an assignment type equals
    /// `a64[0]`; fails when there is no such output.
    Sas(u16),
    /// Verifies that the sum of fungible inputs of an assignment type equals
    /// `a64[0]`; fails when there is no such input.
    Sps(u16),
    /// Verifies the transition signature against the public key held by an
    /// `s16` register.
    Vts(u8),
    /// Any other operation: fails the program.
    Fail(u8),
}

/// A register read or written by a contract operation, with its index.
#[derive(Clone, Copy, PartialEq, Eq, Structural, Debug, Hash, PartialOrd, Ord)]
pub enum Reg {
    A8(u8),
    A16(u8),
    A32(u8),
    A64(u8),
    R256(u8),
    S16(u8),
}

/// Whether `code` is the instruction code of one of the defined operations.
pub open spec fn is_defined_code(code: u8) -> bool {
    ||| code == INSTR_CNP
    ||| code == INSTR_CNS
    ||| code == INSTR_CNG
    ||| code == INSTR_CNC
    ||| code == INSTR_LDM
    ||| code == INSTR_LDP
    ||| code == INSTR_LDS
    ||| code == INSTR_LDF
    ||| code == INSTR_LDG
    ||| code == INSTR_LDC
    ||| code == INSTR_LDR
    ||| code == INSTR_SVS
    ||| code == INSTR_SAS
    ||| code == INSTR_SPS
    ||| code == INSTR_VTS
    ||| code == INSTR_LDOF
    ||| code == INSTR_LDOD
    ||| code == INSTR_LDOR
}

impl ContractOp {
    /// The register arguments are in range of their bank, and a failing
    /// operation does not carry the code of a defined operation.
    pub open spec fn wf(self) -> bool {
        match self {
            ContractOp::CnP(_, r) | ContractOp::CnS(_, r) | ContractOp::CnG(_, r)
            | ContractOp::CnC(_, r) => r < 32,
            ContractOp::LdP(_, a, b) | ContractOp::LdS(_, a, b) | ContractOp::LdF(_, a, b)
            | ContractOp::LdG(_, a, b) | ContractOp::LdC(_, a, b) => a < 16 && b < 16,
            ContractOp::LdR(_, a) | ContractOp::LdM(_, a) => a < 16,
            ContractOp::LdOF(_, a, b, c, d) | ContractOp::LdOD(_, a, b, c, d) => a < 16 && b < 16
                && c < 16 && d < 16,
            ContractOp::LdOR(_, a, b, c) => a < 16 && b < 16 && c < 16,
            ContractOp::Svs(_) | ContractOp::Sas(_) | ContractOp::Sps(_) => true,
            ContractOp::Vts(r) => r < 16,
            ContractOp::Fail(code) => !is_defined_code(code),
        }
    }

    /// The instruction code of the operation.
    pub open spec fn spec_instr_byte(self) -> u8 {
        match self {
            ContractOp::CnP(..) => INSTR_CNP,
            ContractOp::CnS(..) => INSTR_CNS,
            ContractOp::CnG(..) => INSTR_CNG,
            ContractOp::CnC(..) => INSTR_CNC,
            ContractOp::LdG(..) => INSTR_LDG,
            ContractOp::LdS(..) => INSTR_LDS,
            ContractOp::LdP(..) => INSTR_LDP,
            ContractOp::LdF(..) => INSTR_LDF,
            ContractOp::LdR(..) => INSTR_LDR,
            ContractOp::LdC(..) => INSTR_LDC,
            ContractOp::LdM(..) => INSTR_LDM,
            ContractOp::LdOF(..) => INSTR_LDOF,
            ContractOp::LdOD(..) => INSTR_LDOD,
            ContractOp::LdOR(..) => INSTR_LDOR,
            ContractOp::Svs(..) => INSTR_SVS,
            ContractOp::Sas(..) => INSTR_SAS,
            ContractOp::Sps(..) => INSTR_SPS,
            ContractOp::Vts(..) => INSTR_VTS,
            ContractOp::Fail(other) => other,
        }
    }

    /// Returns the byte that encodes the operation code.
    pub fn instr_byte(&self) -> (b: u8)
        ensures
            b == self.spec_instr_byte(),
    {
        match self {
            ContractOp::CnP(_, _) => INSTR_CNP,
            ContractOp::CnS(_, _) => INSTR_CNS,
            ContractOp::CnG(_, _) => INSTR_CNG,
            ContractOp::CnC(_, _) => INSTR_CNC,
            ContractOp::LdG(_, _, _) => INSTR_LDG,
            ContractOp::LdS(_, _, _) => INSTR_LDS,
            ContractOp::LdP(_, _, _) => INSTR_LDP,
            ContractOp::LdF(_, _, _) => INSTR_LDF,
            ContractOp::LdR(_, _) => INSTR_LDR,
            ContractOp::LdC(_, _, _) => INSTR_LDC,
            ContractOp::LdM(_, _) => INSTR_LDM,
            ContractOp::LdOF(_, _, _, _, _) => INSTR_LDOF,
            ContractOp::LdOD(_, _, _, _, _) => INSTR_LDOD,
            ContractOp::LdOR(_, _, _, _) => INSTR_LDOR,
            ContractOp::Svs(_) => INSTR_SVS,
            ContractOp::Sas(_) => INSTR_SAS,
            ContractOp::Sps(_) => INSTR_SPS,
            ContractOp::Vts(_) => INSTR_VTS,
            ContractOp::Fail(other) => *other,
        }
    }

    /// The cost of executing the operation.
    pub open spec fn spec_complexity(self) -> u64 {
        match self {
            ContractOp::CnP(..) | ContractOp::CnS(..) | ContractOp::CnG(..)
            | ContractOp::CnC(..) => 2,
            ContractOp::LdP(..) | ContractOp::LdS(..) | ContractOp::LdF(..) | ContractOp::LdR(..)
            | ContractOp::LdG(..) | ContractOp::LdC(..) | ContractOp::LdOF(..)
            | ContractOp::LdOD(..) | ContractOp::LdOR(..) => 8,
            ContractOp::LdM(..) => 6,
            ContractOp::Svs(..) | ContractOp::Sas(..) | ContractOp::Sps(..) => 20,
            ContractOp::Vts(..) => 512,
            ContractOp::Fail(..) => u64::MAX,
        }
    }

    /// Returns the cost of executing the operation.
    pub fn complexity(&self) -> (c: u64)
        ensures
            c == self.spec_complexity(),
    {
        match self {
            ContractOp::CnP(_, _) | ContractOp::CnS(_, _) | ContractOp::CnG(_, _)
            | ContractOp::CnC(_, _) => 2,
            ContractOp::LdP(_, _, _) | ContractOp::LdS(_, _, _) | ContractOp::LdF(_, _, _)
            | ContractOp::LdR(_, _) | ContractOp::LdG(_, _, _) | ContractOp::LdC(_, _, _)
            | ContractOp::LdOF(_, _, _, _, _) | ContractOp::LdOD(_, _, _, _, _)
            | ContractOp::LdOR(_, _, _, _) => 8,
            ContractOp::LdM(_, _) => 6,
            ContractOp::Svs(_) | ContractOp::Sas(_) | ContractOp::Sps(_) => 20,
            ContractOp::Vts(_) => 512,
            ContractOp::Fail(_) => u64::MAX,
        }
    }

    /// The registers the operation reads, each listed once (`Vts` reads the
    /// public key in its `s16` argument).
    pub open spec fn spec_src_regs(self) -> Seq<Reg> {
        match self {
            ContractOp::LdP(_, r, _) | ContractOp::LdF(_, r, _) | ContractOp::LdR(_, r)
            | ContractOp::LdS(_, r, _) => seq![Reg::A16(r)],
            ContractOp::LdG(_, r, _) => seq![Reg::A8(r)],
            ContractOp::LdC(_, r, _) => seq![Reg::A32(r)],
            ContractOp::LdOF(_, t, v, i, _) | ContractOp::LdOD(_, t, v, i, _) => seq![
                Reg::R256(t),
                Reg::A32(v),
                Reg::A16(i),
            ],
            ContractOp::LdOR(_, t, v, _) => seq![Reg::R256(t), Reg::A32(v)],
            ContractOp::Sas(_) | ContractOp::Sps(_) => seq![Reg::A64(0)],
            ContractOp::Vts(r) => seq![Reg::S16(r)],
            _ => Seq::empty(),
        }
    }

    /// The registers the operation may write, each listed once (`CnC` counts
    /// into an `a32` register).
    pub open spec fn spec_dst_regs(self) -> Seq<Reg> {
        match self {
            ContractOp::CnG(_, r) => seq![Reg::A8(r)],
            ContractOp::CnP(_, r) | ContractOp::CnS(_, r) => seq![Reg::A16(r)],
            ContractOp::CnC(_, r) => seq![Reg::A32(r)],
            ContractOp::LdF(_, _, r) | ContractOp::LdOF(_, _, _, _, r) => seq![Reg::A64(r)],
            ContractOp::LdOR(_, _, _, r) => seq![Reg::A32(r)],
            ContractOp::LdG(_, _, r) | ContractOp::LdS(_, _, r) | ContractOp::LdP(_, _, r)
            | ContractOp::LdC(_, _, r) | ContractOp::LdM(_, r) | ContractOp::LdOD(_, _, _, _, r) => seq![
                Reg::S16(r),
            ],
            _ => Seq::empty(),
        }
    }

    /// Returns the registers the operation reads, each once.
    pub fn src_regs(&self) -> (regs: Vec<Reg>)
        ensures
            regs@ == self.spec_src_regs(),
    {
        let mut regs: Vec<Reg> = Vec::new();
        match self {
            ContractOp::LdP(_, r, _) | ContractOp::LdF(_, r, _) | ContractOp::LdR(_, r)
            | ContractOp::LdS(_, r, _) => {
                regs.push(Reg::A16(*r));
            },
            ContractOp::LdG(_, r, _) => {
                regs.push(Reg::A8(*r));
            },
            ContractOp::LdC(_, r, _) => {
                regs.push(Reg::A32(*r));
            },
            ContractOp::LdOF(_, t, v, i, _) | ContractOp::LdOD(_, t, v, i, _) => {
                regs.push(Reg::R256(*t));
                regs.push(Reg::A32(*v));
                regs.push(Reg::A16(*i));
            },
            ContractOp::LdOR(_, t, v, _) => {
                regs.push(Reg::R256(*t));
                regs.push(Reg::A32(*v));
            },
            ContractOp::Sas(_) | ContractOp::Sps(_) => {
                regs.push(Reg::A64(0));
            },
            ContractOp::Vts(r) => {
                regs.push(Reg::S16(*r));
            },
            _ => {},
        }
        regs
    }

    /// Returns the registers the operation writes, each once.
    pub fn dst_regs(&self) -> (regs: Vec<Reg>)
        ensures
            regs@ == self.spec_dst_regs(),
    {
        let mut regs: Vec<Reg> = Vec::new();
        match self {
            ContractOp::CnG(_, r) => {
                regs.push(Reg::A8(*r));
            },
            ContractOp::CnP(_, r) | ContractOp::CnS(_, r) => {
                regs.push(Reg::A16(*r));
            },
            ContractOp::CnC(_, r) => {
                regs.push(Reg::A32(*r));
            },
            ContractOp::LdF(_, _, r) | ContractOp::LdOF(_, _, _, _, r) => {
                regs.push(Reg::A64(*r));
            },
            ContractOp::LdOR(_, _, _, r) => {
                regs.push(Reg::A32(*r));
            },
            ContractOp::LdG(_, _, r) | ContractOp::LdS(_, _, r) | ContractOp::LdP(_, _, r)
            | ContractOp::LdC(_, _, r) | ContractOp::LdM(_, r) | ContractOp::LdOD(_, _, _, _, r) => {
                regs.push(Reg::S16(*r));
            },
            _ => {},
        }
        regs
    }
}

/// Law: every defined operation has an instruction code in the range
/// reserved for contract operations, and distinct kinds of operations have
/// distinct codes.
pub proof fn lemma_instr_byte_in_range(op: ContractOp, other: ContractOp)
    ensures
        !(op is Fail) ==> INSTR_CONTRACT_FROM <= op.spec_instr_byte() <= INSTR_CONTRACT_TO
            && is_defined_code(op.spec_instr_byte()),
        !(op is Fail) && !(other is Fail) && op.spec_instr_byte() == other.spec_instr_byte() ==> (
        op is CnP <==> other is CnP) && (op is CnS <==> other is CnS) && (op is CnG <==> other is CnG)
            && (op is CnC <==> other is CnC) && (op is LdP <==> other is LdP) && (op is LdS
            <==> other is LdS) && (op is LdF <==> other is LdF) && (op is LdR <==> other is LdR)
            && (op is LdG <==> other is LdG) && (op is LdC <==> other is LdC) && (op is LdM
            <==> other is LdM) && (op is LdOF <==> other is LdOF) && (op is LdOD <==> other is LdOD)
            && (op is LdOR <==> other is LdOR) && (op is Svs <==> other is Svs) && (op is Sas
            <==> other is Sas) && (op is Sps <==> other is Sps) && (op is Vts <==> other is Vts),
{
}

} // verus!
