//! Instruction codes of the contract operations.
use vstd::prelude::*;

verus! {

/// First instruction code reserved for contract operations.
pub const INSTR_CONTRACT_FROM: u8 = 0b11_000_000;
/// Last instruction code reserved for contract operations.
pub const INSTR_CONTRACT_TO: u8 = 0b11_110_111;

pub const INSTR_CNP: u8 = 0b11_000_000;
pub const INSTR_CNS: u8 = 0b11_000_001;
pub const INSTR_CNG: u8 = 0b11_000_010;
pub const INSTR_CNC: u8 = 0b11_000_011;

pub const INSTR_LDM: u8 = 0b11_001_000;
pub const INSTR_LDP: u8 = 0b11_001_001;
pub const INSTR_LDS: u8 = 0b11_001_010;
pub const INSTR_LDF: u8 = 0b11_001_011;
pub const INSTR_LDG: u8 = 0b11_001_100;
pub const INSTR_LDC: u8 = 0b11_001_101;
pub const INSTR_LDR: u8 = 0b11_001_110;

pub const INSTR_SVS: u8 = 0b11_010_000;
pub const INSTR_SAS: u8 = 0b11_010_001;
pub const INSTR_SPS: u8 = 0b11_010_010;
pub const INSTR_VTS: u8 = 0b11_010_100;

pub const INSTR_LDOF: u8 = 0b11_011_000;
pub const INSTR_LDOD: u8 = 0b11_011_001;
pub const INSTR_LDOR: u8 = 0b11_011_010;

} // verus!
