//! The registers of the virtual machine that contract operations read and
//! write: four banks of 32 arithmetic registers (8, 16, 32 and 64 bits), 32
//! registers of 256 bits, 16 byte-string registers, and the status flag.
use vstd::prelude::*;

use crate::op::Reg;

verus! {

/// The registers contract operations use. An empty register holds `None`.
pub struct Registers {
    pub a8: [Option<u8>; 32],
    pub a16: [Option<u16>; 32],
    pub a32: [Option<u32>; 32],
    pub a64: [Option<u64>; 32],
    pub r256: [Option<[u8; 32]>; 32],
    pub s16: [Option<Vec<u8>>; 16],
    /// The status flag: `false` once an operation has failed.
    pub st0: bool,
}

/// The contents of [`Registers`].
pub struct RegsView {
    pub a8: Seq<Option<u8>>,
    pub a16: Seq<Option<u16>>,
    pub a32: Seq<Option<u32>>,
    pub a64: Seq<Option<u64>>,
    pub r256: Seq<Option<[u8; 32]>>,
    pub s16: Seq<Option<Seq<u8>>>,
    pub st0: bool,
}

/// The contents of an optional byte string.
pub open spec fn bytes_view(o: Option<Vec<u8>>) -> Option<Seq<u8>> {
    match o {
        Some(v) => Some(v@),
        None => None,
    }
}

impl View for Registers {
    type V = RegsView;

    open spec fn view(&self) -> RegsView {
        RegsView {
            a8: self.a8@,
            a16: self.a16@,
            a32: self.a32@,
            a64: self.a64@,
            r256: self.r256@,
            s16: self.s16@.map_values(|o: Option<Vec<u8>>| bytes_view(o)),
            st0: self.st0,
        }
    }
}

/// The value a register holds: a number, 256 bits or a byte string.
pub enum RegValue {
    Number(Option<int>),
    Bits(Option<[u8; 32]>),
    Bytes(Option<Seq<u8>>),
}

/// The value register `reg` holds in `r`.
pub open spec fn reg_value(r: RegsView, reg: Reg) -> RegValue {
    match reg {
        Reg::A8(i) => RegValue::Number(
            match r.a8[i as int] {
                Some(v) => Some(v as int),
                None => None,
            },
        ),
        Reg::A16(i) => RegValue::Number(
            match r.a16[i as int] {
                Some(v) => Some(v as int),
                None => None,
            },
        ),
        Reg::A32(i) => RegValue::Number(
            match r.a32[i as int] {
                Some(v) => Some(v as int),
                None => None,
            },
        ),
        Reg::A64(i) => RegValue::Number(
            match r.a64[i as int] {
                Some(v) => Some(v as int),
                None => None,
            },
        ),
        Reg::R256(i) => RegValue::Bits(r.r256[i as int]),
        Reg::S16(i) => RegValue::Bytes(r.s16[i as int]),
    }
}

/// Whether `reg` names a register of its bank.
pub open spec fn reg_in_range(reg: Reg) -> bool {
    match reg {
        Reg::S16(i) => i < 16,
        Reg::A8(i) | Reg::A16(i) | Reg::A32(i) | Reg::A64(i) | Reg::R256(i) => i < 32,
    }
}

/// The register banks have their sizes.
pub open spec fn regs_wf(r: RegsView) -> bool {
    &&& r.a8.len() == 32
    &&& r.a16.len() == 32
    &&& r.a32.len() == 32
    &&& r.a64.len() == 32
    &&& r.r256.len() == 32
    &&& r.s16.len() == 16
}

impl Registers {
    /// Registers that are all empty, with the status flag set.
    pub fn new() -> (r: Registers)
        ensures
            regs_wf(r@),
            r@.st0,
            forall|i: int| 0 <= i < 32 ==> r@.a8[i] is None && r@.a16[i] is None && r@.a32[i] is None
                && r@.a64[i] is None && r@.r256[i] is None,
            forall|i: int| 0 <= i < 16 ==> r@.s16[i] is None,
    {
        Registers {
            a8: [None;32],
            a16: [None;32],
            a32: [None;32],
            a64: [None;32],
            r256: [None;32],
            s16: [None, None, None, None, None, None, None, None, None, None, None, None, None, None, None, None],
            st0: true,
        }
    }
}

/// Every set of registers has banks of their sizes.
pub proof fn lemma_regs_wf(r: Registers)
    ensures
        regs_wf(r@),
{
}

} // verus!
