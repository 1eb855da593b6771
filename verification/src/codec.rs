//! The bytecode of contract operations: an 8-bit instruction code followed
//! by argument fields of fixed widths.
//!
//! | operations                              | argument fields (bits)        |
//! |-----------------------------------------|-------------------------------|
//! | `CnP`, `CnS`, `CnG`, `CnC`              | type 16, register 5, zero 3   |
//! | `LdP`, `LdS`, `LdF`, `LdG`, `LdC`       | type 16, register 4, register 4 |
//! | `LdR`, `LdM`                            | type 16, register 4, zero 4   |
//! | `LdOF`, `LdOD`                          | type 16, four registers of 4  |
//! | `LdOR`                                  | type 16, three registers of 4, zero 4 |
//! | `Svs`, `Sas`, `Sps`                     | type 16                       |
//! | `Vts`                                   | register 4                    |
//! | `Fail`                                  | none                          |
//!
//! Decoding ignores the zero padding fields; any code that is not the code of
//! a defined operation decodes as `Fail` with that code.
use aluvm::library::LibSeg;
use vstd::arithmetic::power2::{lemma2_to64, pow2};
use vstd::prelude::*;

use crate::bits::{
    all_clear, bits_le, bits_value, bytes_bits, lemma_bits_le_value, lemma_bits_value_bound,
    lemma_or_at_clear, lemma_or_at_concat, lemma_or_at_past_end, or_at,
};
use crate::cursor::{
    max_segment_bits, read_u16, read_u3, read_u4, read_u5, read_u8, reader_bits, reader_pos,
    write_u16, write_u3, write_u4, write_u5, write_u8, writer_bits, writer_pos, CodeReader,
    CodeWriter,
};
use crate::op::{is_defined_code, ContractOp};
use crate::opcodes::{
    INSTR_CNC, INSTR_CNG, INSTR_CNP, INSTR_CNS, INSTR_LDC, INSTR_LDF, INSTR_LDG, INSTR_LDM, INSTR_LDOD,
    INSTR_LDOF, INSTR_LDOR, INSTR_LDP, INSTR_LDR, INSTR_LDS, INSTR_SAS, INSTR_SPS, INSTR_SVS, INSTR_VTS,
};

verus! {

/// Error encoding an instruction: the code segment has no room left for it.
#[derive(Clone, Copy, PartialEq, Eq, Structural, Debug)]
pub enum BytecodeError {
    /// attempt to write outside of the code segment
    CodeNotFittingSegment,
}

/// Error decoding an instruction: the code segment ends before it does.
#[derive(Clone, Copy, PartialEq, Eq, Structural, Debug)]
pub struct CodeEof;

/// Widths of the argument fields that follow instruction code `code`.
pub open spec fn code_widths(code: u8) -> Seq<u8> {
    if code == INSTR_CNP || code == INSTR_CNS || code == INSTR_CNG || code == INSTR_CNC {
        seq![16u8, 5u8, 3u8]
    } else if code == INSTR_LDP || code == INSTR_LDS || code == INSTR_LDF || code == INSTR_LDG
        || code == INSTR_LDC || code == INSTR_LDR || code == INSTR_LDM {
        seq![16u8, 4u8, 4u8]
    } else if code == INSTR_LDOF || code == INSTR_LDOD || code == INSTR_LDOR {
        seq![16u8, 4u8, 4u8, 4u8, 4u8]
    } else if code == INSTR_SVS || code == INSTR_SAS || code == INSTR_SPS {
        seq![16u8]
    } else if code == INSTR_VTS {
        seq![4u8]
    } else {
        Seq::empty()
    }
}

/// Widths of the argument fields an operation writes.
pub open spec fn op_widths(op: ContractOp) -> Seq<u8> {
    match op {
        ContractOp::Fail(_) => Seq::empty(),
        _ => code_widths(op.spec_instr_byte()),
    }
}

/// Values of the argument fields an operation writes (padding is zero).
pub open spec fn op_values(op: ContractOp) -> Seq<u16> {
    match op {
        ContractOp::CnP(t, r) | ContractOp::CnS(t, r) | ContractOp::CnG(t, r)
        | ContractOp::CnC(t, r) => seq![t, r as u16, 0u16],
        ContractOp::LdP(t, a, b) | ContractOp::LdS(t, a, b) | ContractOp::LdF(t, a, b)
        | ContractOp::LdG(t, a, b) | ContractOp::LdC(t, a, b) => seq![t, a as u16, b as u16],
        ContractOp::LdR(t, a) | ContractOp::LdM(t, a) => seq![t, a as u16, 0u16],
        ContractOp::LdOF(t, a, b, c, d) | ContractOp::LdOD(t, a, b, c, d) => seq![
            t,
            a as u16,
            b as u16,
            c as u16,
            d as u16,
        ],
        ContractOp::LdOR(t, a, b, c) => seq![t, a as u16, b as u16, c as u16, 0u16],
        ContractOp::Svs(t) | ContractOp::Sas(t) | ContractOp::Sps(t) => seq![t],
        ContractOp::Vts(r) => seq![r as u16],
        ContractOp::Fail(_) => Seq::empty(),
    }
}

/// The operation with instruction code `code` and argument field values `v`.
pub open spec fn op_from_fields(code: u8, v: Seq<u16>) -> ContractOp {
    if code == INSTR_CNP {
        ContractOp::CnP(v[0], v[1] as u8)
    } else if code == INSTR_CNS {
        ContractOp::CnS(v[0], v[1] as u8)
    } else if code == INSTR_CNG {
        ContractOp::CnG(v[0], v[1] as u8)
    } else if code == INSTR_CNC {
        ContractOp::CnC(v[0], v[1] as u8)
    } else if code == INSTR_LDP {
        ContractOp::LdP(v[0], v[1] as u8, v[2] as u8)
    } else if code == INSTR_LDF {
        ContractOp::LdF(v[0], v[1] as u8, v[2] as u8)
    } else if code == INSTR_LDR {
        ContractOp::LdR(v[0], v[1] as u8)
    } else if code == INSTR_LDG {
        ContractOp::LdG(v[0], v[1] as u8, v[2] as u8)
    } else if code == INSTR_LDS {
        ContractOp::LdS(v[0], v[1] as u8, v[2] as u8)
    } else if code == INSTR_LDC {
        ContractOp::LdC(v[0], v[1] as u8, v[2] as u8)
    } else if code == INSTR_LDM {
        ContractOp::LdM(v[0], v[1] as u8)
    } else if code == INSTR_LDOF {
        ContractOp::LdOF(v[0], v[1] as u8, v[2] as u8, v[3] as u8, v[4] as u8)
    } else if code == INSTR_LDOD {
        ContractOp::LdOD(v[0], v[1] as u8, v[2] as u8, v[3] as u8, v[4] as u8)
    } else if code == INSTR_LDOR {
        ContractOp::LdOR(v[0], v[1] as u8, v[2] as u8, v[3] as u8)
    } else if code == INSTR_SVS {
        ContractOp::Svs(v[0])
    } else if code == INSTR_SAS {
        ContractOp::Sas(v[0])
    } else if code == INSTR_SPS {
        ContractOp::Sps(v[0])
    } else if code == INSTR_VTS {
        ContractOp::Vts(v[0] as u8)
    } else {
        ContractOp::Fail(code)
    }
}

/// Total width of fields of widths `w`.
pub open spec fn width_sum(w: Seq<u8>) -> nat
    decreases w.len(),
{
    if w.len() == 0 {
        0
    } else {
        width_sum(w.drop_last()) + w.last() as nat
    }
}

/// The bits of fields of values `v` and widths `w`, one after the other.
pub open spec fn fields_bits(v: Seq<u16>, w: Seq<u8>) -> Seq<bool>
    decreases w.len(),
{
    if w.len() == 0 {
        Seq::empty()
    } else {
        fields_bits(v.drop_last(), w.drop_last()) + bits_le(v.last() as nat, w.last() as nat)
    }
}

/// The values of fields of widths `w` at the start of `bits`.
pub open spec fn read_fields(bits: Seq<bool>, w: Seq<u8>) -> Seq<u16>
    decreases w.len(),
{
    if w.len() == 0 {
        Seq::empty()
    } else {
        read_fields(bits, w.drop_last()).push(
            bits_value(bits.subrange(width_sum(w.drop_last()) as int, width_sum(w) as int)) as u16,
        )
    }
}

/// The argument bits of an operation.
pub open spec fn args_bits(op: ContractOp) -> Seq<bool> {
    fields_bits(op_values(op), op_widths(op))
}

/// The bits of an operation: its instruction code, then its arguments.
pub open spec fn encode_bits(op: ContractOp) -> Seq<bool> {
    bits_le(op.spec_instr_byte() as nat, 8) + args_bits(op)
}

/// The operation at the start of `bits` and the number of bits it takes, or
/// `None` when `bits` end before it does.
pub open spec fn spec_decode(bits: Seq<bool>) -> Option<(ContractOp, nat)> {
    if bits.len() < 8 {
        None
    } else {
        let code = bits_value(bits.take(8)) as u8;
        let w = code_widths(code);
        if bits.len() < 8 + width_sum(w) {
            None
        } else {
            Some((op_from_fields(code, read_fields(bits.skip(8), w)), 8 + width_sum(w)))
        }
    }
}

/// Every value of `v` fits the width at its index in `w`, and widths are at
/// most 16.
pub open spec fn fields_fit(v: Seq<u16>, w: Seq<u8>) -> bool {
    &&& v.len() == w.len()
    &&& forall|i: int| 0 <= i < w.len() ==> w[i] <= 16 && (v[i] as nat) < pow2(w[i] as nat)
}

impl ContractOp {
    /// Every register argument is an index into its register bank.
    pub open spec fn regs_in_range(self) -> bool {
        match self {
            ContractOp::Fail(_) => true,
            _ => self.wf(),
        }
    }
}

proof fn lemma_width_sum_take(w: Seq<u8>, i: int)
    requires
        0 <= i < w.len(),
    ensures
        width_sum(w.take(i + 1)) == width_sum(w.take(i)) + w[i] as nat,
        width_sum(w.take(i + 1)) <= width_sum(w),
    decreases w.len(),
{
    assert(w.take(i + 1).drop_last() =~= w.take(i));
    if i + 1 < w.len() {
        lemma_width_sum_take(w.drop_last(), i);
        assert(w.drop_last().take(i + 1) =~= w.take(i + 1));
        assert(w.drop_last().take(i) =~= w.take(i));
    } else {
        assert(w.take(i + 1) =~= w);
    }
}

proof fn lemma_fields_bits_len(v: Seq<u16>, w: Seq<u8>)
    ensures
        fields_bits(v, w).len() == width_sum(w),
    decreases w.len(),
{
    if w.len() > 0 {
        lemma_fields_bits_len(v.drop_last(), w.drop_last());
    }
}

/// The bits of the first `j` fields are the start of the bits of all of them.
proof fn lemma_fields_bits_prefix(v: Seq<u16>, w: Seq<u8>, j: int)
    requires
        v.len() == w.len(),
        0 <= j <= w.len(),
    ensures
        width_sum(w.take(j)) <= width_sum(w),
        fields_bits(v.take(j), w.take(j)) =~= fields_bits(v, w).take(width_sum(w.take(j)) as int),
    decreases w.len(),
{
    lemma_fields_bits_len(v, w);
    lemma_fields_bits_len(v.take(j), w.take(j));
    if j == w.len() {
        assert(v.take(j) =~= v);
        assert(w.take(j) =~= w);
    } else {
        let v1 = v.drop_last();
        let w1 = w.drop_last();
        lemma_fields_bits_prefix(v1, w1, j);
        assert(v1.take(j) =~= v.take(j));
        assert(w1.take(j) =~= w.take(j));
        lemma_fields_bits_len(v1, w1);
    }
}

/// Reading the fields back from their bits gives their values.
pub proof fn lemma_read_fields_bits(v: Seq<u16>, w: Seq<u8>, rest: Seq<bool>)
    requires
        fields_fit(v, w),
    ensures
        read_fields(fields_bits(v, w) + rest, w) == v,
    decreases w.len(),
{
    if w.len() > 0 {
        let v1 = v.drop_last();
        let w1 = w.drop_last();
        let last = bits_le(v.last() as nat, w.last() as nat);
        let x = fields_bits(v, w) + rest;
        lemma_fields_bits_len(v1, w1);
        assert(x =~= fields_bits(v1, w1) + (last + rest));
        assert(fields_fit(v1, w1));
        lemma_read_fields_bits(v1, w1, last + rest);
        assert(x.subrange(width_sum(w1) as int, width_sum(w) as int) =~= last);
        lemma_bits_le_value(v.last() as nat, w.last() as nat);
        assert(read_fields(x, w) =~= v);
    }
}

proof fn lemma_op_layout(op: ContractOp)
    requires
        op.regs_in_range(),
    ensures
        fields_fit(op_values(op), op_widths(op)),
{
    lemma2_to64();
}

proof fn lemma_code_widths_fit(code: u8)
    ensures
        forall|i: int|
            0 <= i < code_widths(code).len() ==> 3 <= #[trigger] code_widths(code)[i] <= 16
                && (code_widths(code)[i] == 3 || code_widths(code)[i] == 4 || code_widths(code)[i]
                == 5 || code_widths(code)[i] == 16),
{
}

/// The fields read from bits long enough for them fit their widths.
proof fn lemma_read_fields_fit(bits: Seq<bool>, w: Seq<u8>)
    requires
        width_sum(w) <= bits.len(),
        forall|i: int| 0 <= i < w.len() ==> #[trigger] w[i] <= 16,
    ensures
        fields_fit(read_fields(bits, w), w),
    decreases w.len(),
{
    if w.len() > 0 {
        let w1 = w.drop_last();
        assert(forall|i: int| 0 <= i < w1.len() ==> #[trigger] w1[i] == w[i]);
        lemma_read_fields_fit(bits, w1);
        let piece = bits.subrange(width_sum(w1) as int, width_sum(w) as int);
        lemma_bits_value_bound(piece);
        lemma2_to64();
        if w.last() < 16 {
            vstd::arithmetic::power2::lemma_pow2_strictly_increases(w.last() as nat, 16);
        }
        let v = read_fields(bits, w);
        assert forall|i: int| 0 <= i < w.len() implies w[i] <= 16 && (v[i] as nat) < pow2(
            w[i] as nat,
        ) by {
            if i < w.len() - 1 {
                assert(v[i] == read_fields(bits, w1)[i]);
            }
        }
    }
}

/// Law: an operation whose registers are in range, and which is not a
/// failure carrying a defined code, decodes back from its bits, whatever
/// follows them, taking exactly its bits.
pub proof fn lemma_decode_encode(op: ContractOp, rest: Seq<bool>)
    requires
        op.wf(),
    ensures
        spec_decode(encode_bits(op) + rest) == Some((op, encode_bits(op).len())),
{
    let code = op.spec_instr_byte();
    let head = bits_le(code as nat, 8);
    let args = args_bits(op);
    let bits = encode_bits(op) + rest;
    lemma2_to64();
    lemma_op_layout(op);
    lemma_fields_bits_len(op_values(op), op_widths(op));
    assert(bits.take(8) =~= head);
    lemma_bits_le_value(code as nat, 8);
    assert(bits.skip(8) =~= args + rest);
    assert(code_widths(code) == op_widths(op));
    lemma_read_fields_bits(op_values(op), op_widths(op), rest);
    assert(op_from_fields(code, op_values(op)) == op);
}

/// Law: a decoded operation is well formed, carries the instruction code it
/// was read from, and its own bits are as long as what it was read from; so
/// it decodes back from its own bits (the padding of the bits it was read
/// from may differ).
pub proof fn lemma_decode_canonical(bits: Seq<bool>, rest: Seq<bool>)
    requires
        spec_decode(bits) is Some,
    ensures
        ({
            let (op, n) = spec_decode(bits).unwrap();
            &&& op.wf()
            &&& op.spec_instr_byte() as nat == bits_value(bits.take(8))
            &&& encode_bits(op).len() == n
            &&& spec_decode(encode_bits(op) + rest) == Some((op, n))
        }),
{
    lemma2_to64();
    lemma_bits_value_bound(bits.take(8));
    let code = bits_value(bits.take(8)) as u8;
    let w = code_widths(code);
    lemma_code_widths_fit(code);
    let vals = read_fields(bits.skip(8), w);
    lemma_read_fields_fit(bits.skip(8), w);
    let op = op_from_fields(code, vals);
    assert(op.wf());
    assert(op.spec_instr_byte() == code);
    assert(op_widths(op) == w);
    lemma_fields_bits_len(op_values(op), op_widths(op));
    lemma_decode_encode(op, rest);
}

/// Width of the zero padding field that ends the arguments after
/// instruction code `code` (none for most codes).
pub open spec fn padding_width(code: u8) -> nat {
    if code == INSTR_CNP || code == INSTR_CNS || code == INSTR_CNG || code == INSTR_CNC {
        3
    } else if code == INSTR_LDR || code == INSTR_LDM || code == INSTR_LDOR {
        4
    } else {
        0
    }
}

/// Number of leading bits of an instruction with code `code` that decoding
/// looks at: the code and every argument field but the padding.
pub open spec fn significant_bits(code: u8) -> int {
    8 + width_sum(code_widths(code)) - padding_width(code)
}

/// Fields read from bit strings that agree on the fields' bits are equal.
proof fn lemma_read_fields_agree(x: Seq<bool>, y: Seq<bool>, w: Seq<u8>)
    requires
        width_sum(w) <= x.len(),
        width_sum(w) <= y.len(),
        forall|i: int| 0 <= i < width_sum(w) ==> x[i] == y[i],
    ensures
        read_fields(x, w) == read_fields(y, w),
    decreases w.len(),
{
    if w.len() > 0 {
        let w1 = w.drop_last();
        lemma_read_fields_agree(x, y, w1);
        assert(x.subrange(width_sum(w1) as int, width_sum(w) as int) =~= y.subrange(
            width_sum(w1) as int,
            width_sum(w) as int,
        ));
    }
}

/// Law: decoding looks only at the instruction code and at the argument
/// fields other than the zero padding. Two bit strings of one length that
/// agree on those bits decode alike: a padding field that is not zero is
/// ignored, not refused, and what follows the instruction does not matter.
pub proof fn lemma_decode_ignores_padding(s1: Seq<bool>, s2: Seq<bool>)
    requires
        s1.len() == s2.len(),
        forall|i: int|
            0 <= i < s1.len() && i < significant_bits(bits_value(s1.take(8)) as u8) ==> s1[i]
                == s2[i],
    ensures
        spec_decode(s1) == spec_decode(s2),
{
    if s1.len() >= 8 {
        let code = bits_value(s1.take(8)) as u8;
        let w = code_widths(code);
        assert(s1.take(8) =~= s2.take(8)) by {
            assert(width_sum(w) >= padding_width(code)) by {
                reveal_with_fuel(width_sum, 6);
            }
        }
        if s1.len() >= 8 + width_sum(w) {
            let x = s1.skip(8);
            let y = s2.skip(8);
            reveal_with_fuel(width_sum, 6);
            reveal_with_fuel(read_fields, 6);
            if padding_width(code) > 0 {
                let w1 = w.drop_last();
                lemma_read_fields_agree(x, y, w1);
            } else {
                lemma_read_fields_agree(x, y, w);
            }
        }
    }
}

/// Law: an operation written into a clear part of a code segment reads back
/// from the position it was written at.
pub proof fn lemma_written_op_decodes(base: Seq<bool>, pos: nat, op: ContractOp)
    requires
        op.wf(),
        pos + encode_bits(op).len() <= base.len(),
        all_clear(base, pos, pos + encode_bits(op).len()),
    ensures
        spec_decode(or_at(base, pos, encode_bits(op)).skip(pos as int)) == Some(
            (op, encode_bits(op).len()),
        ),
{
    let written = or_at(base, pos, encode_bits(op));
    let n = encode_bits(op).len();
    lemma_or_at_clear(base, pos, encode_bits(op));
    let rest = written.skip((pos + n) as int);
    assert(written.skip(pos as int) =~= written.subrange(pos as int, (pos + n) as int) + rest);
    lemma_decode_encode(op, rest);
}

/// Writes field `v` of `width` bits.
fn write_field(w: &mut CodeWriter, v: u16, width: u8) -> (r: Result<(), aluvm::library::WriteError>)
    requires
        width == 3 || width == 4 || width == 5 || width == 16,
        (v as nat) < pow2(width as nat),
    ensures
        crate::cursor::write_effect(
            writer_bits(*old(w)),
            writer_pos(*old(w)),
            writer_bits(*final(w)),
            writer_pos(*final(w)),
            v as nat,
            width as nat,
            r is Ok,
        ),
{
    proof {
        lemma2_to64();
    }
    if width == 16 {
        write_u16(w, v)
    } else if width == 5 {
        write_u5(w, v as u8)
    } else if width == 4 {
        write_u4(w, v as u8)
    } else {
        write_u3(w, v as u8)
    }
}

/// Reads a field of `width` bits.
fn read_field(r: &mut CodeReader, width: u8) -> (res: Result<u16, aluvm::library::CodeEofError>)
    requires
        width == 3 || width == 4 || width == 5 || width == 16,
    ensures
        crate::cursor::read_effect(
            reader_bits(*old(r)),
            reader_pos(*old(r)),
            reader_bits(*final(r)),
            reader_pos(*final(r)),
            width as nat,
            match res {
                Ok(v) => Some(v as nat),
                Err(_) => None,
            },
        ),
{
    if width == 16 {
        read_u16(r)
    } else {
        let res = if width == 5 {
            read_u5(r)
        } else if width == 4 {
            read_u4(r)
        } else {
            read_u3(r)
        };
        match res {
            Ok(v) => Ok(v as u16),
            Err(e) => Err(e),
        }
    }
}

/// Returns the widths in bits of the argument fields that follow
/// instruction code `code`.
pub fn code_layout(code: u8) -> (w: Vec<u8>)
    ensures
        w@ == code_widths(code),
{
    let mut w: Vec<u8> = Vec::new();
    if code == INSTR_CNP || code == INSTR_CNS || code == INSTR_CNG || code == INSTR_CNC {
        w.push(16);
        w.push(5);
        w.push(3);
    } else if code == INSTR_LDP || code == INSTR_LDS || code == INSTR_LDF || code == INSTR_LDG
        || code == INSTR_LDC || code == INSTR_LDR || code == INSTR_LDM {
        w.push(16);
        w.push(4);
        w.push(4);
    } else if code == INSTR_LDOF || code == INSTR_LDOD || code == INSTR_LDOR {
        w.push(16);
        w.push(4);
        w.push(4);
        w.push(4);
        w.push(4);
    } else if code == INSTR_SVS || code == INSTR_SAS || code == INSTR_SPS {
        w.push(16);
    } else if code == INSTR_VTS {
        w.push(4);
    }
    assert(w@ =~= code_widths(code));
    w
}

impl ContractOp {
    /// Returns the values of the argument fields of the operation (padding
    /// is zero).
    pub fn arg_values(&self) -> (v: Vec<u16>)
        ensures
            v@ == op_values(*self),
    {
        let mut v: Vec<u16> = Vec::new();
        match self {
            ContractOp::CnP(t, r) | ContractOp::CnS(t, r) | ContractOp::CnG(t, r)
            | ContractOp::CnC(t, r) => {
                v.push(*t);
                v.push(*r as u16);
                v.push(0);
            },
            ContractOp::LdP(t, a, b) | ContractOp::LdS(t, a, b) | ContractOp::LdF(t, a, b)
            | ContractOp::LdG(t, a, b) | ContractOp::LdC(t, a, b) => {
                v.push(*t);
                v.push(*a as u16);
                v.push(*b as u16);
            },
            ContractOp::LdR(t, a) | ContractOp::LdM(t, a) => {
                v.push(*t);
                v.push(*a as u16);
                v.push(0);
            },
            ContractOp::LdOF(t, a, b, c, d) | ContractOp::LdOD(t, a, b, c, d) => {
                v.push(*t);
                v.push(*a as u16);
                v.push(*b as u16);
                v.push(*c as u16);
                v.push(*d as u16);
            },
            ContractOp::LdOR(t, a, b, c) => {
                v.push(*t);
                v.push(*a as u16);
                v.push(*b as u16);
                v.push(*c as u16);
                v.push(0);
            },
            ContractOp::Svs(t) | ContractOp::Sas(t) | ContractOp::Sps(t) => {
                v.push(*t);
            },
            ContractOp::Vts(r) => {
                v.push(*r as u16);
            },
            ContractOp::Fail(_) => {},
        }
        assert(v@ =~= op_values(*self));
        v
    }

    /// Returns the widths in bits of the argument fields of the operation.
    pub fn arg_widths(&self) -> (w: Vec<u8>)
        ensures
            w@ == op_widths(*self),
    {
        match self {
            ContractOp::Fail(_) => Vec::new(),
            _ => code_layout(self.instr_byte()),
        }
    }

    /// Writes the arguments of the operation (without its instruction code)
    /// at the writer's position.
    #[verifier::loop_isolation(false)]
    pub fn encode_args(&self, writer: &mut CodeWriter) -> (res: Result<(), BytecodeError>)
        requires
            self.regs_in_range(),
        ensures
            writer_bits(*final(writer)).len() == writer_bits(*old(writer)).len(),
            res is Ok ==> writer_bits(*final(writer)) == or_at(
                writer_bits(*old(writer)),
                writer_pos(*old(writer)),
                args_bits(*self),
            ) && writer_pos(*final(writer)) == writer_pos(*old(writer)) + args_bits(*self).len(),
            writer_bits(*old(writer)).len() <= max_segment_bits() ==> writer_bits(*final(writer))
                == or_at(writer_bits(*old(writer)), writer_pos(*old(writer)), args_bits(*self)),
            writer_bits(*old(writer)).len() <= max_segment_bits() && writer_pos(*old(writer))
                <= writer_bits(*old(writer)).len() ==> (res is Ok <==> writer_pos(*old(writer))
                + args_bits(*self).len() <= writer_bits(*old(writer)).len()),
    {
        let ghost b0 = writer_bits(*writer);
        let ghost p0 = writer_pos(*writer);
        let widths = self.arg_widths();
        let values = self.arg_values();
        proof {
            lemma_op_layout(*self);
            lemma_code_widths_fit(self.spec_instr_byte());
            lemma_fields_bits_len(values@, widths@);
            assert(widths@.take(0) =~= Seq::<u8>::empty());
            assert(values@.take(0) =~= Seq::<u16>::empty());
            assert(or_at(b0, p0, Seq::empty()) =~= b0);
        }
        let mut i: usize = 0;
        while i < widths.len()
            invariant
                widths@ == op_widths(*self),
                values@ == op_values(*self),
                fields_fit(values@, widths@),
                forall|k: int|
                    0 <= k < widths@.len() ==> (#[trigger] widths@[k] == 3 || widths@[k] == 4
                        || widths@[k] == 5 || widths@[k] == 16),
                0 <= i <= widths.len(),
                writer_bits(*writer).len() == b0.len(),
                writer_bits(*writer) == or_at(
                    b0,
                    p0,
                    fields_bits(values@.take(i as int), widths@.take(i as int)),
                ),
                writer_pos(*writer) == p0 + width_sum(widths@.take(i as int)),
                p0 <= b0.len() ==> p0 + width_sum(widths@.take(i as int)) <= b0.len(),
            decreases widths.len() - i,
        {
            let ghost bi = writer_bits(*writer);
            let ghost vi = values@.take(i as int);
            let ghost wi = widths@.take(i as int);
            let r = write_field(writer, values[i], widths[i]);
            proof {
                lemma_width_sum_take(widths@, i as int);
                lemma_fields_bits_len(vi, wi);
                lemma_fields_bits_len(values@, widths@);
            }
            if r.is_err() {
                assert(b0.len() <= max_segment_bits() ==> p0 + width_sum(widths@) > b0.len());
                assert(args_bits(*self) == fields_bits(values@, widths@));
                proof {
                    if b0.len() <= max_segment_bits() {
                        let piece = bits_le(values@[i as int] as nat, widths@[i as int] as nat);
                        let full = fields_bits(values@, widths@);
                        let len1 = width_sum(widths@.take(i + 1));
                        lemma_or_at_concat(b0, p0, fields_bits(vi, wi), piece);
                        assert(values@.take(i + 1).drop_last() =~= vi);
                        assert(widths@.take(i + 1).drop_last() =~= wi);
                        lemma_fields_bits_prefix(values@, widths@, i + 1);
                        assert(full =~= full.take(len1 as int) + full.skip(len1 as int));
                        lemma_or_at_past_end(b0, p0, full.take(len1 as int), full.skip(len1 as int));
                    }
                }
                return Err(BytecodeError::CodeNotFittingSegment);
            }
            proof {
                let piece = bits_le(values@[i as int] as nat, widths@[i as int] as nat);
                lemma_or_at_concat(b0, p0, fields_bits(vi, wi), piece);
                assert(values@.take(i + 1).drop_last() =~= vi);
                assert(widths@.take(i + 1).drop_last() =~= wi);
            }
            i = i + 1;
        }
        proof {
            assert(values@.take(i as int) =~= values@);
            assert(widths@.take(i as int) =~= widths@);
            lemma_fields_bits_len(values@, widths@);
        }
        Ok(())
    }

    /// Writes the operation (instruction code, then arguments) at the
    /// writer's position.
    pub fn encode(&self, writer: &mut CodeWriter) -> (res: Result<(), BytecodeError>)
        requires
            self.regs_in_range(),
        ensures
            writer_bits(*final(writer)).len() == writer_bits(*old(writer)).len(),
            res is Ok ==> writer_bits(*final(writer)) == or_at(
                writer_bits(*old(writer)),
                writer_pos(*old(writer)),
                encode_bits(*self),
            ) && writer_pos(*final(writer)) == writer_pos(*old(writer)) + encode_bits(*self).len(),
            writer_bits(*old(writer)).len() <= max_segment_bits() ==> writer_bits(*final(writer))
                == or_at(writer_bits(*old(writer)), writer_pos(*old(writer)), encode_bits(*self)),
            writer_bits(*old(writer)).len() <= max_segment_bits() && writer_pos(*old(writer))
                <= writer_bits(*old(writer)).len() ==> (res is Ok <==> writer_pos(*old(writer))
                + encode_bits(*self).len() <= writer_bits(*old(writer)).len()),
    {
        let ghost b0 = writer_bits(*writer);
        let ghost p0 = writer_pos(*writer);
        let code = self.instr_byte();
        let r = write_u8(writer, code);
        if r.is_err() {
            proof {
                if b0.len() <= max_segment_bits() {
                    lemma_or_at_past_end(b0, p0, bits_le(code as nat, 8), args_bits(*self));
                }
            }
            return Err(BytecodeError::CodeNotFittingSegment);
        }
        let res = self.encode_args(writer);
        proof {
            lemma_or_at_concat(b0, p0, bits_le(code as nat, 8), args_bits(*self));
        }
        res
    }

    /// Reads an operation at the reader's position: its instruction code,
    /// then its arguments. A code that is not the code of a defined operation
    /// reads as `Fail` with that code and no arguments.
    #[verifier::loop_isolation(false)]
    pub fn decode(reader: &mut CodeReader) -> (res: Result<ContractOp, CodeEof>)
        ensures
            reader_bits(*final(reader)) == reader_bits(*old(reader)),
            res matches Ok(op) ==> reader_pos(*old(reader)) <= reader_pos(*final(reader))
                <= reader_bits(*old(reader)).len() && spec_decode(
                reader_bits(*old(reader)).skip(reader_pos(*old(reader)) as int),
            ) == Some((op, (reader_pos(*final(reader)) - reader_pos(*old(reader))) as nat)),
            reader_bits(*old(reader)).len() <= max_segment_bits() && reader_pos(*old(reader))
                <= reader_bits(*old(reader)).len() ==> (res is Ok <==> spec_decode(
                reader_bits(*old(reader)).skip(reader_pos(*old(reader)) as int),
            ) is Some),
    {
        let ghost b0 = reader_bits(*reader);
        let ghost p0 = reader_pos(*reader);
        let ghost rest = b0.skip(p0 as int);
        let code = match read_u8(reader) {
            Ok(c) => c,
            Err(_) => {
                return Err(CodeEof);
            },
        };
        let ghost args = rest.skip(8);
        proof {
            assert(b0.subrange(p0 as int, (p0 + 8) as int) =~= rest.take(8));
            lemma_bits_value_bound(rest.take(8));
            lemma2_to64();
        }
        let widths = code_layout(code);
        proof {
            lemma_code_widths_fit(code);
            assert(widths@.take(0) =~= Seq::<u8>::empty());
        }
        let mut values: Vec<u16> = Vec::new();
        let mut i: usize = 0;
        while i < widths.len()
            invariant
                widths@ == code_widths(code),
                forall|k: int|
                    0 <= k < widths@.len() ==> (#[trigger] widths@[k] == 3 || widths@[k] == 4
                        || widths@[k] == 5 || widths@[k] == 16),
                0 <= i <= widths.len(),
                values@.len() == i,
                reader_bits(*reader) == b0,
                rest == b0.skip(p0 as int),
                args == rest.skip(8),
                p0 + 8 <= b0.len(),
                code as nat == bits_value(rest.take(8)),
                reader_pos(*reader) == p0 + 8 + width_sum(widths@.take(i as int)),
                p0 + 8 + width_sum(widths@.take(i as int)) <= b0.len(),
                values@ == read_fields(args, widths@.take(i as int)),
            decreases widths.len() - i,
        {
            let ghost wi = widths@.take(i as int);
            let r = read_field(reader, widths[i]);
            proof {
                lemma_width_sum_take(widths@, i as int);
            }
            match r {
                Ok(v) => {
                    proof {
                        let from = width_sum(wi);
                        let to = width_sum(widths@.take(i + 1));
                        assert(widths@.take(i + 1).drop_last() =~= wi);
                        assert(args.subrange(from as int, to as int) =~= b0.subrange(
                            (p0 + 8 + from) as int,
                            (p0 + 8 + to) as int,
                        ));
                        lemma_bits_value_bound(args.subrange(from as int, to as int));
                        lemma2_to64();
                    }
                    values.push(v);
                },
                Err(_) => {
                    assert(reader_bits(*reader) == b0);
                    return Err(CodeEof);
                },
            }
            i = i + 1;
        }
        proof {
            assert(widths@.take(i as int) =~= widths@);
        }
        Ok(ContractOp::from_fields(code, &values))
    }
}

/// Writes `op` at the start of a zeroed code segment of `len` bytes, then
/// reads an operation back from the bytes the write left there. Fails when
/// the segment has no room for the operation.
pub fn encode_then_decode(op: &ContractOp, len: usize, libs: &LibSeg) -> (res: Result<
    ContractOp,
    BytecodeError,
>)
    requires
        op.wf(),
    ensures
        len <= 0xFFFF ==> (res is Ok <==> encode_bits(*op).len() <= 8 * len),
        len <= 0xFFFF && res is Ok ==> res == Ok::<ContractOp, BytecodeError>(*op),
{
    let mut code: Vec<u8> = vec![0u8; len];
    proof {
        assert(bytes_bits(code@) =~= Seq::new(8 * len as nat, |i: int| false)) by {
            assert forall|i: int| 0 <= i < 8 * len implies !#[trigger] bytes_bits(code@)[i] by {
                assert(code@[i / 8] == 0);
                vstd::arithmetic::power2::lemma_pow2_pos((i % 8) as nat);
            }
        }
    }
    let mut writer = CodeWriter::new(code.as_mut_slice(), libs);
    let ghost zero = writer_bits(writer);
    if op.encode(&mut writer).is_err() {
        return Err(BytecodeError::CodeNotFittingSegment);
    }
    let ghost written = writer_bits(writer);
    let bytes = writer.into_bytes();
    let mut reader = CodeReader::new(bytes.as_slice(), libs);
    proof {
        if len <= 0xFFFF {
            lemma_written_op_decodes(zero, 0, *op);
            assert(written.skip(0) =~= written);
        }
    }
    match ContractOp::decode(&mut reader) {
        Ok(decoded) => Ok(decoded),
        Err(_) => Err(BytecodeError::CodeNotFittingSegment),
    }
}

impl ContractOp {
    /// Builds the operation with instruction code `code` from the values `v` of
    /// its argument fields (padding fields included, their values ignored).
    pub fn from_fields(code: u8, v: &Vec<u16>) -> (op: ContractOp)
        requires
            v.len() == code_widths(code).len(),
        ensures
            op == op_from_fields(code, v@),
    {
        if code == INSTR_CNP {
            ContractOp::CnP(v[0], v[1] as u8)
        } else if code == INSTR_CNS {
            ContractOp::CnS(v[0], v[1] as u8)
        } else if code == INSTR_CNG {
            ContractOp::CnG(v[0], v[1] as u8)
        } else if code == INSTR_CNC {
            ContractOp::CnC(v[0], v[1] as u8)
        } else if code == INSTR_LDP {
            ContractOp::LdP(v[0], v[1] as u8, v[2] as u8)
        } else if code == INSTR_LDF {
            ContractOp::LdF(v[0], v[1] as u8, v[2] as u8)
        } else if code == INSTR_LDR {
            ContractOp::LdR(v[0], v[1] as u8)
        } else if code == INSTR_LDG {
            ContractOp::LdG(v[0], v[1] as u8, v[2] as u8)
        } else if code == INSTR_LDS {
            ContractOp::LdS(v[0], v[1] as u8, v[2] as u8)
        } else if code == INSTR_LDC {
            ContractOp::LdC(v[0], v[1] as u8, v[2] as u8)
        } else if code == INSTR_LDM {
            ContractOp::LdM(v[0], v[1] as u8)
        } else if code == INSTR_LDOF {
            ContractOp::LdOF(v[0], v[1] as u8, v[2] as u8, v[3] as u8, v[4] as u8)
        } else if code == INSTR_LDOD {
            ContractOp::LdOD(v[0], v[1] as u8, v[2] as u8, v[3] as u8, v[4] as u8)
        } else if code == INSTR_LDOR {
            ContractOp::LdOR(v[0], v[1] as u8, v[2] as u8, v[3] as u8)
        } else if code == INSTR_SVS {
            ContractOp::Svs(v[0])
        } else if code == INSTR_SAS {
            ContractOp::Sas(v[0])
        } else if code == INSTR_SPS {
            ContractOp::Sps(v[0])
        } else if code == INSTR_VTS {
            ContractOp::Vts(v[0] as u8)
        } else {
            ContractOp::Fail(code)
        }
    }

}

} // verus!
