//! Bit-level access to a code segment through AluVM's bytecode cursor.
//!
//! A writer and a reader each hold an AluVM `Cursor` over a borrowed code
//! segment. Their contents are given by two names: the bits of the whole code
//! segment (bit `i` of byte `k` at index `8 * k + i`) and the cursor's bit
//! position in it (`8 * byte offset + bit offset`).
use aluvm::data::ByteStr;
use aluvm::library::{Cursor, LibSeg, Read, Write};
use amplify::num::{u3, u4, u5};
use vstd::prelude::*;

use crate::bits::{bits_le, bits_value, bytes_bits, or_at};

verus! {

/// AluVM error of a write past the end of the code segment.
#[verifier::external_type_specification]
#[verifier::external_body]
pub struct ExWriteError(aluvm::library::WriteError);

/// AluVM error of a read past the end of the code segment.
#[verifier::external_type_specification]
#[verifier::external_body]
pub struct ExCodeEofError(aluvm::library::CodeEofError);

/// AluVM's segment of the libraries a program refers to.
#[verifier::external_type_specification]
#[verifier::external_body]
pub struct ExLibSeg(aluvm::library::LibSeg);

/// A cursor writing into a mutable code segment.
#[verifier::external_body]
pub struct CodeWriter<'a> {
    cursor: Cursor<'a, &'a mut [u8], ByteStr>,
}

/// A cursor reading from a code segment.
#[verifier::external_body]
pub struct CodeReader<'a> {
    cursor: Cursor<'a, &'a [u8], ByteStr>,
}

/// The bits of the code segment under a writer.
pub uninterp spec fn writer_bits(w: CodeWriter) -> Seq<bool>;

/// The bit position of a writer in its code segment.
pub uninterp spec fn writer_pos(w: CodeWriter) -> nat;

/// The bits of the code segment under a reader.
pub uninterp spec fn reader_bits(r: CodeReader) -> Seq<bool>;

/// The bit position of a reader in its code segment.
pub uninterp spec fn reader_pos(r: CodeReader) -> nat;

/// The largest number of bits in a code segment that a cursor fully
/// addresses: its byte offset is a `u16`.
pub open spec fn max_segment_bits() -> nat {
    8 * 0xFFFF
}

/// What a write of the `n`-bit value `v` does to a writer: on success the
/// value's bits are or-ed into the segment at the position, which moves by
/// `n`; it succeeds exactly when the segment has room (for segments a `u16`
/// byte offset addresses). A write that runs past the end of such a segment
/// has or-ed in the part of the value that fits, and nothing else.
pub open spec fn write_effect(
    old_bits: Seq<bool>,
    old_pos: nat,
    new_bits: Seq<bool>,
    new_pos: nat,
    v: nat,
    n: nat,
    ok: bool,
) -> bool {
    &&& new_bits.len() == old_bits.len()
    &&& ok ==> new_bits == or_at(old_bits, old_pos, bits_le(v, n)) && new_pos == old_pos + n
        && old_pos + n <= old_bits.len()
    &&& old_bits.len() <= max_segment_bits() ==> (ok <==> old_pos + n <= old_bits.len())
    &&& old_bits.len() <= max_segment_bits() ==> new_bits == or_at(
        old_bits,
        old_pos,
        bits_le(v, n),
    )
}

/// What a read of `n` bits does to a reader: on success it returns the
/// number held by the `n` bits at the position, which moves by `n`; it
/// succeeds exactly when the segment holds them (for segments a `u16` byte
/// offset addresses). The segment is unchanged.
pub open spec fn read_effect(
    old_bits: Seq<bool>,
    old_pos: nat,
    new_bits: Seq<bool>,
    new_pos: nat,
    n: nat,
    res: Option<nat>,
) -> bool {
    &&& new_bits == old_bits
    &&& res matches Some(v) ==> old_pos + n <= old_bits.len() && new_pos == old_pos + n && v
        == bits_value(old_bits.subrange(old_pos as int, (old_pos + n) as int))
    &&& old_bits.len() <= max_segment_bits() ==> (res is Some <==> old_pos + n <= old_bits.len())
}

/// `Cursor::new` over a mutable code segment: the writer starts at bit 0 of
/// the segment's bytes.
#[verifier::external_body]
fn new_writer<'a>(code: &'a mut [u8], libs: &'a LibSeg) -> (w: CodeWriter<'a>)
    ensures
        writer_bits(w) == bytes_bits(old(code)@),
        writer_pos(w) == 0,
{
    CodeWriter { cursor: Cursor::new(code, libs) }
}

/// `Cursor::new` over a code segment: the reader starts at bit 0 of the
/// segment's bytes.
#[verifier::external_body]
fn new_reader<'a>(code: &'a [u8], libs: &'a LibSeg) -> (r: CodeReader<'a>)
    ensures
        reader_bits(r) == bytes_bits(code@),
        reader_pos(r) == 0,
{
    CodeReader { cursor: Cursor::new(code, libs) }
}

/// `Read::seek` on a writer: moves the cursor to byte `byte_pos`, keeping its
/// bit offset, when the segment has that byte, and returns the byte offset
/// it had; otherwise fails and leaves the cursor alone. The segment is a
/// whole number of bytes and is unchanged.
#[verifier::external_body]
fn writer_seek(w: &mut CodeWriter, byte_pos: u16) -> (r: Result<u16, aluvm::library::CodeEofError>)
    ensures
        writer_bits(*final(w)) == writer_bits(*old(w)),
        writer_bits(*old(w)).len() % 8 == 0,
        r is Ok <==> 8 * byte_pos < writer_bits(*old(w)).len(),
        r matches Ok(prev) ==> prev == writer_pos(*old(w)) / 8 && writer_pos(*final(w)) == 8
            * byte_pos + writer_pos(*old(w)) % 8,
        r is Err ==> writer_pos(*final(w)) == writer_pos(*old(w)),
{
    w.cursor.seek(byte_pos)
}

/// `Read::peek_u8` on a writer: the byte of the segment the cursor is in,
/// when there is one; the cursor does not move.
#[verifier::external_body]
fn writer_peek(w: &CodeWriter) -> (r: Result<u8, aluvm::library::CodeEofError>)
    ensures
        r is Ok <==> writer_pos(*w) / 8 < writer_bits(*w).len() / 8,
        r matches Ok(b) ==> bits_le(b as nat, 8) == writer_bits(*w).subrange(
            8 * (writer_pos(*w) / 8) as int,
            (8 * (writer_pos(*w) / 8) + 8) as int,
        ),
{
    w.cursor.peek_u8()
}

impl<'a> CodeWriter<'a> {
    /// A writer at the start of the code segment `code`.
    pub fn new(code: &'a mut [u8], libs: &'a LibSeg) -> (w: CodeWriter<'a>)
        ensures
            writer_bits(w) == bytes_bits(old(code)@),
            writer_pos(w) == 0,
    {
        new_writer(code, libs)
    }

    /// The bytes of the code segment under the writer, as its writes left
    /// them.
    pub fn into_bytes(self) -> (bytes: Vec<u8>)
        ensures
            writer_bits(self).len() <= max_segment_bits() ==> bytes_bits(bytes@) == writer_bits(
                self,
            ),
    {
        let ghost bits = writer_bits(self);
        let mut w = self;
        let mut bytes: Vec<u8> = Vec::new();
        let mut k: u16 = 0;
        while k < 0xFFFF
            invariant_except_break
                writer_bits(w) == bits,
                bytes@.len() == k,
                8 * k <= bits.len(),
                forall|i: int| 0 <= i < 8 * k ==> #[trigger] bytes_bits(bytes@)[i] == bits[i],
            ensures
                writer_bits(w) == bits,
                bits.len() <= max_segment_bits() ==> 8 * bytes@.len() == bits.len(),
                forall|i: int| 0 <= i < 8 * bytes@.len() ==> #[trigger] bytes_bits(bytes@)[i] == bits[i],
            decreases 0xFFFF - k,
        {
            if writer_seek(&mut w, k).is_err() {
                break;
            }
            match writer_peek(&w) {
                Ok(b) => {
                    let ghost prev = bytes@;
                    bytes.push(b);
                    assert forall|i: int| 0 <= i < 8 * (k + 1) implies #[trigger] bytes_bits(
                        bytes@,
                    )[i] == bits[i] by {
                        if i >= 8 * k {
                            assert(bytes@[i / 8] == b);
                            assert(bits_le(b as nat, 8)[i - 8 * k] == bits[i]);
                        } else {
                            assert(bytes_bits(prev)[i] == bits[i]);
                            assert(prev[i / 8] == bytes@[i / 8]);
                        }
                    }
                },
                Err(_) => {
                    break;
                },
            }
            k = k + 1;
        }
        assert(bits.len() <= max_segment_bits() ==> bytes_bits(bytes@) =~= bits);
        bytes
    }
}

impl<'a> CodeReader<'a> {
    /// A reader at the start of the code segment `code`.
    pub fn new(code: &'a [u8], libs: &'a LibSeg) -> (r: CodeReader<'a>)
        ensures
            reader_bits(r) == bytes_bits(code@),
            reader_pos(r) == 0,
    {
        new_reader(code, libs)
    }
}

/// `Cursor::write_u8`: or-s the 8 bits of `v` into the segment at the cursor
/// and moves it on; fails when the segment has no room.
#[verifier::external_body]
pub(crate) fn write_u8(w: &mut CodeWriter, v: u8) -> (r: Result<(), aluvm::library::WriteError>)
    ensures
        write_effect(
            writer_bits(*old(w)),
            writer_pos(*old(w)),
            writer_bits(*final(w)),
            writer_pos(*final(w)),
            v as nat,
            8,
            r is Ok,
        ),
{
    w.cursor.write_u8(v)
}

/// `Cursor::write_u16`: as `write_u8`, for the 16 bits of `v`.
#[verifier::external_body]
pub(crate) fn write_u16(w: &mut CodeWriter, v: u16) -> (r: Result<(), aluvm::library::WriteError>)
    ensures
        write_effect(
            writer_bits(*old(w)),
            writer_pos(*old(w)),
            writer_bits(*final(w)),
            writer_pos(*final(w)),
            v as nat,
            16,
            r is Ok,
        ),
{
    w.cursor.write_u16(v)
}

/// `Cursor::write_u5`: as `write_u8`, for the 5 bits of `v`.
#[verifier::external_body]
pub(crate) fn write_u5(w: &mut CodeWriter, v: u8) -> (r: Result<(), aluvm::library::WriteError>)
    requires
        v < 32,
    ensures
        write_effect(
            writer_bits(*old(w)),
            writer_pos(*old(w)),
            writer_bits(*final(w)),
            writer_pos(*final(w)),
            v as nat,
            5,
            r is Ok,
        ),
{
    w.cursor.write_u5(u5::with(v))
}

/// `Cursor::write_u4`: as `write_u8`, for the 4 bits of `v`.
#[verifier::external_body]
pub(crate) fn write_u4(w: &mut CodeWriter, v: u8) -> (r: Result<(), aluvm::library::WriteError>)
    requires
        v < 16,
    ensures
        write_effect(
            writer_bits(*old(w)),
            writer_pos(*old(w)),
            writer_bits(*final(w)),
            writer_pos(*final(w)),
            v as nat,
            4,
            r is Ok,
        ),
{
    w.cursor.write_u4(u4::with(v))
}

/// `Cursor::write_u3`: as `write_u8`, for the 3 bits of `v`.
#[verifier::external_body]
pub(crate) fn write_u3(w: &mut CodeWriter, v: u8) -> (r: Result<(), aluvm::library::WriteError>)
    requires
        v < 8,
    ensures
        write_effect(
            writer_bits(*old(w)),
            writer_pos(*old(w)),
            writer_bits(*final(w)),
            writer_pos(*final(w)),
            v as nat,
            3,
            r is Ok,
        ),
{
    w.cursor.write_u3(u3::with(v))
}

/// `Cursor::read_u8`: returns the 8 bits at the cursor as a number and moves
/// it on; fails when the segment ends first.
#[verifier::external_body]
pub(crate) fn read_u8(r: &mut CodeReader) -> (res: Result<u8, aluvm::library::CodeEofError>)
    ensures
        read_effect(
            reader_bits(*old(r)),
            reader_pos(*old(r)),
            reader_bits(*final(r)),
            reader_pos(*final(r)),
            8,
            match res {
                Ok(v) => Some(v as nat),
                Err(_) => None,
            },
        ),
{
    r.cursor.read_u8()
}

/// `Cursor::read_u16`: as `read_u8`, for 16 bits.
#[verifier::external_body]
pub(crate) fn read_u16(r: &mut CodeReader) -> (res: Result<u16, aluvm::library::CodeEofError>)
    ensures
        read_effect(
            reader_bits(*old(r)),
            reader_pos(*old(r)),
            reader_bits(*final(r)),
            reader_pos(*final(r)),
            16,
            match res {
                Ok(v) => Some(v as nat),
                Err(_) => None,
            },
        ),
{
    r.cursor.read_u16()
}

/// `Cursor::read_u5`: as `read_u8`, for 5 bits.
#[verifier::external_body]
pub(crate) fn read_u5(r: &mut CodeReader) -> (res: Result<u8, aluvm::library::CodeEofError>)
    ensures
        read_effect(
            reader_bits(*old(r)),
            reader_pos(*old(r)),
            reader_bits(*final(r)),
            reader_pos(*final(r)),
            5,
            match res {
                Ok(v) => Some(v as nat),
                Err(_) => None,
            },
        ),
{
    match r.cursor.read_u5() {
        Ok(v) => Ok(v.to_u8()),
        Err(e) => Err(e),
    }
}

/// `Cursor::read_u4`: as `read_u8`, for 4 bits.
#[verifier::external_body]
pub(crate) fn read_u4(r: &mut CodeReader) -> (res: Result<u8, aluvm::library::CodeEofError>)
    ensures
        read_effect(
            reader_bits(*old(r)),
            reader_pos(*old(r)),
            reader_bits(*final(r)),
            reader_pos(*final(r)),
            4,
            match res {
                Ok(v) => Some(v as nat),
                Err(_) => None,
            },
        ),
{
    match r.cursor.read_u4() {
        Ok(v) => Ok(v.to_u8()),
        Err(e) => Err(e),
    }
}

/// `Cursor::read_u3`: as `read_u8`, for 3 bits.
#[verifier::external_body]
pub(crate) fn read_u3(r: &mut CodeReader) -> (res: Result<u8, aluvm::library::CodeEofError>)
    ensures
        read_effect(
            reader_bits(*old(r)),
            reader_pos(*old(r)),
            reader_bits(*final(r)),
            reader_pos(*final(r)),
            3,
            match res {
                Ok(v) => Some(v as nat),
                Err(_) => None,
            },
        ),
{
    match r.cursor.read_u3() {
        Ok(v) => Ok(v.to_u8()),
        Err(e) => Err(e),
    }
}

} // verus!
