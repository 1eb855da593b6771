use aluvm::library::LibSeg;
use rgb_contract_op::codec::encode_then_decode;
use rgb_contract_op::opcodes::{INSTR_CNP, INSTR_LDP, INSTR_LDR, INSTR_SVS, INSTR_VTS};
use rgb_contract_op::{BytecodeError, CodeEof, CodeReader, CodeWriter, ContractOp};

fn encode_all(ops: &[ContractOp], len: usize) -> Result<Vec<u8>, BytecodeError> {
    let libseg = LibSeg::default();
    let mut code = vec![0u8; len];
    {
        let mut writer = CodeWriter::new(&mut code[..], &libseg);
        for op in ops {
            op.encode(&mut writer)?;
        }
    }
    Ok(code)
}

fn decode_all(code: &[u8], n: usize) -> Result<Vec<ContractOp>, CodeEof> {
    let libseg = LibSeg::default();
    let mut reader = CodeReader::new(code, &libseg);
    let mut ops = vec![];
    for _ in 0..n {
        ops.push(ContractOp::decode(&mut reader)?);
    }
    Ok(ops)
}

#[test]
fn cnp_encodes_code_then_little_endian_type_then_register() {
    let code = encode_all(&[ContractOp::CnP(0x1234, 5)], 4).unwrap();
    assert_eq!(code, vec![INSTR_CNP, 0x34, 0x12, 0x05]);
}

#[test]
fn ldr_encodes_zero_padding() {
    let code = encode_all(&[ContractOp::LdR(0x0102, 0xF)], 4).unwrap();
    assert_eq!(code, vec![INSTR_LDR, 0x02, 0x01, 0x0F]);
}

#[test]
fn vts_leaves_the_next_operation_unaligned() {
    let ops = [ContractOp::Vts(3), ContractOp::Svs(7), ContractOp::LdOF(9, 1, 2, 3, 4)];
    let code = encode_all(&ops, 16).unwrap();
    assert_eq!(code[0], INSTR_VTS);
    assert_eq!(code[1] & 0x0F, 3);
    assert_eq!(code[1] >> 4, INSTR_SVS & 0x0F);
    assert_eq!(decode_all(&code, 3).unwrap(), ops.to_vec());
}

#[test]
fn every_operation_roundtrips() {
    let ops = [
        ContractOp::CnP(1, 31),
        ContractOp::CnS(2, 0),
        ContractOp::CnG(3, 17),
        ContractOp::CnC(u16::MAX, 9),
        ContractOp::LdP(4, 15, 0),
        ContractOp::LdS(5, 1, 2),
        ContractOp::LdF(6, 3, 4),
        ContractOp::LdR(7, 5),
        ContractOp::LdG(8, 6, 7),
        ContractOp::LdC(9, 8, 9),
        ContractOp::LdM(10, 10),
        ContractOp::LdOF(11, 11, 12, 13, 14),
        ContractOp::LdOD(12, 15, 14, 13, 12),
        ContractOp::LdOR(13, 1, 1, 1),
        ContractOp::Svs(14),
        ContractOp::Sas(15),
        ContractOp::Sps(16),
        ContractOp::Vts(15),
        ContractOp::Fail(0xFF),
    ];
    let code = encode_all(&ops, 128).unwrap();
    assert_eq!(decode_all(&code, ops.len()).unwrap(), ops.to_vec());
}

#[test]
fn unknown_code_decodes_as_fail_without_arguments() {
    let code = [0x12u8, INSTR_SVS, 0x05, 0x00];
    assert_eq!(
        decode_all(&code, 2).unwrap(),
        vec![ContractOp::Fail(0x12), ContractOp::Svs(5)]
    );
}

#[test]
fn fail_encodes_to_its_code_alone() {
    let code = encode_all(&[ContractOp::Fail(0xEE), ContractOp::Svs(1)], 4).unwrap();
    assert_eq!(code, vec![0xEE, INSTR_SVS, 0x01, 0x00]);
}

#[test]
fn decoding_ignores_padding_bits() {
    // CnP with its 3 padding bits set
    let code = [INSTR_CNP, 0x34, 0x12, 0xE5];
    assert_eq!(decode_all(&code, 1).unwrap(), vec![ContractOp::CnP(0x1234, 5)]);
}

#[test]
fn decode_fails_when_the_segment_ends_early() {
    assert_eq!(decode_all(&[INSTR_SVS, 0x01], 1), Err(CodeEof));
    assert_eq!(decode_all(&[], 1), Err(CodeEof));
}

#[test]
fn encode_fails_when_the_segment_is_too_short() {
    assert_eq!(
        encode_all(&[ContractOp::Svs(1)], 2),
        Err(BytecodeError::CodeNotFittingSegment)
    );
    assert_eq!(
        encode_all(&[ContractOp::Svs(1)], 0),
        Err(BytecodeError::CodeNotFittingSegment)
    );
}

#[test]
fn ldr_decoding_ignores_its_padding_nibble() {
    let code = [INSTR_LDR, 0x02, 0x01, 0xF6];
    assert_eq!(decode_all(&code, 1).unwrap(), vec![ContractOp::LdR(0x0102, 6)]);
}

#[test]
fn writer_gives_back_the_bytes_it_wrote() {
    let libseg = LibSeg::default();
    let mut code = [0u8; 5];
    let mut writer = CodeWriter::new(&mut code[..], &libseg);
    ContractOp::Svs(0x0203).encode(&mut writer).unwrap();
    assert_eq!(writer.into_bytes(), vec![INSTR_SVS, 0x03, 0x02, 0, 0]);
}

#[test]
fn a_failed_write_keeps_the_fields_that_fit() {
    let libseg = LibSeg::default();
    let mut code = [0u8; 3];
    let mut writer = CodeWriter::new(&mut code[..], &libseg);
    assert_eq!(
        ContractOp::LdP(0x0102, 3, 4).encode(&mut writer),
        Err(BytecodeError::CodeNotFittingSegment)
    );
    assert_eq!(writer.into_bytes(), vec![INSTR_LDP, 0x02, 0x01]);
}

#[test]
fn encode_then_decode_gives_the_operation_back() {
    let libseg = LibSeg::default();
    let op = ContractOp::LdOR(7, 2, 3, 8);
    assert_eq!(encode_then_decode(&op, 5, &libseg), Ok(op));
    assert_eq!(
        encode_then_decode(&op, 4, &libseg),
        Err(BytecodeError::CodeNotFittingSegment)
    );
    let cnc = ContractOp::CnC(u16::MAX, 31);
    assert_eq!(encode_then_decode(&cnc, 64, &libseg), Ok(cnc));
}
