use aluvm::library::LibSeg;
use rgb_contract_op::opcodes::{INSTR_LDOD, INSTR_LDOF, INSTR_LDOR, INSTR_LDR};
use rgb_contract_op::{CodeReader, CodeWriter, ContractOp};

type TestOp = ContractOp;

fn roundtrip(op: TestOp) -> TestOp {
    let libseg = LibSeg::default();
    let mut code = [0u8; 16];
    {
        let mut writer = CodeWriter::new(&mut code[..], &libseg);
        op.encode(&mut writer).unwrap();
    }
    let mut reader = CodeReader::new(&code[..], &libseg);
    TestOp::decode(&mut reader).unwrap()
}

#[test]
fn ldof_roundtrip() {
    let op = TestOp::LdOF(42u16, 1, 2, 3, 4);
    assert_eq!(roundtrip(op), op);
}

#[test]
fn ldod_roundtrip() {
    let op = TestOp::LdOD(100u16, 0, 5, 7, 3);
    assert_eq!(roundtrip(op), op);
}

#[test]
fn ldor_roundtrip() {
    let op = TestOp::LdOR(7u16, 2, 3, 8);
    assert_eq!(roundtrip(op), op);
}

#[test]
fn ldr_roundtrip() {
    let op = TestOp::LdR(11u16, 6);
    assert_eq!(roundtrip(op), op);
}

#[test]
fn ldc_roundtrip_unchanged() {
    let op = TestOp::LdC(10u16, 5, 2);
    assert_eq!(roundtrip(op), op);
}

#[test]
fn ldof_instr_byte() {
    let op = TestOp::LdOF(0u16, 0, 0, 0, 0);
    assert_eq!(op.instr_byte(), INSTR_LDOF);
}

#[test]
fn ldod_instr_byte() {
    let op = TestOp::LdOD(0u16, 0, 0, 0, 0);
    assert_eq!(op.instr_byte(), INSTR_LDOD);
}

#[test]
fn ldor_instr_byte() {
    let op = TestOp::LdOR(0u16, 0, 0, 0);
    assert_eq!(op.instr_byte(), INSTR_LDOR);
}

#[test]
fn ldr_instr_byte() {
    let op = TestOp::LdR(0u16, 0);
    assert_eq!(op.instr_byte(), INSTR_LDR);
}
