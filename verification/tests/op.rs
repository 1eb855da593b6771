use rgb_contract_op::codec::code_layout;
use rgb_contract_op::opcodes::{
    INSTR_CNC, INSTR_CNG, INSTR_CNP, INSTR_CNS, INSTR_CONTRACT_FROM, INSTR_CONTRACT_TO, INSTR_LDC,
    INSTR_LDF, INSTR_LDG, INSTR_LDM, INSTR_LDOD, INSTR_LDOF, INSTR_LDOR, INSTR_LDP, INSTR_LDR,
    INSTR_LDS, INSTR_SAS, INSTR_SPS, INSTR_SVS, INSTR_VTS,
};
use rgb_contract_op::{ContractOp, Reg};

#[test]
fn defined_codes_are_distinct_and_in_the_contract_range() {
    let codes = [
        INSTR_CNP, INSTR_CNS, INSTR_CNG, INSTR_CNC, INSTR_LDM, INSTR_LDP, INSTR_LDS, INSTR_LDF,
        INSTR_LDG, INSTR_LDC, INSTR_LDR, INSTR_SVS, INSTR_SAS, INSTR_SPS, INSTR_VTS, INSTR_LDOF,
        INSTR_LDOD, INSTR_LDOR,
    ];
    for (i, a) in codes.iter().enumerate() {
        assert!(INSTR_CONTRACT_FROM <= *a && *a <= INSTR_CONTRACT_TO);
        for b in &codes[i + 1..] {
            assert_ne!(a, b);
        }
    }
}

#[test]
fn complexity_of_each_kind() {
    assert_eq!(ContractOp::CnC(0, 0).complexity(), 2);
    assert_eq!(ContractOp::LdOR(0, 0, 0, 0).complexity(), 8);
    assert_eq!(ContractOp::LdM(0, 0).complexity(), 6);
    assert_eq!(ContractOp::Sps(0).complexity(), 20);
    assert_eq!(ContractOp::Vts(0).complexity(), 512);
    assert_eq!(ContractOp::Fail(0).complexity(), u64::MAX);
}

#[test]
fn source_registers() {
    assert_eq!(
        ContractOp::LdOF(1, 2, 3, 4, 5).src_regs(),
        vec![Reg::R256(2), Reg::A32(3), Reg::A16(4)]
    );
    assert_eq!(ContractOp::LdOR(1, 2, 3, 4).src_regs(), vec![Reg::R256(2), Reg::A32(3)]);
    assert_eq!(ContractOp::LdG(1, 2, 3).src_regs(), vec![Reg::A8(2)]);
    assert_eq!(ContractOp::LdC(1, 2, 3).src_regs(), vec![Reg::A32(2)]);
    assert_eq!(ContractOp::Sas(1).src_regs(), vec![Reg::A64(0)]);
    assert_eq!(ContractOp::Svs(1).src_regs(), vec![]);
    assert_eq!(ContractOp::Vts(1).src_regs(), vec![Reg::S16(1)]);
}

#[test]
fn destination_registers() {
    assert_eq!(ContractOp::CnG(1, 2).dst_regs(), vec![Reg::A8(2)]);
    assert_eq!(ContractOp::CnP(1, 2).dst_regs(), vec![Reg::A16(2)]);
    assert_eq!(ContractOp::CnC(1, 2).dst_regs(), vec![Reg::A32(2)]);
    assert_eq!(ContractOp::LdOR(1, 2, 3, 4).dst_regs(), vec![Reg::A32(4)]);
    assert_eq!(ContractOp::LdOF(1, 2, 3, 4, 5).dst_regs(), vec![Reg::A64(5)]);
    assert_eq!(ContractOp::LdOD(1, 2, 3, 4, 5).dst_regs(), vec![Reg::S16(5)]);
    assert_eq!(ContractOp::Vts(6).dst_regs(), vec![]);
    assert_eq!(ContractOp::LdR(1, 2).dst_regs(), vec![]);
    assert_eq!(ContractOp::Fail(1).dst_regs(), vec![]);
}

#[test]
fn field_layout_of_operations() {
    assert_eq!(code_layout(INSTR_CNS), vec![16, 5, 3]);
    assert_eq!(code_layout(INSTR_LDOR), vec![16, 4, 4, 4, 4]);
    assert_eq!(code_layout(INSTR_VTS), vec![4]);
    assert_eq!(code_layout(0x00), Vec::<u8>::new());
    assert_eq!(ContractOp::LdOR(7, 1, 2, 3).arg_values(), vec![7, 1, 2, 3, 0]);
    assert_eq!(ContractOp::Fail(INSTR_CNP).arg_widths(), Vec::<u8>::new());
    assert_eq!(ContractOp::from_fields(INSTR_LDM, &vec![9, 4, 15]), ContractOp::LdM(9, 4));
    assert_eq!(ContractOp::from_fields(0x01, &vec![]), ContractOp::Fail(0x01));
}
