use rgb_contract_op::{
    ContractOp, ContractState, ExecStep, OpInfo, OpKind, Outpoint, Registers, RevealedState,
    TypedAssigns, VmContext,
};
use secp256k1::{Message, PublicKey, Secp256k1, SecretKey};

fn op_info() -> OpInfo {
    OpInfo {
        id: [7u8; 32],
        kind: OpKind::Genesis,
        prev_state: vec![],
        owned_state: vec![],
        global: vec![],
        metadata: vec![],
    }
}

fn empty_contract() -> ContractState {
    ContractState { global: vec![], rights: vec![], fungible: vec![], data: vec![] }
}

fn context(op_info: OpInfo) -> VmContext {
    VmContext { op_info, contract_state: empty_contract() }
}

fn run(op: ContractOp, regs: &mut Registers, ctx: &VmContext) -> ExecStep {
    op.exec(regs, ctx)
}

#[test]
fn cnp_counts_spent_states() {
    let mut info = op_info();
    info.prev_state = vec![(5, vec![RevealedState::Fungible(1), RevealedState::Void])];
    let ctx = context(info);
    let mut regs = Registers::new();
    assert_eq!(run(ContractOp::CnP(5, 3), &mut regs, &ctx), ExecStep::Next);
    assert_eq!(regs.a16[3], Some(2));
    assert_eq!(run(ContractOp::CnP(6, 4), &mut regs, &ctx), ExecStep::Next);
    assert_eq!(regs.a16[4], Some(0));
    assert!(regs.st0);
}

#[test]
fn cns_counts_assigned_states() {
    let mut info = op_info();
    info.owned_state = vec![
        (1, TypedAssigns::Declarative(4)),
        (2, TypedAssigns::Structured(vec![vec![1], vec![2], vec![3]])),
    ];
    let ctx = context(info);
    let mut regs = Registers::new();
    assert_eq!(run(ContractOp::CnS(1, 31), &mut regs, &ctx), ExecStep::Next);
    assert_eq!(regs.a16[31], Some(4));
    assert_eq!(run(ContractOp::CnS(2, 0), &mut regs, &ctx), ExecStep::Next);
    assert_eq!(regs.a16[0], Some(3));
}

#[test]
fn cng_counts_operation_globals() {
    let mut info = op_info();
    info.global = vec![(9, vec![vec![1], vec![2]])];
    let ctx = context(info);
    let mut regs = Registers::new();
    assert_eq!(run(ContractOp::CnG(9, 1), &mut regs, &ctx), ExecStep::Next);
    assert_eq!(regs.a8[1], Some(2));
    assert_eq!(regs.a16[1], None);
}

#[test]
fn cnc_counts_contract_globals_into_a32() {
    let mut ctx = context(op_info());
    ctx.contract_state.global = vec![(3, vec![vec![1], vec![2], vec![3]])];
    let mut regs = Registers::new();
    assert_eq!(run(ContractOp::CnC(3, 2), &mut regs, &ctx), ExecStep::Next);
    assert_eq!(regs.a32[2], Some(3));
    assert_eq!(run(ContractOp::CnC(4, 2), &mut regs, &ctx), ExecStep::Next);
    assert_eq!(regs.a32[2], Some(0));
    assert!(regs.st0);
}

#[test]
fn ldp_loads_spent_structured_state() {
    let mut info = op_info();
    info.prev_state = vec![(5, vec![RevealedState::Fungible(1), RevealedState::Structured(vec![9, 8])])];
    let ctx = context(info);
    let mut regs = Registers::new();
    regs.a16[2] = Some(1);
    assert_eq!(run(ContractOp::LdP(5, 2, 4), &mut regs, &ctx), ExecStep::Next);
    assert_eq!(regs.s16[4], Some(vec![9, 8]));
    assert!(regs.st0);
    // a fungible state is not structured
    regs.a16[2] = Some(0);
    assert_eq!(run(ContractOp::LdP(5, 2, 5), &mut regs, &ctx), ExecStep::Stop);
    assert!(!regs.st0);
    assert_eq!(regs.s16[5], None);
}

#[test]
fn ldp_fails_on_empty_index_register() {
    let ctx = context(op_info());
    let mut regs = Registers::new();
    assert_eq!(run(ContractOp::LdP(5, 2, 4), &mut regs, &ctx), ExecStep::Stop);
    assert!(!regs.st0);
}

#[test]
fn lds_and_ldf_load_assigned_states() {
    let mut info = op_info();
    info.owned_state = vec![
        (1, TypedAssigns::Structured(vec![vec![1, 2, 3]])),
        (2, TypedAssigns::Fungible(vec![10, 20])),
    ];
    let ctx = context(info);
    let mut regs = Registers::new();
    regs.a16[0] = Some(0);
    regs.a16[1] = Some(1);
    assert_eq!(run(ContractOp::LdS(1, 0, 7), &mut regs, &ctx), ExecStep::Next);
    assert_eq!(regs.s16[7], Some(vec![1, 2, 3]));
    assert_eq!(run(ContractOp::LdF(2, 1, 6), &mut regs, &ctx), ExecStep::Next);
    assert_eq!(regs.a64[6], Some(20));
    assert!(regs.st0);
    // wrong state class
    assert_eq!(run(ContractOp::LdF(1, 0, 6), &mut regs, &ctx), ExecStep::Stop);
    assert!(!regs.st0);
}

#[test]
fn ldf_fails_out_of_range() {
    let mut info = op_info();
    info.owned_state = vec![(2, TypedAssigns::Fungible(vec![10, 20]))];
    let ctx = context(info);
    let mut regs = Registers::new();
    regs.a16[1] = Some(2);
    assert_eq!(run(ContractOp::LdF(2, 1, 6), &mut regs, &ctx), ExecStep::Stop);
    assert_eq!(regs.a64[6], None);
    assert!(!regs.st0);
}

#[test]
fn ldr_checks_declarative_state_and_goes_on() {
    let mut info = op_info();
    info.owned_state = vec![(1, TypedAssigns::Declarative(2)), (2, TypedAssigns::Fungible(vec![5]))];
    let ctx = context(info);
    let mut regs = Registers::new();
    regs.a16[3] = Some(1);
    assert_eq!(run(ContractOp::LdR(1, 3), &mut regs, &ctx), ExecStep::Next);
    assert!(regs.st0);
    regs.a16[3] = Some(2);
    assert_eq!(run(ContractOp::LdR(1, 3), &mut regs, &ctx), ExecStep::Next);
    assert!(!regs.st0);

    let mut regs = Registers::new();
    regs.a16[3] = Some(0);
    assert_eq!(run(ContractOp::LdR(2, 3), &mut regs, &ctx), ExecStep::Next);
    assert!(!regs.st0);

    let mut regs = Registers::new();
    assert_eq!(run(ContractOp::LdR(1, 3), &mut regs, &ctx), ExecStep::Next);
    assert!(!regs.st0);
}

#[test]
fn ldg_and_ldm_load_operation_data() {
    let mut info = op_info();
    info.global = vec![(4, vec![vec![0xAA], vec![0xBB]])];
    info.metadata = vec![(8, vec![1, 1, 1])];
    let ctx = context(info);
    let mut regs = Registers::new();
    regs.a8[5] = Some(1);
    assert_eq!(run(ContractOp::LdG(4, 5, 0), &mut regs, &ctx), ExecStep::Next);
    assert_eq!(regs.s16[0], Some(vec![0xBB]));
    assert_eq!(run(ContractOp::LdM(8, 1), &mut regs, &ctx), ExecStep::Next);
    assert_eq!(regs.s16[1], Some(vec![1, 1, 1]));
    assert_eq!(run(ContractOp::LdM(9, 1), &mut regs, &ctx), ExecStep::Stop);
    assert!(!regs.st0);
    assert_eq!(regs.s16[1], Some(vec![1, 1, 1]));
}

#[test]
fn ldc_loads_contract_global_at_depth() {
    let mut ctx = context(op_info());
    ctx.contract_state.global = vec![(3, vec![vec![1], vec![2], vec![3]])];
    let mut regs = Registers::new();
    regs.a32[4] = Some(2);
    assert_eq!(run(ContractOp::LdC(3, 4, 9), &mut regs, &ctx), ExecStep::Next);
    assert_eq!(regs.s16[9], Some(vec![3]));
    regs.a32[4] = Some(3);
    assert_eq!(run(ContractOp::LdC(3, 4, 9), &mut regs, &ctx), ExecStep::Stop);
    assert!(!regs.st0);
}

#[test]
fn ldc_fails_on_depth_beyond_24_bits_and_unknown_type() {
    let mut ctx = context(op_info());
    ctx.contract_state.global = vec![(3, vec![vec![1]])];
    let mut regs = Registers::new();
    regs.a32[4] = Some(0x100_0000);
    assert_eq!(run(ContractOp::LdC(3, 4, 9), &mut regs, &ctx), ExecStep::Stop);
    let mut regs = Registers::new();
    regs.a32[4] = Some(0);
    assert_eq!(run(ContractOp::LdC(5, 4, 9), &mut regs, &ctx), ExecStep::Stop);
    assert!(!regs.st0);
}

fn outpoint_regs(txid: [u8; 32], vout: u32) -> Registers {
    let mut regs = Registers::new();
    regs.r256[1] = Some(txid);
    regs.a32[2] = Some(vout);
    regs
}

#[test]
fn ldof_ldod_ldor_read_contract_state_at_outpoint() {
    let at = Outpoint { txid: [3u8; 32], vout: 1 };
    let mut ctx = context(op_info());
    ctx.contract_state.fungible = vec![((at, 42), vec![100, 200])];
    ctx.contract_state.data = vec![((at, 43), vec![vec![5, 6]])];
    ctx.contract_state.rights = vec![((at, 44), 7)];

    let mut regs = outpoint_regs([3u8; 32], 1);
    regs.a16[3] = Some(1);
    assert_eq!(run(ContractOp::LdOF(42, 1, 2, 3, 4), &mut regs, &ctx), ExecStep::Next);
    assert_eq!(regs.a64[4], Some(200));
    regs.a16[3] = Some(0);
    assert_eq!(run(ContractOp::LdOD(43, 1, 2, 3, 5), &mut regs, &ctx), ExecStep::Next);
    assert_eq!(regs.s16[5], Some(vec![5, 6]));
    assert_eq!(run(ContractOp::LdOR(44, 1, 2, 8), &mut regs, &ctx), ExecStep::Next);
    assert_eq!(regs.a32[8], Some(7));
    assert!(regs.st0);

    // no rights at another output: zero, not a failure
    let mut regs = outpoint_regs([3u8; 32], 2);
    assert_eq!(run(ContractOp::LdOR(44, 1, 2, 8), &mut regs, &ctx), ExecStep::Next);
    assert_eq!(regs.a32[8], Some(0));
    assert!(regs.st0);

    // no fungible state at another output
    regs.a16[3] = Some(0);
    assert_eq!(run(ContractOp::LdOF(42, 1, 2, 3, 4), &mut regs, &ctx), ExecStep::Stop);
    assert!(!regs.st0);
}

#[test]
fn ldof_fails_without_txid() {
    let ctx = context(op_info());
    let mut regs = Registers::new();
    regs.a32[2] = Some(0);
    regs.a16[3] = Some(0);
    assert_eq!(run(ContractOp::LdOF(42, 1, 2, 3, 4), &mut regs, &ctx), ExecStep::Stop);
    assert!(!regs.st0);
}

fn sums_context(ins: Vec<RevealedState>, outs: TypedAssigns) -> VmContext {
    let mut info = op_info();
    info.prev_state = vec![(1, ins)];
    info.owned_state = vec![(1, outs)];
    context(info)
}

#[test]
fn svs_passes_on_balanced_sums() {
    let ctx = sums_context(
        vec![RevealedState::Fungible(30), RevealedState::Fungible(12)],
        TypedAssigns::Fungible(vec![40, 2]),
    );
    let mut regs = Registers::new();
    assert_eq!(run(ContractOp::Svs(1), &mut regs, &ctx), ExecStep::Next);
    assert!(regs.st0);
}

#[test]
fn svs_fails_on_unbalanced_sums() {
    let ctx = sums_context(vec![RevealedState::Fungible(30)], TypedAssigns::Fungible(vec![31]));
    let mut regs = Registers::new();
    assert_eq!(run(ContractOp::Svs(1), &mut regs, &ctx), ExecStep::Stop);
    assert!(!regs.st0);
}

#[test]
fn svs_fails_on_zero_output() {
    let ctx = sums_context(vec![RevealedState::Fungible(30)], TypedAssigns::Fungible(vec![30, 0]));
    let mut regs = Registers::new();
    assert_eq!(run(ContractOp::Svs(1), &mut regs, &ctx), ExecStep::Stop);
}

#[test]
fn svs_fails_on_overflow_and_non_fungible_states() {
    let ctx = sums_context(
        vec![RevealedState::Fungible(u64::MAX), RevealedState::Fungible(1)],
        TypedAssigns::Fungible(vec![u64::MAX, 1]),
    );
    let mut regs = Registers::new();
    assert_eq!(run(ContractOp::Svs(1), &mut regs, &ctx), ExecStep::Stop);

    let ctx = sums_context(vec![RevealedState::Void], TypedAssigns::Fungible(vec![]));
    let mut regs = Registers::new();
    assert_eq!(run(ContractOp::Svs(1), &mut regs, &ctx), ExecStep::Stop);

    let ctx = sums_context(vec![], TypedAssigns::Declarative(1));
    let mut regs = Registers::new();
    assert_eq!(run(ContractOp::Svs(1), &mut regs, &ctx), ExecStep::Stop);
}

#[test]
fn sums_fail_without_states_of_the_type() {
    let ctx = context(op_info());
    let mut regs = Registers::new();
    assert_eq!(run(ContractOp::Svs(1), &mut regs, &ctx), ExecStep::Stop);
    assert!(!regs.st0);

    let ctx = sums_context(vec![RevealedState::Fungible(3)], TypedAssigns::Fungible(vec![]));
    let mut regs = Registers::new();
    assert_eq!(run(ContractOp::Svs(1), &mut regs, &ctx), ExecStep::Stop);

    let ctx = sums_context(vec![], TypedAssigns::Fungible(vec![3]));
    let mut regs = Registers::new();
    regs.a64[0] = Some(0);
    assert_eq!(run(ContractOp::Sps(1), &mut regs, &ctx), ExecStep::Stop);

    let ctx = sums_context(vec![RevealedState::Fungible(3)], TypedAssigns::Fungible(vec![]));
    let mut regs = Registers::new();
    regs.a64[0] = Some(0);
    assert_eq!(run(ContractOp::Sas(1), &mut regs, &ctx), ExecStep::Stop);
}

#[test]
fn sas_passes_without_inputs() {
    let mut info = op_info();
    info.owned_state = vec![(1, TypedAssigns::Fungible(vec![4, 6]))];
    let ctx = context(info);
    let mut regs = Registers::new();
    regs.a64[0] = Some(10);
    assert_eq!(run(ContractOp::Sas(1), &mut regs, &ctx), ExecStep::Next);
    assert!(regs.st0);
}

#[test]
fn sas_and_sps_compare_with_a64_0() {
    let ctx = sums_context(
        vec![RevealedState::Fungible(5), RevealedState::Fungible(6)],
        TypedAssigns::Fungible(vec![8, 9]),
    );
    let mut regs = Registers::new();
    regs.a64[0] = Some(17);
    assert_eq!(run(ContractOp::Sas(1), &mut regs, &ctx), ExecStep::Next);
    assert_eq!(run(ContractOp::Sps(1), &mut regs, &ctx), ExecStep::Stop);
    assert!(!regs.st0);

    let mut regs = Registers::new();
    regs.a64[0] = Some(11);
    assert_eq!(run(ContractOp::Sps(1), &mut regs, &ctx), ExecStep::Next);
    assert!(regs.st0);

    let mut regs = Registers::new();
    assert_eq!(run(ContractOp::Sas(1), &mut regs, &ctx), ExecStep::Stop);
}

fn signed_transition(id: [u8; 32], sk: &SecretKey) -> (OpInfo, Vec<u8>) {
    let secp = Secp256k1::new();
    let sig = secp.sign_ecdsa(&Message::from_digest(id), sk);
    let pk = PublicKey::from_secret_key(&secp, sk);
    let mut info = op_info();
    info.id = id;
    info.kind = OpKind::Transition { signature: Some(sig.serialize_compact().to_vec()) };
    (info, pk.serialize().to_vec())
}

#[test]
fn vts_accepts_a_valid_signature() {
    let sk = SecretKey::from_slice(&[0x11; 32]).unwrap();
    let (info, pk) = signed_transition([9u8; 32], &sk);
    let ctx = context(info);
    let mut regs = Registers::new();
    regs.s16[2] = Some(pk);
    assert_eq!(run(ContractOp::Vts(2), &mut regs, &ctx), ExecStep::Next);
    assert!(regs.st0);
}

#[test]
fn vts_rejects_another_key_message_or_genesis() {
    let sk = SecretKey::from_slice(&[0x11; 32]).unwrap();
    let other = SecretKey::from_slice(&[0x22; 32]).unwrap();
    let secp = Secp256k1::new();
    let other_pk = PublicKey::from_secret_key(&secp, &other).serialize().to_vec();

    let (info, _) = signed_transition([9u8; 32], &sk);
    let ctx = context(info);
    let mut regs = Registers::new();
    regs.s16[2] = Some(other_pk);
    assert_eq!(run(ContractOp::Vts(2), &mut regs, &ctx), ExecStep::Stop);
    assert!(!regs.st0);

    let (mut info, pk) = signed_transition([9u8; 32], &sk);
    info.id = [8u8; 32];
    let ctx = context(info);
    let mut regs = Registers::new();
    regs.s16[2] = Some(pk.clone());
    assert_eq!(run(ContractOp::Vts(2), &mut regs, &ctx), ExecStep::Stop);

    let ctx = context(op_info());
    let mut regs = Registers::new();
    regs.s16[2] = Some(pk.clone());
    assert_eq!(run(ContractOp::Vts(2), &mut regs, &ctx), ExecStep::Stop);

    let (mut info, _) = signed_transition([9u8; 32], &sk);
    info.kind = OpKind::Transition { signature: None };
    let ctx = context(info);
    let mut regs = Registers::new();
    regs.s16[2] = Some(pk);
    assert_eq!(run(ContractOp::Vts(2), &mut regs, &ctx), ExecStep::Stop);

    let (info, _) = signed_transition([9u8; 32], &sk);
    let ctx = context(info);
    let mut regs = Registers::new();
    regs.s16[2] = Some(vec![1, 2, 3]);
    assert_eq!(run(ContractOp::Vts(2), &mut regs, &ctx), ExecStep::Stop);
}

#[test]
fn fail_op_stops_and_changes_only_status() {
    let ctx = context(op_info());
    let mut regs = Registers::new();
    regs.a16[0] = Some(5);
    assert_eq!(run(ContractOp::Fail(0xFF), &mut regs, &ctx), ExecStep::Stop);
    assert!(!regs.st0);
    assert_eq!(regs.a16[0], Some(5));
}

#[test]
fn results_depend_only_on_source_registers() {
    let mut info = op_info();
    info.owned_state = vec![(2, TypedAssigns::Fungible(vec![10, 20]))];
    let ctx = context(info);
    let mut r1 = Registers::new();
    r1.a16[1] = Some(1);
    r1.a64[6] = Some(99);
    let mut r2 = Registers::new();
    r2.a16[1] = Some(1);
    r2.a8[0] = Some(3);
    r2.s16[0] = Some(vec![1]);
    let s1 = run(ContractOp::LdF(2, 1, 6), &mut r1, &ctx);
    let s2 = run(ContractOp::LdF(2, 1, 6), &mut r2, &ctx);
    assert_eq!(s1, s2);
    assert_eq!(r1.a64[6], r2.a64[6]);
    assert_eq!(r1.a64[6], Some(20));
    assert_eq!(r1.st0, r2.st0);
}

#[test]
fn operations_write_only_destination_registers() {
    let mut info = op_info();
    info.metadata = vec![(8, vec![4])];
    let ctx = context(info);
    let mut regs = Registers::new();
    regs.a8[0] = Some(1);
    regs.s16[1] = Some(vec![2]);
    assert_eq!(run(ContractOp::LdM(8, 3), &mut regs, &ctx), ExecStep::Next);
    assert_eq!(regs.s16[3], Some(vec![4]));
    assert_eq!(regs.s16[1], Some(vec![2]));
    assert_eq!(regs.a8[0], Some(1));
    assert!(ContractOp::LdM(8, 3).dst_regs().contains(&rgb_contract_op::Reg::S16(3)));
}

#[test]
fn executability_checks_register_range_and_global_count() {
    let mut info = op_info();
    info.global = vec![(1, vec![vec![]; 256])];
    let ctx = context(info);
    assert!(!ContractOp::CnG(1, 0).is_executable(&ctx));
    assert!(ContractOp::CnG(2, 0).is_executable(&ctx));
    assert!(!ContractOp::CnP(1, 32).is_executable(&ctx));
    assert!(!ContractOp::LdP(1, 16, 0).is_executable(&ctx));
    assert!(ContractOp::Fail(0).is_executable(&ctx));
}
