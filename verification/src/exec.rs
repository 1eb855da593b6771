//! Execution of contract operations.
//!
//! An operation that fails clears the status flag `st0`; every operation but
//! `LdR` then stops the program. An operation that succeeds writes at most
//! one register and lets the program go on.
use vstd::prelude::*;

use crate::context::{
    find_at, find_index, find_key, find_outpoint_index, OpKind, Outpoint, RevealedState,
    TypedAssigns, VmContext,
};
use crate::op::{ContractOp, Reg};
use crate::regs::{bytes_view, reg_in_range, reg_value, regs_wf, Registers, RegsView};
use crate::sig::{
    ecdsa_verify, parse_pubkey, parse_signature, pubkey_from_slice, signature_from_compact,
    verify_signature,
};

verus! {

/// What the program does after an operation.
#[derive(Clone, Copy, PartialEq, Eq, Structural, Debug)]
pub enum ExecStep {
    /// Go on with the next instruction.
    Next,
    /// Stop the program.
    Stop,
}

// ---------------------------------------------------------------------------
// What operations read from their context
// ---------------------------------------------------------------------------

/// The states of type `t` the operation spends.
pub open spec fn prev_states(ctx: VmContext, t: u16) -> Option<Vec<RevealedState>> {
    find_key(ctx.op_info.prev_state@, t)
}

/// The states of type `t` the operation assigns.
pub open spec fn owned_states(ctx: VmContext, t: u16) -> Option<TypedAssigns> {
    find_key(ctx.op_info.owned_state@, t)
}

/// The global state of type `t` the operation defines.
pub open spec fn op_globals(ctx: VmContext, t: u16) -> Option<Vec<Vec<u8>>> {
    find_key(ctx.op_info.global@, t)
}

/// The contract global state of type `t`, most recent first; `None` when the
/// type is unknown to the contract.
pub open spec fn contract_globals(ctx: VmContext, t: u16) -> Option<Vec<Vec<u8>>> {
    find_key(ctx.contract_state.global@, t)
}

/// The number of states of type `t` the operation spends.
pub open spec fn count_prev(ctx: VmContext, t: u16) -> u16 {
    match prev_states(ctx, t) {
        Some(a) => a.len() as u16,
        None => 0,
    }
}

/// The number of states of type `t` the operation assigns.
pub open spec fn count_owned(ctx: VmContext, t: u16) -> u16 {
    match owned_states(ctx, t) {
        Some(a) => a.spec_len(),
        None => 0,
    }
}

/// The number of global state items of type `t` the operation defines.
pub open spec fn count_op_globals(ctx: VmContext, t: u16) -> u16 {
    match op_globals(ctx, t) {
        Some(a) => a.len() as u16,
        None => 0,
    }
}

/// The number of contract global state items of type `t`.
pub open spec fn count_contract_globals(ctx: VmContext, t: u16) -> u32 {
    match contract_globals(ctx, t) {
        Some(a) => a.len() as u32,
        None => 0,
    }
}

/// The structured state of type `t` the operation spends at `idx`.
pub open spec fn prev_structured(ctx: VmContext, t: u16, idx: u16) -> Option<Seq<u8>> {
    match prev_states(ctx, t) {
        Some(a) => if idx < a.len() {
            match a[idx as int] {
                RevealedState::Structured(d) => Some(d@),
                _ => None,
            }
        } else {
            None
        },
        None => None,
    }
}

/// The structured state of type `t` the operation assigns at `idx`.
pub open spec fn owned_structured(ctx: VmContext, t: u16, idx: u16) -> Option<Seq<u8>> {
    match owned_states(ctx, t) {
        Some(TypedAssigns::Structured(v)) => if idx < v.len() {
            Some(v[idx as int]@)
        } else {
            None
        },
        _ => None,
    }
}

/// The fungible state of type `t` the operation assigns at `idx`.
pub open spec fn owned_fungible(ctx: VmContext, t: u16, idx: u16) -> Option<u64> {
    match owned_states(ctx, t) {
        Some(TypedAssigns::Fungible(v)) => if idx < v.len() {
            Some(v[idx as int])
        } else {
            None
        },
        _ => None,
    }
}

/// The global state item of type `t` the operation defines at `idx`.
pub open spec fn op_global_at(ctx: VmContext, t: u16, idx: u8) -> Option<Seq<u8>> {
    match op_globals(ctx, t) {
        Some(a) => if idx < a.len() {
            Some(a[idx as int]@)
        } else {
            None
        },
        None => None,
    }
}

/// The metadata of type `t`.
pub open spec fn metadata_of(ctx: VmContext, t: u16) -> Option<Seq<u8>> {
    match find_key(ctx.op_info.metadata@, t) {
        Some(m) => Some(m@),
        None => None,
    }
}

/// The fungible amounts of type `t` the contract holds at `at`.
pub open spec fn fungible_at(ctx: VmContext, at: Outpoint, t: u16) -> Seq<u64> {
    match find_at(ctx.contract_state.fungible@, at, t) {
        Some(v) => v@,
        None => Seq::empty(),
    }
}

/// The structured data of type `t` the contract holds at `at`.
pub open spec fn data_at(ctx: VmContext, at: Outpoint, t: u16) -> Seq<Vec<u8>> {
    match find_at(ctx.contract_state.data@, at, t) {
        Some(v) => v@,
        None => Seq::empty(),
    }
}

/// The number of rights of type `t` the contract holds at `at`.
pub open spec fn rights_at(ctx: VmContext, at: Outpoint, t: u16) -> u32 {
    match find_at(ctx.contract_state.rights@, at, t) {
        Some(n) => n,
        None => 0,
    }
}

/// The amount of a fungible spent state.
pub open spec fn amount_of(s: RevealedState) -> u64 {
    match s {
        RevealedState::Fungible(v) => v,
        _ => 0,
    }
}

/// The amounts of type `t` the operation spends, or `None` when one of the
/// spent states of that type is not fungible.
pub open spec fn input_values(ctx: VmContext, t: u16) -> Option<Seq<u64>> {
    match prev_states(ctx, t) {
        None => Some(Seq::empty()),
        Some(a) => if forall|i: int| 0 <= i < a.len() ==> #[trigger] a[i] is Fungible {
            Some(Seq::new(a.len() as nat, |i: int| amount_of(a[i])))
        } else {
            None
        },
    }
}

/// The amounts of type `t` the operation assigns, or `None` when its states
/// of that type are not fungible.
pub open spec fn output_values(ctx: VmContext, t: u16) -> Option<Seq<u64>> {
    match owned_states(ctx, t) {
        None => Some(Seq::empty()),
        Some(TypedAssigns::Fungible(v)) => Some(v@),
        Some(_) => None,
    }
}

/// The sum of amounts.
pub open spec fn seq_sum(s: Seq<u64>) -> int
    decreases s.len(),
{
    if s.len() == 0 {
        0
    } else {
        seq_sum(s.drop_last()) + s.last()
    }
}

/// Spent and assigned amounts of type `t` balance: the operation spends and
/// assigns some states of that type, all of them fungible, no assigned
/// amount is zero, and both sums are equal and fit in 64 bits.
pub open spec fn sums_balance(ctx: VmContext, t: u16) -> bool {
    match (input_values(ctx, t), output_values(ctx, t)) {
        (Some(ins), Some(outs)) => ins.len() > 0 && outs.len() > 0 && !outs.contains(0u64)
            && seq_sum(ins) == seq_sum(outs) && seq_sum(ins) <= u64::MAX,
        _ => false,
    }
}

/// The operation assigns some states of type `t`, all fungible, none zero,
/// and their amounts sum to `s`.
pub open spec fn outputs_sum_to(ctx: VmContext, t: u16, s: u64) -> bool {
    match output_values(ctx, t) {
        Some(outs) => outs.len() > 0 && !outs.contains(0u64) && seq_sum(outs) == s,
        None => false,
    }
}

/// The operation spends some states of type `t`, all fungible, and their
/// amounts sum to `s`.
pub open spec fn inputs_sum_to(ctx: VmContext, t: u16, s: u64) -> bool {
    match input_values(ctx, t) {
        Some(ins) => ins.len() > 0 && seq_sum(ins) == s,
        None => false,
    }
}

/// The operation is a transition whose signature, over the operation id,
/// verifies under the public key `pk`.
pub open spec fn signature_valid(ctx: VmContext, pk: Option<Seq<u8>>) -> bool {
    match ctx.op_info.kind {
        OpKind::Genesis => false,
        OpKind::Transition { signature } => match pk {
            None => false,
            Some(pk) => match pubkey_from_slice(pk) {
                Err(_) => false,
                Ok(key) => match signature {
                    None => false,
                    Some(sig) => match signature_from_compact(sig@) {
                        Err(_) => false,
                        Ok(s) => ecdsa_verify(s, ctx.op_info.id, key) is Ok,
                    },
                },
            },
        },
    }
}

// ---------------------------------------------------------------------------
// The effect of an operation
// ---------------------------------------------------------------------------

/// The registers with the status flag cleared.
pub open spec fn fail_regs(r: RegsView) -> RegsView {
    RegsView { st0: false, ..r }
}

/// Failing: clear the status flag and stop.
pub open spec fn fail(r: RegsView) -> (RegsView, ExecStep) {
    (fail_regs(r), ExecStep::Stop)
}

/// The registers with `a8[i]` set to `v`.
pub open spec fn with_a8(r: RegsView, i: u8, v: u8) -> RegsView {
    RegsView { a8: r.a8.update(i as int, Some(v)), ..r }
}

/// The registers with `a16[i]` set to `v`.
pub open spec fn with_a16(r: RegsView, i: u8, v: u16) -> RegsView {
    RegsView { a16: r.a16.update(i as int, Some(v)), ..r }
}

/// The registers with `a32[i]` set to `v`.
pub open spec fn with_a32(r: RegsView, i: u8, v: u32) -> RegsView {
    RegsView { a32: r.a32.update(i as int, Some(v)), ..r }
}

/// The registers with `a64[i]` set to `v`.
pub open spec fn with_a64(r: RegsView, i: u8, v: u64) -> RegsView {
    RegsView { a64: r.a64.update(i as int, Some(v)), ..r }
}

/// The registers with `s16[i]` set to `v`.
pub open spec fn with_s16(r: RegsView, i: u8, v: Seq<u8>) -> RegsView {
    RegsView { s16: r.s16.update(i as int, Some(v)), ..r }
}

/// Loads `v` into `s16[i]`, or fails when there is nothing to load.
pub open spec fn load_s16(r: RegsView, i: u8, v: Option<Seq<u8>>) -> (RegsView, ExecStep) {
    match v {
        Some(d) => (with_s16(r, i, d), ExecStep::Next),
        None => fail(r),
    }
}

/// The registers after operation `op` on registers `r` in context `ctx`,
/// and what the program does next.
pub open spec fn exec_spec(op: ContractOp, r: RegsView, ctx: VmContext) -> (RegsView, ExecStep) {
    match op {
        ContractOp::CnP(t, i) => (with_a16(r, i, count_prev(ctx, t)), ExecStep::Next),
        ContractOp::CnS(t, i) => (with_a16(r, i, count_owned(ctx, t)), ExecStep::Next),
        ContractOp::CnG(t, i) => (with_a8(r, i, count_op_globals(ctx, t) as u8), ExecStep::Next),
        ContractOp::CnC(t, i) => (with_a32(r, i, count_contract_globals(ctx, t)), ExecStep::Next),
        ContractOp::LdP(t, ri, rs) => match r.a16[ri as int] {
            None => fail(r),
            Some(idx) => load_s16(r, rs, prev_structured(ctx, t, idx)),
        },
        ContractOp::LdS(t, ri, rs) => match r.a16[ri as int] {
            None => fail(r),
            Some(idx) => load_s16(r, rs, owned_structured(ctx, t, idx)),
        },
        ContractOp::LdF(t, ri, rd) => match r.a16[ri as int] {
            None => fail(r),
            Some(idx) => match owned_fungible(ctx, t, idx) {
                Some(v) => (with_a64(r, rd, v), ExecStep::Next),
                None => fail(r),
            },
        },
        ContractOp::LdR(t, ri) => match r.a16[ri as int] {
            None => (fail_regs(r), ExecStep::Next),
            Some(idx) => match owned_states(ctx, t) {
                Some(TypedAssigns::Declarative(n)) => if idx < n {
                    (r, ExecStep::Next)
                } else {
                    (fail_regs(r), ExecStep::Next)
                },
                _ => (fail_regs(r), ExecStep::Next),
            },
        },
        ContractOp::LdG(t, ri, rs) => match r.a8[ri as int] {
            None => fail(r),
            Some(idx) => load_s16(r, rs, op_global_at(ctx, t, idx)),
        },
        ContractOp::LdC(t, ri, rs) => match contract_globals(ctx, t) {
            None => fail(r),
            Some(items) => match r.a32[ri as int] {
                None => fail(r),
                Some(depth) => if depth < 0x100_0000 && depth < items.len() {
                    (with_s16(r, rs, items[depth as int]@), ExecStep::Next)
                } else {
                    fail(r)
                },
            },
        },
        ContractOp::LdM(t, rs) => load_s16(r, rs, metadata_of(ctx, t)),
        ContractOp::LdOF(t, rt, rv, ri, rd) => match (
            r.r256[rt as int],
            r.a32[rv as int],
            r.a16[ri as int],
        ) {
            (Some(txid), Some(vout), Some(idx)) => {
                let amounts = fungible_at(ctx, Outpoint { txid, vout }, t);
                if idx < amounts.len() {
                    (with_a64(r, rd, amounts[idx as int]), ExecStep::Next)
                } else {
                    fail(r)
                }
            },
            _ => fail(r),
        },
        ContractOp::LdOD(t, rt, rv, ri, rd) => match (
            r.r256[rt as int],
            r.a32[rv as int],
            r.a16[ri as int],
        ) {
            (Some(txid), Some(vout), Some(idx)) => {
                let items = data_at(ctx, Outpoint { txid, vout }, t);
                if idx < items.len() {
                    (with_s16(r, rd, items[idx as int]@), ExecStep::Next)
                } else {
                    fail(r)
                }
            },
            _ => fail(r),
        },
        ContractOp::LdOR(t, rt, rv, rd) => match (r.r256[rt as int], r.a32[rv as int]) {
            (Some(txid), Some(vout)) => (
                with_a32(r, rd, rights_at(ctx, Outpoint { txid, vout }, t)),
                ExecStep::Next,
            ),
            _ => fail(r),
        },
        ContractOp::Svs(t) => if sums_balance(ctx, t) {
            (r, ExecStep::Next)
        } else {
            fail(r)
        },
        ContractOp::Sas(t) => match r.a64[0] {
            Some(s) => if outputs_sum_to(ctx, t, s) {
                (r, ExecStep::Next)
            } else {
                fail(r)
            },
            None => fail(r),
        },
        ContractOp::Sps(t) => match r.a64[0] {
            Some(s) => if inputs_sum_to(ctx, t, s) {
                (r, ExecStep::Next)
            } else {
                fail(r)
            },
            None => fail(r),
        },
        ContractOp::Vts(rs) => if signature_valid(ctx, r.s16[rs as int]) {
            (r, ExecStep::Next)
        } else {
            fail(r)
        },
        ContractOp::Fail(_) => fail(r),
    }
}

// ---------------------------------------------------------------------------
// Register writes
// ---------------------------------------------------------------------------

impl Registers {
    /// Clears the status flag.
    pub fn set_failure(&mut self)
        ensures
            final(self)@ == fail_regs(old(self)@),
    {
        self.st0 = false;
    }

    fn put_a8(&mut self, i: u8, v: u8)
        requires
            i < 32,
        ensures
            final(self)@ == with_a8(old(self)@, i, v),
    {
        self.a8[i as usize] = Some(v);
    }

    fn put_a16(&mut self, i: u8, v: u16)
        requires
            i < 32,
        ensures
            final(self)@ == with_a16(old(self)@, i, v),
    {
        self.a16[i as usize] = Some(v);
    }

    fn put_a32(&mut self, i: u8, v: u32)
        requires
            i < 32,
        ensures
            final(self)@ == with_a32(old(self)@, i, v),
    {
        self.a32[i as usize] = Some(v);
    }

    fn put_a64(&mut self, i: u8, v: u64)
        requires
            i < 32,
        ensures
            final(self)@ == with_a64(old(self)@, i, v),
    {
        self.a64[i as usize] = Some(v);
    }

    fn put_s16(&mut self, i: u8, v: &Vec<u8>)
        requires
            i < 16,
        ensures
            final(self)@ == with_s16(old(self)@, i, v@),
    {
        let c = v.clone();
        assert(c@ =~= v@);
        let ghost before = self.s16@;
        self.s16[i as usize] = Some(c);
        assert(self.s16@.map_values(|o: Option<Vec<u8>>| bytes_view(o)) =~= before.map_values(
            |o: Option<Vec<u8>>| bytes_view(o),
        ).update(i as int, Some(v@)));
    }
}

/// Clears the status flag and stops.
fn fail_step(regs: &mut Registers) -> (step: ExecStep)
    ensures
        (final(regs)@, step) == fail(old(regs)@),
{
    regs.set_failure();
    ExecStep::Stop
}

// ---------------------------------------------------------------------------
// Context reads
// ---------------------------------------------------------------------------

fn count_prev_exec(ctx: &VmContext, t: u16) -> (n: u16)
    ensures
        n == count_prev(*ctx, t),
{
    match find_index(&ctx.op_info.prev_state, t) {
        Some(k) => ctx.op_info.prev_state[k].1.len() as u16,
        None => 0,
    }
}

fn count_owned_exec(ctx: &VmContext, t: u16) -> (n: u16)
    ensures
        n == count_owned(*ctx, t),
{
    match find_index(&ctx.op_info.owned_state, t) {
        Some(k) => ctx.op_info.owned_state[k].1.len_u16(),
        None => 0,
    }
}

fn count_op_globals_exec(ctx: &VmContext, t: u16) -> (n: u16)
    ensures
        n == count_op_globals(*ctx, t),
{
    match find_index(&ctx.op_info.global, t) {
        Some(k) => ctx.op_info.global[k].1.len() as u16,
        None => 0,
    }
}

fn count_contract_globals_exec(ctx: &VmContext, t: u16) -> (n: u32)
    ensures
        n == count_contract_globals(*ctx, t),
{
    match find_index(&ctx.contract_state.global, t) {
        Some(k) => ctx.contract_state.global[k].1.len() as u32,
        None => 0,
    }
}

/// The amounts of type `t` the operation spends, or `None` when one of them
/// is not fungible.
fn input_amounts(ctx: &VmContext, t: u16) -> (r: Option<Vec<u64>>)
    ensures
        match r {
            Some(v) => input_values(*ctx, t) == Some(v@),
            None => input_values(*ctx, t) is None,
        },
{
    match find_index(&ctx.op_info.prev_state, t) {
        None => {
            let v: Vec<u64> = Vec::new();
            assert(v@ =~= Seq::<u64>::empty());
            Some(v)
        },
        Some(k) => {
            let states = &ctx.op_info.prev_state[k].1;
            let mut values: Vec<u64> = Vec::new();
            let mut i: usize = 0;
            while i < states.len()
                invariant
                    prev_states(*ctx, t) == Some(*states),
                    0 <= i <= states.len(),
                    values@.len() == i,
                    forall|j: int| 0 <= j < i ==> #[trigger] states[j] is Fungible,
                    forall|j: int| 0 <= j < i ==> values@[j] == amount_of(#[trigger] states[j]),
                decreases states.len() - i,
            {
                match &states[i] {
                    RevealedState::Fungible(v) => {
                        values.push(*v);
                    },
                    _ => {
                        assert(!(states[i as int] is Fungible));
                        assert(prev_states(*ctx, t) == Some(*states));
                        assert(!(forall|j: int| 0 <= j < states.len() ==> #[trigger] states[j] is Fungible));
                        return None;
                    },
                }
                i = i + 1;
            }
            assert(values@ =~= Seq::new(states.len() as nat, |j: int| amount_of(states[j])));
            Some(values)
        },
    }
}

/// The amounts of type `t` the operation assigns, or `None` when its states
/// of that type are not fungible.
fn output_amounts(ctx: &VmContext, t: u16) -> (r: Option<Vec<u64>>)
    ensures
        match r {
            Some(v) => output_values(*ctx, t) == Some(v@),
            None => output_values(*ctx, t) is None,
        },
{
    match find_index(&ctx.op_info.owned_state, t) {
        None => {
            let v: Vec<u64> = Vec::new();
            assert(v@ =~= Seq::<u64>::empty());
            Some(v)
        },
        Some(k) => match &ctx.op_info.owned_state[k].1 {
            TypedAssigns::Fungible(v) => {
                let c = v.clone();
                assert(c@ =~= v@);
                Some(c)
            },
            _ => None,
        },
    }
}

proof fn lemma_seq_sum_take(s: Seq<u64>, i: int)
    requires
        0 <= i <= s.len(),
    ensures
        0 <= seq_sum(s.take(i)) <= seq_sum(s),
    decreases s.len(),
{
    if i < s.len() {
        assert(s.drop_last().take(i) =~= s.take(i));
        lemma_seq_sum_take(s.drop_last(), i);
    } else {
        assert(s.take(i) =~= s);
        lemma_seq_sum_nonneg(s);
    }
}

proof fn lemma_seq_sum_nonneg(s: Seq<u64>)
    ensures
        seq_sum(s) >= 0,
    decreases s.len(),
{
    if s.len() > 0 {
        lemma_seq_sum_nonneg(s.drop_last());
    }
}

/// The sum of the amounts, or `None` when it overflows 64 bits.
fn checked_sum(v: &Vec<u64>) -> (r: Option<u64>)
    ensures
        match r {
            Some(s) => s == seq_sum(v@),
            None => seq_sum(v@) > u64::MAX,
        },
{
    let mut acc: u64 = 0;
    let mut i: usize = 0;
    assert(v@.take(0) =~= Seq::<u64>::empty());
    while i < v.len()
        invariant
            0 <= i <= v.len(),
            acc == seq_sum(v@.take(i as int)),
        decreases v.len() - i,
    {
        assert(v@.take(i + 1).drop_last() =~= v@.take(i as int));
        match acc.checked_add(v[i]) {
            Some(s) => {
                acc = s;
            },
            None => {
                proof {
                    lemma_seq_sum_take(v@, i + 1);
                }
                return None;
            },
        }
        i = i + 1;
    }
    assert(v@.take(i as int) =~= v@);
    Some(acc)
}

/// Whether one of the amounts is zero.
fn has_zero(v: &Vec<u64>) -> (r: bool)
    ensures
        r == v@.contains(0u64),
{
    let mut i: usize = 0;
    while i < v.len()
        invariant
            0 <= i <= v.len(),
            forall|j: int| 0 <= j < i ==> v@[j] != 0,
        decreases v.len() - i,
    {
        if v[i] == 0 {
            assert(v@[i as int] == 0u64);
            return true;
        }
        i = i + 1;
    }
    false
}

impl ContractOp {
    /// Whether [`ContractOp::exec`] can run the operation against the
    /// context: its register arguments are in range, and counting global
    /// state items into an 8-bit register finds fewer than 256 of them.
    pub fn is_executable(&self, context: &VmContext) -> (r: bool)
        ensures
            r == (self.regs_in_range() && exec_defined(*self, *context)),
    {
        let in_range = match self {
            ContractOp::CnP(_, r) | ContractOp::CnS(_, r) | ContractOp::CnG(_, r)
            | ContractOp::CnC(_, r) => *r < 32,
            ContractOp::LdP(_, a, b) | ContractOp::LdS(_, a, b) | ContractOp::LdF(_, a, b)
            | ContractOp::LdG(_, a, b) | ContractOp::LdC(_, a, b) => *a < 16 && *b < 16,
            ContractOp::LdR(_, a) | ContractOp::LdM(_, a) | ContractOp::Vts(a) => *a < 16,
            ContractOp::LdOF(_, a, b, c, d) | ContractOp::LdOD(_, a, b, c, d) => *a < 16 && *b
                < 16 && *c < 16 && *d < 16,
            ContractOp::LdOR(_, a, b, c) => *a < 16 && *b < 16 && *c < 16,
            ContractOp::Svs(_) | ContractOp::Sas(_) | ContractOp::Sps(_) | ContractOp::Fail(_) => {
                true
            },
        };
        match self {
            ContractOp::CnG(t, _) => in_range && count_op_globals_exec(context, *t) < 256,
            _ => in_range,
        }
    }

    /// Executes the operation on the registers against the context.
    ///
    /// A failing operation clears `st0` and stops the program (`LdR` lets it
    /// go on); otherwise the operation writes at most its destination
    /// register and the program goes on.
    pub fn exec(&self, regs: &mut Registers, context: &VmContext) -> (step: ExecStep)
        requires
            self.regs_in_range(),
            exec_defined(*self, *context),
        ensures
            (final(regs)@, step) == exec_spec(*self, old(regs)@, *context),
    {
        match self {
            ContractOp::CnP(t, i) => {
                let n = count_prev_exec(context, *t);
                regs.put_a16(*i, n);
                ExecStep::Next
            },
            ContractOp::CnS(t, i) => {
                let n = count_owned_exec(context, *t);
                regs.put_a16(*i, n);
                ExecStep::Next
            },
            ContractOp::CnG(t, i) => {
                let n = count_op_globals_exec(context, *t);
                regs.put_a8(*i, n as u8);
                ExecStep::Next
            },
            ContractOp::CnC(t, i) => {
                let n = count_contract_globals_exec(context, *t);
                regs.put_a32(*i, n);
                ExecStep::Next
            },
            ContractOp::LdP(_, _, _) | ContractOp::LdS(_, _, _) | ContractOp::LdF(_, _, _)
            | ContractOp::LdR(_, _) => self.exec_owned(regs, context),
            ContractOp::LdG(_, _, _) | ContractOp::LdC(_, _, _) | ContractOp::LdM(_, _) => {
                self.exec_global(regs, context)
            },
            ContractOp::LdOF(_, _, _, _, _) | ContractOp::LdOD(_, _, _, _, _)
            | ContractOp::LdOR(_, _, _, _) => self.exec_outpoint(regs, context),
            ContractOp::Svs(_) | ContractOp::Sas(_) | ContractOp::Sps(_) => {
                self.exec_sums(regs, context)
            },
            ContractOp::Vts(rs) => exec_vts(*rs, regs, context),
            ContractOp::Fail(_) => fail_step(regs),
        }
    }

    /// `LdP`, `LdS`, `LdF`, `LdR`: the states of the operation.
    fn exec_owned(&self, regs: &mut Registers, context: &VmContext) -> (step: ExecStep)
        requires
            self.regs_in_range(),
            self is LdP || self is LdS || self is LdF || self is LdR,
        ensures
            (final(regs)@, step) == exec_spec(*self, old(regs)@, *context),
    {
        match self {
            ContractOp::LdP(t, ri, rs) => {
                let idx = match regs.a16[*ri as usize] {
                    Some(v) => v,
                    None => {
                        return fail_step(regs);
                    },
                };
                match find_index(&context.op_info.prev_state, *t) {
                    Some(k) => {
                        let states = &context.op_info.prev_state[k].1;
                        if (idx as usize) < states.len() {
                            match &states[idx as usize] {
                                RevealedState::Structured(d) => {
                                    regs.put_s16(*rs, d);
                                    ExecStep::Next
                                },
                                _ => fail_step(regs),
                            }
                        } else {
                            fail_step(regs)
                        }
                    },
                    None => fail_step(regs),
                }
            },
            ContractOp::LdS(t, ri, rs) => {
                let idx = match regs.a16[*ri as usize] {
                    Some(v) => v,
                    None => {
                        return fail_step(regs);
                    },
                };
                match find_index(&context.op_info.owned_state, *t) {
                    Some(k) => match &context.op_info.owned_state[k].1 {
                        TypedAssigns::Structured(items) => {
                            if (idx as usize) < items.len() {
                                regs.put_s16(*rs, &items[idx as usize]);
                                ExecStep::Next
                            } else {
                                fail_step(regs)
                            }
                        },
                        _ => fail_step(regs),
                    },
                    None => fail_step(regs),
                }
            },
            ContractOp::LdF(t, ri, rd) => {
                let idx = match regs.a16[*ri as usize] {
                    Some(v) => v,
                    None => {
                        return fail_step(regs);
                    },
                };
                match find_index(&context.op_info.owned_state, *t) {
                    Some(k) => match &context.op_info.owned_state[k].1 {
                        TypedAssigns::Fungible(amounts) => {
                            if (idx as usize) < amounts.len() {
                                regs.put_a64(*rd, amounts[idx as usize]);
                                ExecStep::Next
                            } else {
                                fail_step(regs)
                            }
                        },
                        _ => fail_step(regs),
                    },
                    None => fail_step(regs),
                }
            },
            ContractOp::LdR(t, ri) => {
                let idx = match regs.a16[*ri as usize] {
                    Some(v) => v,
                    None => {
                        regs.set_failure();
                        return ExecStep::Next;
                    },
                };
                match find_index(&context.op_info.owned_state, *t) {
                    Some(k) => {
                        let assigns = &context.op_info.owned_state[k].1;
                        let declarative = match assigns {
                            TypedAssigns::Declarative(_) => true,
                            _ => false,
                        };
                        if !declarative || idx >= assigns.len_u16() {
                            regs.set_failure();
                        }
                        ExecStep::Next
                    },
                    None => {
                        regs.set_failure();
                        ExecStep::Next
                    },
                }
            },
            _ => {
                assert(false);
                ExecStep::Stop
            },
        }
    }

    /// `LdG`, `LdC`, `LdM`: global state and metadata.
    fn exec_global(&self, regs: &mut Registers, context: &VmContext) -> (step: ExecStep)
        requires
            self.regs_in_range(),
            self is LdG || self is LdC || self is LdM,
        ensures
            (final(regs)@, step) == exec_spec(*self, old(regs)@, *context),
    {
        match self {
            ContractOp::LdG(t, ri, rs) => {
                let idx = match regs.a8[*ri as usize] {
                    Some(v) => v,
                    None => {
                        return fail_step(regs);
                    },
                };
                match find_index(&context.op_info.global, *t) {
                    Some(k) => {
                        let items = &context.op_info.global[k].1;
                        if (idx as usize) < items.len() {
                            regs.put_s16(*rs, &items[idx as usize]);
                            ExecStep::Next
                        } else {
                            fail_step(regs)
                        }
                    },
                    None => fail_step(regs),
                }
            },
            ContractOp::LdC(t, ri, rs) => {
                let k = match find_index(&context.contract_state.global, *t) {
                    Some(k) => k,
                    None => {
                        return fail_step(regs);
                    },
                };
                let depth = match regs.a32[*ri as usize] {
                    Some(v) => v,
                    None => {
                        return fail_step(regs);
                    },
                };
                if depth >= 0x100_0000 {
                    return fail_step(regs);
                }
                let items = &context.contract_state.global[k].1;
                if (depth as usize) < items.len() {
                    regs.put_s16(*rs, &items[depth as usize]);
                    ExecStep::Next
                } else {
                    fail_step(regs)
                }
            },
            ContractOp::LdM(t, rs) => {
                match find_index(&context.op_info.metadata, *t) {
                    Some(k) => {
                        regs.put_s16(*rs, &context.op_info.metadata[k].1);
                        ExecStep::Next
                    },
                    None => fail_step(regs),
                }
            },
            _ => {
                assert(false);
                ExecStep::Stop
            },
        }
    }

    /// `LdOF`, `LdOD`, `LdOR`: contract state at an outpoint.
    fn exec_outpoint(&self, regs: &mut Registers, context: &VmContext) -> (step: ExecStep)
        requires
            self.regs_in_range(),
            self is LdOF || self is LdOD || self is LdOR,
        ensures
            (final(regs)@, step) == exec_spec(*self, old(regs)@, *context),
    {
        let (t, rt, rv) = match self {
            ContractOp::LdOF(t, rt, rv, _, _) | ContractOp::LdOD(t, rt, rv, _, _)
            | ContractOp::LdOR(t, rt, rv, _) => (*t, *rt, *rv),
            _ => {
                assert(false);
                return ExecStep::Stop;
            },
        };
        let txid = match regs.r256[rt as usize] {
            Some(v) => v,
            None => {
                return fail_step(regs);
            },
        };
        let vout = match regs.a32[rv as usize] {
            Some(v) => v,
            None => {
                return fail_step(regs);
            },
        };
        let at = Outpoint { txid, vout };
        match self {
            ContractOp::LdOR(_, _, _, rd) => {
                let n = match find_outpoint_index(&context.contract_state.rights, at, t) {
                    Some(k) => context.contract_state.rights[k].1,
                    None => 0,
                };
                regs.put_a32(*rd, n);
                ExecStep::Next
            },
            ContractOp::LdOF(_, _, _, ri, rd) => {
                let idx = match regs.a16[*ri as usize] {
                    Some(v) => v,
                    None => {
                        return fail_step(regs);
                    },
                };
                match find_outpoint_index(&context.contract_state.fungible, at, t) {
                    Some(k) => {
                        let amounts = &context.contract_state.fungible[k].1;
                        if (idx as usize) < amounts.len() {
                            regs.put_a64(*rd, amounts[idx as usize]);
                            ExecStep::Next
                        } else {
                            fail_step(regs)
                        }
                    },
                    None => fail_step(regs),
                }
            },
            ContractOp::LdOD(_, _, _, ri, rd) => {
                let idx = match regs.a16[*ri as usize] {
                    Some(v) => v,
                    None => {
                        return fail_step(regs);
                    },
                };
                match find_outpoint_index(&context.contract_state.data, at, t) {
                    Some(k) => {
                        let items = &context.contract_state.data[k].1;
                        if (idx as usize) < items.len() {
                            regs.put_s16(*rd, &items[idx as usize]);
                            ExecStep::Next
                        } else {
                            fail_step(regs)
                        }
                    },
                    None => fail_step(regs),
                }
            },
            _ => {
                assert(false);
                ExecStep::Stop
            },
        }
    }

    /// `Svs`, `Sas`, `Sps`: sums of fungible amounts.
    fn exec_sums(&self, regs: &mut Registers, context: &VmContext) -> (step: ExecStep)
        requires
            self is Svs || self is Sas || self is Sps,
        ensures
            (final(regs)@, step) == exec_spec(*self, old(regs)@, *context),
    {
        match self {
            ContractOp::Svs(t) => {
                let ins = match input_amounts(context, *t) {
                    Some(v) => v,
                    None => {
                        return fail_step(regs);
                    },
                };
                let sum_in = match checked_sum(&ins) {
                    Some(s) => s,
                    None => {
                        return fail_step(regs);
                    },
                };
                let outs = match output_amounts(context, *t) {
                    Some(v) => v,
                    None => {
                        return fail_step(regs);
                    },
                };
                if ins.len() == 0 || outs.len() == 0 {
                    return fail_step(regs);
                }
                if has_zero(&outs) {
                    return fail_step(regs);
                }
                let sum_out = match checked_sum(&outs) {
                    Some(s) => s,
                    None => {
                        return fail_step(regs);
                    },
                };
                if sum_in != sum_out {
                    return fail_step(regs);
                }
                ExecStep::Next
            },
            ContractOp::Sas(t) => {
                let sum = match regs.a64[0] {
                    Some(s) => s,
                    None => {
                        return fail_step(regs);
                    },
                };
                let outs = match output_amounts(context, *t) {
                    Some(v) => v,
                    None => {
                        return fail_step(regs);
                    },
                };
                if outs.len() == 0 || has_zero(&outs) {
                    return fail_step(regs);
                }
                let sum_out = match checked_sum(&outs) {
                    Some(s) => s,
                    None => {
                        return fail_step(regs);
                    },
                };
                if sum != sum_out {
                    return fail_step(regs);
                }
                ExecStep::Next
            },
            ContractOp::Sps(t) => {
                let sum = match regs.a64[0] {
                    Some(s) => s,
                    None => {
                        return fail_step(regs);
                    },
                };
                let ins = match input_amounts(context, *t) {
                    Some(v) => v,
                    None => {
                        return fail_step(regs);
                    },
                };
                if ins.len() == 0 {
                    return fail_step(regs);
                }
                let sum_in = match checked_sum(&ins) {
                    Some(s) => s,
                    None => {
                        return fail_step(regs);
                    },
                };
                if sum != sum_in {
                    return fail_step(regs);
                }
                ExecStep::Next
            },
            _ => {
                assert(false);
                ExecStep::Stop
            },
        }
    }
}

/// `Vts`: verifies the transition signature against the key in `s16[rs]`.
fn exec_vts(rs: u8, regs: &mut Registers, context: &VmContext) -> (step: ExecStep)
    requires
        rs < 16,
    ensures
        (final(regs)@, step) == exec_spec(ContractOp::Vts(rs), old(regs)@, *context),
{
    match &context.op_info.kind {
        OpKind::Genesis => fail_step(regs),
        OpKind::Transition { signature } => {
            let parsed = match &regs.s16[rs as usize] {
                Some(pk) => Some(parse_pubkey(pk.as_slice())),
                None => None,
            };
            let key = match parsed {
                Some(Ok(key)) => key,
                _ => {
                    return fail_step(regs);
                },
            };
            let sig_bytes = match signature {
                Some(sig) => sig,
                None => {
                    return fail_step(regs);
                },
            };
            let sig = match parse_signature(sig_bytes.as_slice()) {
                Ok(sig) => sig,
                Err(_) => {
                    return fail_step(regs);
                },
            };
            match verify_signature(&sig, context.op_info.id, &key) {
                Ok(()) => ExecStep::Next,
                Err(_) => fail_step(regs),
            }
        },
    }
}

// ---------------------------------------------------------------------------
// Laws of execution
// ---------------------------------------------------------------------------

/// Law: an operation never sets the status flag; when it stops the program
/// it has failed, and a failure changes no register but the status flag.
/// Every operation but `LdR` that lets the program go on leaves the status
/// flag as it was (`LdR` may fail and still go on).
pub proof fn lemma_exec_status(op: ContractOp, r: RegsView, ctx: VmContext)
    ensures
        exec_spec(op, r, ctx).0.st0 ==> r.st0,
        exec_spec(op, r, ctx).1 == ExecStep::Stop ==> exec_spec(op, r, ctx).0 == fail_regs(r),
        exec_spec(op, r, ctx).0.st0 != r.st0 ==> exec_spec(op, r, ctx).0 == fail_regs(r),
        !(op is LdR) && exec_spec(op, r, ctx).1 == ExecStep::Next ==> exec_spec(op, r, ctx).0.st0
            == r.st0,
{
}

/// Law: an operation writes no register but those `dst_regs` lists (and the
/// status flag).
pub proof fn lemma_exec_writes_only_dst_regs(op: ContractOp, r: RegsView, ctx: VmContext, reg: Reg)
    requires
        op.regs_in_range(),
        regs_wf(r),
        reg_in_range(reg),
        !op.spec_dst_regs().contains(reg),
    ensures
        reg_value(exec_spec(op, r, ctx).0, reg) == reg_value(r, reg),
{
    match op {
        ContractOp::CnP(_, i) | ContractOp::CnS(_, i) => {
            assert(op.spec_dst_regs()[0] == Reg::A16(i));
        },
        ContractOp::CnG(_, i) => {
            assert(op.spec_dst_regs()[0] == Reg::A8(i));
        },
        ContractOp::CnC(_, i) => {
            assert(op.spec_dst_regs()[0] == Reg::A32(i));
        },
        ContractOp::LdF(_, _, i) | ContractOp::LdOF(_, _, _, _, i) => {
            assert(op.spec_dst_regs()[0] == Reg::A64(i));
        },
        ContractOp::LdOR(_, _, _, i) => {
            assert(op.spec_dst_regs()[0] == Reg::A32(i));
        },
        ContractOp::LdG(_, _, i) | ContractOp::LdS(_, _, i) | ContractOp::LdP(_, _, i)
        | ContractOp::LdC(_, _, i) | ContractOp::LdM(_, i) | ContractOp::LdOD(_, _, _, _, i) => {
            assert(op.spec_dst_regs()[0] == Reg::S16(i));
        },
        _ => {},
    }
}

/// Law: what an operation does depends on the registers only through those
/// `src_regs` lists and the status flag: on
/// registers that agree there it takes the same step and leaves the same
/// status flag, every register on which they agreed before they agree on
/// after, and when the program goes on they agree on every register that
/// `dst_regs` lists.
pub proof fn lemma_exec_reads_only_src_regs(
    op: ContractOp,
    r1: RegsView,
    r2: RegsView,
    ctx: VmContext,
)
    requires
        op.regs_in_range(),
        regs_wf(r1),
        regs_wf(r2),
        r1.st0 == r2.st0,
        forall|reg: Reg|
            op.spec_src_regs().contains(reg) ==> #[trigger] reg_value(r1, reg) == reg_value(
                r2,
                reg,
            ),
    ensures
        exec_spec(op, r1, ctx).1 == exec_spec(op, r2, ctx).1,
        exec_spec(op, r1, ctx).0.st0 == exec_spec(op, r2, ctx).0.st0,
        forall|reg: Reg|
            reg_in_range(reg) && reg_value(r1, reg) == reg_value(r2, reg) ==> #[trigger] reg_value(
                exec_spec(op, r1, ctx).0,
                reg,
            ) == reg_value(exec_spec(op, r2, ctx).0, reg),
        exec_spec(op, r1, ctx).1 == ExecStep::Next ==> forall|reg: Reg|
            op.spec_dst_regs().contains(reg) ==> #[trigger] reg_value(exec_spec(op, r1, ctx).0, reg)
                == reg_value(exec_spec(op, r2, ctx).0, reg),
{
    let srcs = op.spec_src_regs();
    match op {
        ContractOp::LdP(_, i, _) | ContractOp::LdS(_, i, _) | ContractOp::LdF(_, i, _)
        | ContractOp::LdR(_, i) => {
            assert(srcs[0] == Reg::A16(i));
            assert(reg_value(r1, Reg::A16(i)) == reg_value(r2, Reg::A16(i)));
            assert(r1.a16[i as int] == r2.a16[i as int]);
        },
        ContractOp::LdG(_, i, _) => {
            assert(srcs[0] == Reg::A8(i));
            assert(reg_value(r1, Reg::A8(i)) == reg_value(r2, Reg::A8(i)));
            assert(r1.a8[i as int] == r2.a8[i as int]);
        },
        ContractOp::LdC(_, i, _) => {
            assert(srcs[0] == Reg::A32(i));
            assert(reg_value(r1, Reg::A32(i)) == reg_value(r2, Reg::A32(i)));
            assert(r1.a32[i as int] == r2.a32[i as int]);
        },
        ContractOp::LdOF(_, t, v, i, _) | ContractOp::LdOD(_, t, v, i, _) => {
            assert(srcs[0] == Reg::R256(t));
            assert(srcs[1] == Reg::A32(v));
            assert(srcs[2] == Reg::A16(i));
            assert(reg_value(r1, Reg::R256(t)) == reg_value(r2, Reg::R256(t)));
            assert(reg_value(r1, Reg::A32(v)) == reg_value(r2, Reg::A32(v)));
            assert(reg_value(r1, Reg::A16(i)) == reg_value(r2, Reg::A16(i)));
            assert(r1.a32[v as int] == r2.a32[v as int]);
            assert(r1.a16[i as int] == r2.a16[i as int]);
        },
        ContractOp::LdOR(_, t, v, _) => {
            assert(srcs[0] == Reg::R256(t));
            assert(srcs[1] == Reg::A32(v));
            assert(reg_value(r1, Reg::R256(t)) == reg_value(r2, Reg::R256(t)));
            assert(reg_value(r1, Reg::A32(v)) == reg_value(r2, Reg::A32(v)));
            assert(r1.a32[v as int] == r2.a32[v as int]);
        },
        ContractOp::Sas(_) | ContractOp::Sps(_) => {
            assert(srcs[0] == Reg::A64(0));
            assert(reg_value(r1, Reg::A64(0)) == reg_value(r2, Reg::A64(0)));
            assert(r1.a64[0] == r2.a64[0]);
        },
        ContractOp::Vts(i) => {
            assert(srcs[0] == Reg::S16(i));
            assert(reg_value(r1, Reg::S16(i)) == reg_value(r2, Reg::S16(i)));
            assert(r1.s16[i as int] == r2.s16[i as int]);
        },
        _ => {},
    }
    assert forall|reg: Reg|
        reg_in_range(reg) && reg_value(r1, reg) == reg_value(r2, reg) implies #[trigger] reg_value(
        exec_spec(op, r1, ctx).0,
        reg,
    ) == reg_value(exec_spec(op, r2, ctx).0, reg) by {
        if !op.spec_dst_regs().contains(reg) {
            lemma_exec_writes_only_dst_regs(op, r1, ctx, reg);
            lemma_exec_writes_only_dst_regs(op, r2, ctx, reg);
        }
    }
}

/// The inputs on which executing `op` does not panic: counting global state
/// items into an 8-bit register needs fewer than 256 of them.
pub open spec fn exec_defined(op: ContractOp, ctx: VmContext) -> bool {
    match op {
        ContractOp::CnG(t, _) => count_op_globals(ctx, t) < 256,
        _ => true,
    }
}

} // verus!
