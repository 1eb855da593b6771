//! What each contract operation does, stated over what it reads: the
//! entries of the operation's and the contract's state and the registers.
//! Each law gives, for one operation, when it lets the program go on and
//! what it leaves in its destination register then; otherwise it fails,
//! clearing the status flag and stopping the program.
use vstd::prelude::*;

use crate::context::{
    find_at, find_key, same_outpoint, OpKind, Outpoint, RevealedState, TypedAssigns, VmContext,
};
use crate::exec::{exec_spec, seq_sum, ExecStep};
use crate::op::ContractOp;
use crate::regs::RegsView;
use crate::sig::{ecdsa_verify, pubkey_from_slice, signature_from_compact};

verus! {

/// The amounts of spent states (a state that is not fungible counts as 0).
pub open spec fn spent_amounts(a: Seq<RevealedState>) -> Seq<u64> {
    Seq::new(
        a.len(),
        |i: int|
            match a[i] {
                RevealedState::Fungible(x) => x,
                _ => 0u64,
            },
    )
}

/// Every spent state is fungible.
pub open spec fn all_fungible(a: Seq<RevealedState>) -> bool {
    forall|i: int| 0 <= i < a.len() ==> (#[trigger] a[i] matches RevealedState::Fungible(_))
}

/// What a failing operation leaves: the registers with the status flag
/// cleared, and the program stopped.
pub open spec fn failed(r: RegsView, out: (RegsView, ExecStep)) -> bool {
    out.1 == ExecStep::Stop && out.0 == RegsView { st0: false, ..r }
}

/// Law of `Svs(t)`: it lets the program go on, changing no register, exactly
/// when the operation spends and assigns states of type `t`, all of them
/// fungible, no assigned amount is zero, and the spent amounts sum to the
/// assigned amounts (a sum that fits in 64 bits). Otherwise it fails: in
/// particular, unequal sums always fail.
pub proof fn lemma_svs_law(t: u16, r: RegsView, ctx: VmContext)
    ensures
        ({
            let out = exec_spec(ContractOp::Svs(t), r, ctx);
            let balanced = {
                &&& find_key(ctx.op_info.prev_state@, t) matches Some(a)
                &&& find_key(ctx.op_info.owned_state@, t) matches Some(TypedAssigns::Fungible(v))
                &&& a@.len() > 0 && all_fungible(a@)
                &&& v@.len() > 0 && !v@.contains(0u64)
                &&& seq_sum(spent_amounts(a@)) == seq_sum(v@)
                &&& seq_sum(v@) <= u64::MAX
            };
            &&& balanced ==> out == (r, ExecStep::Next)
            &&& !balanced ==> failed(r, out)
        }),
{
    match find_key(ctx.op_info.prev_state@, t) {
        Some(a) => {
            if all_fungible(a@) {
                assert(spent_amounts(a@) =~= Seq::new(
                    a.len() as nat,
                    |i: int| crate::exec::amount_of(a[i]),
                ));
            }
        },
        None => {},
    }
}

/// Law of `Sas(t)`: it lets the program go on, changing no register, exactly
/// when `a64[0]` holds a value, the operation assigns states of type `t`,
/// all fungible and none zero, and their amounts sum to that value.
/// Otherwise it fails: any other value in `a64[0]` fails.
pub proof fn lemma_sas_law(t: u16, r: RegsView, ctx: VmContext)
    ensures
        ({
            let out = exec_spec(ContractOp::Sas(t), r, ctx);
            let sums = {
                &&& r.a64[0] matches Some(s)
                &&& find_key(ctx.op_info.owned_state@, t) matches Some(TypedAssigns::Fungible(v))
                &&& v@.len() > 0 && !v@.contains(0u64)
                &&& seq_sum(v@) == s
            };
            &&& sums ==> out == (r, ExecStep::Next)
            &&& !sums ==> failed(r, out)
        }),
{
}

/// Law of `Sps(t)`: it lets the program go on, changing no register, exactly
/// when `a64[0]` holds a value, the operation spends states of type `t`, all
/// fungible, and their amounts sum to that value. Otherwise it fails.
pub proof fn lemma_sps_law(t: u16, r: RegsView, ctx: VmContext)
    ensures
        ({
            let out = exec_spec(ContractOp::Sps(t), r, ctx);
            let sums = {
                &&& r.a64[0] matches Some(s)
                &&& find_key(ctx.op_info.prev_state@, t) matches Some(a)
                &&& a@.len() > 0 && all_fungible(a@)
                &&& seq_sum(spent_amounts(a@)) == s
            };
            &&& sums ==> out == (r, ExecStep::Next)
            &&& !sums ==> failed(r, out)
        }),
{
    match find_key(ctx.op_info.prev_state@, t) {
        Some(a) => {
            if all_fungible(a@) {
                assert(spent_amounts(a@) =~= Seq::new(
                    a.len() as nat,
                    |i: int| crate::exec::amount_of(a[i]),
                ));
            }
        },
        None => {},
    }
}

/// Law of `LdP(t, ri, rs)`: it goes on exactly when `a16[ri]` holds an index
/// and the operation spends, at that index among its states of type `t`, a
/// structured state; `s16[rs]` then holds that state's data and no other
/// register changes. Otherwise it fails.
pub proof fn lemma_ldp_law(t: u16, ri: u8, rs: u8, r: RegsView, ctx: VmContext)
    ensures
        ({
            let out = exec_spec(ContractOp::LdP(t, ri, rs), r, ctx);
            &&& out.1 == ExecStep::Next || failed(r, out)
            &&& match (r.a16[ri as int], find_key(ctx.op_info.prev_state@, t)) {
                (Some(idx), Some(a)) => if idx < a@.len() {
                    match a@[idx as int] {
                        RevealedState::Structured(d) => out == (
                            RegsView { s16: r.s16.update(rs as int, Some(d@)), ..r },
                            ExecStep::Next,
                        ),
                        _ => failed(r, out),
                    }
                } else {
                    failed(r, out)
                },
                _ => failed(r, out),
            }
        }),
{
}

/// Law of `LdS(t, ri, rs)`: it goes on exactly when `a16[ri]` holds an index
/// and the operation assigns structured states of type `t` with one at that
/// index; `s16[rs]` then holds the state at that index and no other register
/// changes. Otherwise it fails.
pub proof fn lemma_lds_law(t: u16, ri: u8, rs: u8, r: RegsView, ctx: VmContext)
    ensures
        ({
            let out = exec_spec(ContractOp::LdS(t, ri, rs), r, ctx);
            match (r.a16[ri as int], find_key(ctx.op_info.owned_state@, t)) {
                (Some(idx), Some(TypedAssigns::Structured(v))) => if idx < v@.len() {
                    out == (
                        RegsView { s16: r.s16.update(rs as int, Some(v@[idx as int]@)), ..r },
                        ExecStep::Next,
                    )
                } else {
                    failed(r, out)
                },
                _ => failed(r, out),
            }
        }),
{
}

/// Law of `LdF(t, ri, rd)`: it goes on exactly when `a16[ri]` holds an index
/// and the operation assigns fungible states of type `t` with one at that
/// index; `a64[rd]` then holds its amount and no other register changes.
/// Otherwise it fails.
pub proof fn lemma_ldf_law(t: u16, ri: u8, rd: u8, r: RegsView, ctx: VmContext)
    ensures
        ({
            let out = exec_spec(ContractOp::LdF(t, ri, rd), r, ctx);
            match (r.a16[ri as int], find_key(ctx.op_info.owned_state@, t)) {
                (Some(idx), Some(TypedAssigns::Fungible(v))) => if idx < v@.len() {
                    out == (
                        RegsView { a64: r.a64.update(rd as int, Some(v@[idx as int])), ..r },
                        ExecStep::Next,
                    )
                } else {
                    failed(r, out)
                },
                _ => failed(r, out),
            }
        }),
{
}

/// Law of `LdG(t, ri, rs)`: it goes on exactly when `a8[ri]` holds an index
/// and the operation defines global state of type `t` with an item at that
/// index; `s16[rs]` then holds that item and no other register changes.
/// Otherwise it fails.
pub proof fn lemma_ldg_law(t: u16, ri: u8, rs: u8, r: RegsView, ctx: VmContext)
    ensures
        ({
            let out = exec_spec(ContractOp::LdG(t, ri, rs), r, ctx);
            match (r.a8[ri as int], find_key(ctx.op_info.global@, t)) {
                (Some(idx), Some(g)) => if idx < g@.len() {
                    out == (
                        RegsView { s16: r.s16.update(rs as int, Some(g@[idx as int]@)), ..r },
                        ExecStep::Next,
                    )
                } else {
                    failed(r, out)
                },
                _ => failed(r, out),
            }
        }),
{
}

/// Law of `LdM(t, rs)`: it goes on exactly when the operation has metadata of
/// type `t`; `s16[rs]` then holds it and no other register changes.
/// Otherwise it fails.
pub proof fn lemma_ldm_law(t: u16, rs: u8, r: RegsView, ctx: VmContext)
    ensures
        ({
            let out = exec_spec(ContractOp::LdM(t, rs), r, ctx);
            match find_key(ctx.op_info.metadata@, t) {
                Some(m) => out == (RegsView { s16: r.s16.update(rs as int, Some(m@)), ..r }, ExecStep::Next),
                None => failed(r, out),
            }
        }),
{
}

/// Law of `LdC(t, ri, rs)`: for a global state type the contract knows, with
/// `n` items, and a depth `d` in `a32[ri]` with `d < n` and `d < 2^24`, it
/// goes on and loads the item at depth `d` (depth 0 is the most recent) into
/// `s16[rs]`, changing no other register. It fails exactly when the type is
/// unknown, `a32[ri]` is empty, or the depth is not below both bounds.
pub proof fn lemma_ldc_law(t: u16, ri: u8, rs: u8, r: RegsView, ctx: VmContext)
    ensures
        ({
            let out = exec_spec(ContractOp::LdC(t, ri, rs), r, ctx);
            match (find_key(ctx.contract_state.global@, t), r.a32[ri as int]) {
                (Some(items), Some(d)) => if d < items@.len() && d < 0x100_0000 {
                    out == (
                        RegsView { s16: r.s16.update(rs as int, Some(items@[d as int]@)), ..r },
                        ExecStep::Next,
                    )
                } else {
                    failed(r, out)
                },
                _ => failed(r, out),
            }
        }),
{
}

/// Whether entry key `e` is for type `ty` at the output with transaction id
/// `at.txid` (byte for byte) and output number `at.vout`.
pub open spec fn keyed_at(e: (Outpoint, u16), at: Outpoint, ty: u16) -> bool {
    e.0.txid@ == at.txid@ && e.0.vout == at.vout && e.1 == ty
}

/// Entry `k` of `s` is the first one for type `ty` at output `at`.
pub open spec fn first_at<V>(s: Seq<((Outpoint, u16), V)>, at: Outpoint, ty: u16, k: int) -> bool {
    &&& 0 <= k < s.len()
    &&& keyed_at(s[k].0, at, ty)
    &&& forall|j: int| 0 <= j < k ==> !#[trigger] keyed_at(s[j].0, at, ty)
}

/// A lookup by output and type finds nothing when no entry is keyed there,
/// and the first entry keyed there otherwise.
proof fn lemma_find_at_entries<V>(s: Seq<((Outpoint, u16), V)>, at: Outpoint, ty: u16)
    ensures
        (forall|k: int| 0 <= k < s.len() ==> !#[trigger] keyed_at(s[k].0, at, ty)) ==> find_at(
            s,
            at,
            ty,
        ) is None,
        forall|k: int| #[trigger] first_at(s, at, ty, k) ==> find_at(s, at, ty) == Some(s[k].1),
    decreases s.len(),
{
    if s.len() > 0 {
        let rest = s.drop_first();
        lemma_find_at_entries(rest, at, ty);
        if same_outpoint(s[0].0.0, at) && s[0].0.1 == ty {
            assert(keyed_at(s[0].0, at, ty));
            assert forall|k: int| #[trigger] first_at(s, at, ty, k) implies k == 0 by {
                if k > 0 {
                    assert(!keyed_at(s[0].0, at, ty));
                }
            }
        } else {
            assert(!keyed_at(s[0].0, at, ty));
            assert forall|k: int| #[trigger] first_at(s, at, ty, k) implies first_at(
                rest,
                at,
                ty,
                k - 1,
            ) by {
                assert(k > 0);
                assert(rest[k - 1] == s[k]);
                assert forall|j: int| 0 <= j < k - 1 implies !#[trigger] keyed_at(
                    rest[j].0,
                    at,
                    ty,
                ) by {
                    assert(rest[j] == s[j + 1]);
                    assert(!keyed_at(s[j + 1].0, at, ty));
                }
            }
            if forall|k: int| 0 <= k < s.len() ==> !#[trigger] keyed_at(s[k].0, at, ty) {
                assert forall|k: int| 0 <= k < rest.len() implies !#[trigger] keyed_at(
                    rest[k].0,
                    at,
                    ty,
                ) by {
                    assert(rest[k] == s[k + 1]);
                }
            }
        }
    }
}

/// Law of `LdOF(t, rt, rv, ri, rd)`: with a transaction id in `r256[rt]`, an
/// output number in `a32[rv]` and an index in `a16[ri]`, it reads the first
/// entry of the contract's fungible state for type `t` at exactly that
/// output (same id, byte for byte, and same number): when it has an amount
/// at the index, `a64[rd]` gets it and the program goes on. With no such
/// entry, no amount at the index, or an empty register, it fails.
pub proof fn lemma_ldof_law(t: u16, rt: u8, rv: u8, ri: u8, rd: u8, r: RegsView, ctx: VmContext)
    ensures
        ({
            let out = exec_spec(ContractOp::LdOF(t, rt, rv, ri, rd), r, ctx);
            let s = ctx.contract_state.fungible@;
            match (r.r256[rt as int], r.a32[rv as int], r.a16[ri as int]) {
                (Some(txid), Some(vout), Some(idx)) => {
                    let at = Outpoint { txid, vout };
                    &&& (forall|k: int| 0 <= k < s.len() ==> !#[trigger] keyed_at(s[k].0, at, t))
                        ==> failed(r, out)
                    &&& forall|k: int| #[trigger]
                        first_at(s, at, t, k) ==> if idx < s[k].1@.len() {
                            out == (
                                RegsView { a64: r.a64.update(rd as int, Some(s[k].1@[idx as int])), ..r },
                                ExecStep::Next,
                            )
                        } else {
                            failed(r, out)
                        }
                },
                _ => failed(r, out),
            }
        }),
{
    match (r.r256[rt as int], r.a32[rv as int], r.a16[ri as int]) {
        (Some(txid), Some(vout), Some(idx)) => {
            lemma_find_at_entries(ctx.contract_state.fungible@, Outpoint { txid, vout }, t);
        },
        _ => {},
    }
}

/// Law of `LdOD(t, rt, rv, ri, rd)`: as `LdOF`, over the contract's
/// structured state: the item at the index of the first entry for type `t`
/// at exactly the output given by `r256[rt]` and `a32[rv]` goes to
/// `s16[rd]`; otherwise it fails.
pub proof fn lemma_ldod_law(t: u16, rt: u8, rv: u8, ri: u8, rd: u8, r: RegsView, ctx: VmContext)
    ensures
        ({
            let out = exec_spec(ContractOp::LdOD(t, rt, rv, ri, rd), r, ctx);
            let s = ctx.contract_state.data@;
            match (r.r256[rt as int], r.a32[rv as int], r.a16[ri as int]) {
                (Some(txid), Some(vout), Some(idx)) => {
                    let at = Outpoint { txid, vout };
                    &&& (forall|k: int| 0 <= k < s.len() ==> !#[trigger] keyed_at(s[k].0, at, t))
                        ==> failed(r, out)
                    &&& forall|k: int| #[trigger]
                        first_at(s, at, t, k) ==> if idx < s[k].1@.len() {
                            out == (
                                RegsView { s16: r.s16.update(rd as int, Some(s[k].1@[idx as int]@)), ..r },
                                ExecStep::Next,
                            )
                        } else {
                            failed(r, out)
                        }
                },
                _ => failed(r, out),
            }
        }),
{
    match (r.r256[rt as int], r.a32[rv as int], r.a16[ri as int]) {
        (Some(txid), Some(vout), Some(idx)) => {
            lemma_find_at_entries(ctx.contract_state.data@, Outpoint { txid, vout }, t);
        },
        _ => {},
    }
}

/// Law of `LdOR(t, rt, rv, rd)`: with a transaction id in `r256[rt]` and an
/// output number in `a32[rv]`, it goes on and puts into `a32[rd]` the number
/// of rights of the first entry for type `t` at exactly that output, or 0
/// when there is no such entry. With an empty register it fails.
pub proof fn lemma_ldor_law(t: u16, rt: u8, rv: u8, rd: u8, r: RegsView, ctx: VmContext)
    ensures
        ({
            let out = exec_spec(ContractOp::LdOR(t, rt, rv, rd), r, ctx);
            let s = ctx.contract_state.rights@;
            match (r.r256[rt as int], r.a32[rv as int]) {
                (Some(txid), Some(vout)) => {
                    let at = Outpoint { txid, vout };
                    &&& (forall|k: int| 0 <= k < s.len() ==> !#[trigger] keyed_at(s[k].0, at, t))
                        ==> out == (RegsView { a32: r.a32.update(rd as int, Some(0u32)), ..r }, ExecStep::Next)
                    &&& forall|k: int| #[trigger]
                        first_at(s, at, t, k) ==> out == (
                            RegsView { a32: r.a32.update(rd as int, Some(s[k].1)), ..r },
                            ExecStep::Next,
                        )
                },
                _ => failed(r, out),
            }
        }),
{
    match (r.r256[rt as int], r.a32[rv as int]) {
        (Some(txid), Some(vout)) => {
            lemma_find_at_entries(ctx.contract_state.rights@, Outpoint { txid, vout }, t);
        },
        _ => {},
    }
}

/// Entry `k` of `s` is the first one with key `key`.
pub open spec fn first_with_key<K, V>(s: Seq<(K, V)>, key: K, k: int) -> bool {
    &&& 0 <= k < s.len()
    &&& s[k].0 == key
    &&& forall|j: int| 0 <= j < k ==> #[trigger] s[j].0 != key
}

/// Law of lookups by key: nothing is found when no entry has the key, and
/// the first entry with the key otherwise.
pub proof fn lemma_find_key_entries<K, V>(s: Seq<(K, V)>, key: K)
    ensures
        (forall|k: int| 0 <= k < s.len() ==> #[trigger] s[k].0 != key) ==> find_key(s, key) is None,
        forall|k: int| #[trigger] first_with_key(s, key, k) ==> find_key(s, key) == Some(s[k].1),
    decreases s.len(),
{
    if s.len() > 0 {
        let rest = s.drop_first();
        lemma_find_key_entries(rest, key);
        if s[0].0 == key {
            assert forall|k: int| #[trigger] first_with_key(s, key, k) implies k == 0 by {
                if k > 0 {
                    assert(s[0].0 != key);
                }
            }
        } else {
            assert forall|k: int| #[trigger] first_with_key(s, key, k) implies first_with_key(
                rest,
                key,
                k - 1,
            ) by {
                assert(rest[k - 1] == s[k]);
                assert forall|j: int| 0 <= j < k - 1 implies #[trigger] rest[j].0 != key by {
                    assert(rest[j] == s[j + 1]);
                }
            }
            if forall|k: int| 0 <= k < s.len() ==> #[trigger] s[k].0 != key {
                assert forall|k: int| 0 <= k < rest.len() implies #[trigger] rest[k].0 != key by {
                    assert(rest[k] == s[k + 1]);
                }
            }
        }
    }
}

/// Law of sums: the sum of no amounts is 0, and appending an amount adds it.
pub proof fn lemma_seq_sum_push(s: Seq<u64>, x: u64)
    ensures
        seq_sum(Seq::empty()) == 0,
        seq_sum(s.push(x)) == seq_sum(s) + x,
{
    assert(s.push(x).drop_last() =~= s);
}

/// Law of `CnP(t, i)`: it goes on and puts into `a16[i]` the number of
/// states of type `t` the operation spends (0 when there are none).
pub proof fn lemma_cnp_law(t: u16, i: u8, r: RegsView, ctx: VmContext)
    ensures
        ({
            let n: u16 = match find_key(ctx.op_info.prev_state@, t) {
                Some(a) => a@.len() as u16,
                None => 0,
            };
            exec_spec(ContractOp::CnP(t, i), r, ctx) == (
                RegsView { a16: r.a16.update(i as int, Some(n)), ..r },
                ExecStep::Next,
            )
        }),
{
}

/// Law of `CnS(t, i)`: it goes on and puts into `a16[i]` the number of
/// states of type `t` the operation assigns (0 when there are none).
pub proof fn lemma_cns_law(t: u16, i: u8, r: RegsView, ctx: VmContext)
    ensures
        ({
            let n: u16 = match find_key(ctx.op_info.owned_state@, t) {
                Some(TypedAssigns::Declarative(n)) => n,
                Some(TypedAssigns::Fungible(v)) => v@.len() as u16,
                Some(TypedAssigns::Structured(v)) => v@.len() as u16,
                None => 0,
            };
            exec_spec(ContractOp::CnS(t, i), r, ctx) == (
                RegsView { a16: r.a16.update(i as int, Some(n)), ..r },
                ExecStep::Next,
            )
        }),
{
}

/// Law of `CnG(t, i)`: when the operation defines fewer than 256 global
/// state items of type `t`, it goes on and puts their number into `a8[i]`.
pub proof fn lemma_cng_law(t: u16, i: u8, r: RegsView, ctx: VmContext)
    ensures
        ({
            let n: int = match find_key(ctx.op_info.global@, t) {
                Some(g) => g@.len() as int,
                None => 0,
            };
            n < 256 ==> exec_spec(ContractOp::CnG(t, i), r, ctx) == (
                RegsView { a8: r.a8.update(i as int, Some(n as u8)), ..r },
                ExecStep::Next,
            )
        }),
{
}

/// Law of `CnC(t, i)`: it goes on and puts into `a32[i]` the number of items
/// of the contract's global state of type `t` (0 for an unknown type).
pub proof fn lemma_cnc_law(t: u16, i: u8, r: RegsView, ctx: VmContext)
    ensures
        ({
            let n: u32 = match find_key(ctx.contract_state.global@, t) {
                Some(g) => g@.len() as u32,
                None => 0,
            };
            exec_spec(ContractOp::CnC(t, i), r, ctx) == (
                RegsView { a32: r.a32.update(i as int, Some(n)), ..r },
                ExecStep::Next,
            )
        }),
{
}

/// Law of `LdR(t, ri)`: it always lets the program go on and changes no
/// register but the status flag; the flag stays as it was exactly when
/// `a16[ri]` holds an index below the number of declarative states of type
/// `t` the operation assigns, and is cleared otherwise.
pub proof fn lemma_ldr_law(t: u16, ri: u8, r: RegsView, ctx: VmContext)
    ensures
        ({
            let out = exec_spec(ContractOp::LdR(t, ri), r, ctx);
            let present = match (r.a16[ri as int], find_key(ctx.op_info.owned_state@, t)) {
                (Some(idx), Some(TypedAssigns::Declarative(n))) => idx < n,
                _ => false,
            };
            &&& present ==> out == (r, ExecStep::Next)
            &&& !present ==> out == (RegsView { st0: false, ..r }, ExecStep::Next)
        }),
{
}

/// Law of `Fail(code)`: it fails.
pub proof fn lemma_fail_law(code: u8, r: RegsView, ctx: VmContext)
    ensures
        failed(r, exec_spec(ContractOp::Fail(code), r, ctx)),
{
}

/// Law of `Vts(rs)`: it lets the program go on, changing no register, exactly
/// when the operation is a transition with a signature, `s16[rs]` holds a
/// public key that parses, the signature parses as a compact signature, and
/// it verifies over the operation id under that key. Otherwise it fails.
pub proof fn lemma_vts_law(rs: u8, r: RegsView, ctx: VmContext)
    ensures
        ({
            let out = exec_spec(ContractOp::Vts(rs), r, ctx);
            let valid = match (ctx.op_info.kind, r.s16[rs as int]) {
                (OpKind::Transition { signature: Some(sig) }, Some(pk)) => match (
                    pubkey_from_slice(pk),
                    signature_from_compact(sig@),
                ) {
                    (Ok(key), Ok(sg)) => ecdsa_verify(sg, ctx.op_info.id, key) is Ok,
                    _ => false,
                },
                _ => false,
            };
            &&& valid ==> out == (r, ExecStep::Next)
            &&& !valid ==> failed(r, out)
        }),
{
}

} // verus!
