//! What contract operations read besides registers: the state of the
//! operation under validation and the state of its contract.
//!
//! Maps are lists of `(key, value)` entries, the form in which a caller hands
//! over the state it holds: a key that stands for an output is compared by
//! its bytes, which a map of vstd's cannot key on with a proof. A lookup
//! finds the first entry with the key, so it is defined on every list; a
//! well-formed context (`VmContext::wf`) holds no key twice in any of its
//! maps, and there a lookup finds the one entry with the key.
use vstd::prelude::*;

verus! {

/// A transaction output: the transaction id and the output number.
#[derive(Clone, Copy, PartialEq, Eq, Debug)]
pub struct Outpoint {
    pub txid: [u8; 32],
    pub vout: u32,
}

/// A state assigned by a previous operation and spent by this one.
pub enum RevealedState {
    /// A declarative state: it carries no data.
    Void,
    /// A fungible amount.
    Fungible(u64),
    /// Structured data.
    Structured(Vec<u8>),
}

/// The states of one assignment type that an operation assigns.
pub enum TypedAssigns {
    /// This many declarative states.
    Declarative(u16),
    /// Fungible amounts.
    Fungible(Vec<u64>),
    /// Structured data.
    Structured(Vec<Vec<u8>>),
}

/// The kind of the operation under validation.
pub enum OpKind {
    Genesis,
    /// A state transition with its optional signature (64-byte compact ECDSA).
    Transition { signature: Option<Vec<u8>> },
}

/// The operation under validation.
pub struct OpInfo {
    /// The operation id, which a transition signature signs.
    pub id: [u8; 32],
    pub kind: OpKind,
    /// The states the operation spends, by assignment type.
    pub prev_state: Vec<(u16, Vec<RevealedState>)>,
    /// The states the operation assigns, by assignment type.
    pub owned_state: Vec<(u16, TypedAssigns)>,
    /// The global state the operation defines, by global state type.
    pub global: Vec<(u16, Vec<Vec<u8>>)>,
    /// The operation metadata, by metadata type.
    pub metadata: Vec<(u16, Vec<u8>)>,
}

/// The state of the contract.
pub struct ContractState {
    /// The global state of each known global state type, most recent first
    /// (the item at depth 0 comes first).
    pub global: Vec<(u16, Vec<Vec<u8>>)>,
    /// The number of rights of an assignment type at an outpoint.
    pub rights: Vec<((Outpoint, u16), u32)>,
    /// The fungible amounts of an assignment type at an outpoint.
    pub fungible: Vec<((Outpoint, u16), Vec<u64>)>,
    /// The structured data of an assignment type at an outpoint.
    pub data: Vec<((Outpoint, u16), Vec<Vec<u8>>)>,
}

/// What an operation executes against.
pub struct VmContext {
    pub op_info: OpInfo,
    pub contract_state: ContractState,
}

/// The value of the first entry of `s` with key `key`.
pub open spec fn find_key<K, V>(s: Seq<(K, V)>, key: K) -> Option<V>
    decreases s.len(),
{
    if s.len() == 0 {
        None
    } else if s[0].0 == key {
        Some(s[0].1)
    } else {
        find_key(s.drop_first(), key)
    }
}

proof fn lemma_find_key_skip<K, V>(s: Seq<(K, V)>, key: K, i: int)
    requires
        0 <= i < s.len(),
    ensures
        find_key(s.skip(i), key) == if s[i].0 == key {
            Some(s[i].1)
        } else {
            find_key(s.skip(i + 1), key)
        },
{
    assert(s.skip(i).drop_first() =~= s.skip(i + 1));
}

/// Whether no two entries of `s` have the same key.
pub open spec fn keys_unique<K, V>(s: Seq<(K, V)>) -> bool {
    forall|i: int, j: int| 0 <= i < j < s.len() ==> s[i].0 != s[j].0
}

/// Where keys are unique, a lookup of the key of an entry finds that entry.
pub proof fn lemma_find_key_unique<K, V>(s: Seq<(K, V)>, i: int)
    requires
        keys_unique(s),
        0 <= i < s.len(),
    ensures
        find_key(s, s[i].0) == Some(s[i].1),
    decreases i,
{
    if i > 0 {
        assert(s[0].0 != s[i].0);
        assert(s.drop_first()[i - 1] == s[i]);
        lemma_find_key_unique(s.drop_first(), i - 1);
    }
}

/// Where the first entry with key `key` stands in `s`.
pub fn find_index<V>(s: &Vec<(u16, V)>, key: u16) -> (r: Option<usize>)
    ensures
        match r {
            Some(i) => i < s.len() && find_key(s@, key) == Some(s@[i as int].1),
            None => find_key(s@, key) is None,
        },
{
    let mut i: usize = 0;
    assert(s@.skip(0) =~= s@);
    while i < s.len()
        invariant
            0 <= i <= s.len(),
            find_key(s@, key) == find_key(s@.skip(i as int), key),
        decreases s.len() - i,
    {
        proof {
            lemma_find_key_skip(s@, key, i as int);
        }
        if s[i].0 == key {
            return Some(i);
        }
        i = i + 1;
    }
    None
}

/// Whether two outpoints name the same output.
pub open spec fn same_outpoint(a: Outpoint, b: Outpoint) -> bool {
    a.txid@ == b.txid@ && a.vout == b.vout
}

/// The value of the first entry of `s` for type `ty` at outpoint `at`.
pub open spec fn find_at<V>(s: Seq<((Outpoint, u16), V)>, at: Outpoint, ty: u16) -> Option<V>
    decreases s.len(),
{
    if s.len() == 0 {
        None
    } else if same_outpoint(s[0].0.0, at) && s[0].0.1 == ty {
        Some(s[0].1)
    } else {
        find_at(s.drop_first(), at, ty)
    }
}

proof fn lemma_find_at_skip<V>(s: Seq<((Outpoint, u16), V)>, at: Outpoint, ty: u16, i: int)
    requires
        0 <= i < s.len(),
    ensures
        find_at(s.skip(i), at, ty) == if same_outpoint(s[i].0.0, at) && s[i].0.1 == ty {
            Some(s[i].1)
        } else {
            find_at(s.skip(i + 1), at, ty)
        },
{
    assert(s.skip(i).drop_first() =~= s.skip(i + 1));
}

/// Whether no two entries of `s` are for the same type at the same output.
pub open spec fn outpoint_keys_unique<V>(s: Seq<((Outpoint, u16), V)>) -> bool {
    forall|i: int, j: int|
        0 <= i < j < s.len() ==> !(same_outpoint(s[i].0.0, s[j].0.0) && s[i].0.1 == s[j].0.1)
}

/// Where no output and type occur twice, a lookup of the output and type of
/// an entry finds that entry.
pub proof fn lemma_find_at_unique<V>(s: Seq<((Outpoint, u16), V)>, i: int)
    requires
        outpoint_keys_unique(s),
        0 <= i < s.len(),
    ensures
        find_at(s, s[i].0.0, s[i].0.1) == Some(s[i].1),
    decreases i,
{
    if i > 0 {
        assert(s.drop_first()[i - 1] == s[i]);
        lemma_find_at_unique(s.drop_first(), i - 1);
    }
}

impl VmContext {
    /// No map of the context holds a key twice.
    pub open spec fn wf(self) -> bool {
        &&& keys_unique(self.op_info.prev_state@)
        &&& keys_unique(self.op_info.owned_state@)
        &&& keys_unique(self.op_info.global@)
        &&& keys_unique(self.op_info.metadata@)
        &&& keys_unique(self.contract_state.global@)
        &&& outpoint_keys_unique(self.contract_state.rights@)
        &&& outpoint_keys_unique(self.contract_state.fungible@)
        &&& outpoint_keys_unique(self.contract_state.data@)
    }
}

/// Whether two outpoints name the same output.
pub fn outpoint_eq(a: &Outpoint, b: &Outpoint) -> (r: bool)
    ensures
        r == same_outpoint(*a, *b),
{
    if a.vout != b.vout {
        return false;
    }
    let mut k: usize = 0;
    while k < 32
        invariant
            0 <= k <= 32,
            forall|j: int| 0 <= j < k ==> a.txid@[j] == b.txid@[j],
        decreases 32 - k,
    {
        if a.txid[k] != b.txid[k] {
            return false;
        }
        k = k + 1;
    }
    assert(a.txid@ =~= b.txid@);
    true
}

/// Where the first entry for type `ty` at outpoint `at` stands in `s`.
pub fn find_outpoint_index<V>(s: &Vec<((Outpoint, u16), V)>, at: Outpoint, ty: u16) -> (r: Option<
    usize,
>)
    ensures
        match r {
            Some(i) => i < s.len() && find_at(s@, at, ty) == Some(s@[i as int].1),
            None => find_at(s@, at, ty) is None,
        },
{
    let mut i: usize = 0;
    assert(s@.skip(0) =~= s@);
    while i < s.len()
        invariant
            0 <= i <= s.len(),
            find_at(s@, at, ty) == find_at(s@.skip(i as int), at, ty),
        decreases s.len() - i,
    {
        proof {
            lemma_find_at_skip(s@, at, ty, i as int);
        }
        let entry = &s[i].0;
        if outpoint_eq(&entry.0, &at) && entry.1 == ty {
            return Some(i);
        }
        i = i + 1;
    }
    None
}

impl TypedAssigns {
    /// The number of states, as a 16-bit number.
    pub open spec fn spec_len(self) -> u16 {
        match self {
            TypedAssigns::Declarative(n) => n,
            TypedAssigns::Fungible(v) => v.len() as u16,
            TypedAssigns::Structured(v) => v.len() as u16,
        }
    }

    /// Returns the number of states, as a 16-bit number.
    pub fn len_u16(&self) -> (n: u16)
        ensures
            n == self.spec_len(),
    {
        match self {
            TypedAssigns::Declarative(n) => *n,
            TypedAssigns::Fungible(v) => v.len() as u16,
            TypedAssigns::Structured(v) => v.len() as u16,
        }
    }
}

} // verus!
