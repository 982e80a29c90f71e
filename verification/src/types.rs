//! Plain-value core types shared by all subsystems.
//!
//! Field elements, hashes and addresses are opaque envelopes to this pipeline:
//! nothing here computes with them beyond equality and small-integer
//! arithmetic, so each is carried as a machine word.

use vstd::prelude::*;

verus! {

/// A field element, carried as the machine word the pipeline reads from it.
/// The pipeline only stores, compares and increments these values; the field
/// arithmetic itself belongs to the external cryptography.
#[derive(Clone, Copy, Debug, PartialEq, Eq, Hash, Structural)]
pub struct Felt {
    pub v: u64,
}

impl Felt {
    pub fn from_u64(v: u64) -> (r: Felt)
        ensures
            r.v == v,
    {
        Felt { v }
    }

    pub fn zero() -> (r: Felt)
        ensures
            r.v == 0,
    {
        Felt { v: 0 }
    }

    pub fn one() -> (r: Felt)
        ensures
            r.v == 1,
    {
        Felt { v: 1 }
    }

    pub fn two() -> (r: Felt)
        ensures
            r.v == 2,
    {
        Felt { v: 2 }
    }
}

/// A block height. Strictly monotonic over the life of the chain.
#[derive(Clone, Copy, Debug, PartialEq, Eq, Hash, Structural)]
pub struct BlockNumber {
    pub n: u64,
}

impl BlockNumber {
    pub fn new(n: u64) -> (r: BlockNumber)
        ensures
            r.n == n,
    {
        BlockNumber { n }
    }

    /// The previous height, if any.
    pub fn prev(&self) -> (r: Option<BlockNumber>)
        ensures
            self.n == 0 ==> r is None,
            self.n > 0 ==> r == Some(BlockNumber { n: (self.n - 1) as u64 }),
    {
        if self.n == 0 {
            None
        } else {
            Some(BlockNumber { n: self.n - 1 })
        }
    }

    /// The next height. The caller owns the argument that the chain never
    /// reaches the last representable height.
    pub fn unchecked_next(&self) -> (r: BlockNumber)
        requires
            self.n < u64::MAX,
        ensures
            r.n == self.n + 1,
    {
        BlockNumber { n: self.n + 1 }
    }
}

/// The hash of a transaction, assigned by the external hasher.
#[derive(Clone, Copy, Debug, PartialEq, Eq, Hash, Structural)]
pub struct TransactionHash {
    pub h: Felt,
}

/// The address of a contract.
#[derive(Clone, Copy, Debug, PartialEq, Eq, Hash, Structural)]
pub struct ContractAddress {
    pub a: Felt,
}

/// The nonce of an account.
#[derive(Clone, Copy, Debug, PartialEq, Eq, Hash, Structural)]
pub struct Nonce {
    pub n: Felt,
}

/// The hash of a contract class.
#[derive(Clone, Copy, Debug, PartialEq, Eq, Hash, Structural)]
pub struct ClassHash {
    pub h: Felt,
}

/// The hash of a compiled contract class.
#[derive(Clone, Copy, Debug, PartialEq, Eq, Hash, Structural)]
pub struct CompiledClassHash {
    pub h: Felt,
}

/// The hash of a block.
#[derive(Clone, Copy, Debug, PartialEq, Eq, Hash, Structural)]
pub struct BlockHash {
    pub h: Felt,
}

/// An amount of gas.
#[derive(Clone, Copy, Debug, PartialEq, Eq, Hash, Structural)]
pub struct GasAmount(pub u64);

/// One storage write of a state diff.
#[derive(Clone, Copy, Debug, PartialEq, Eq, Hash, Structural)]
pub struct StorageEntry {
    pub address: ContractAddress,
    pub key: Felt,
    pub value: Felt,
}

/// The thin form of a state diff: what a block changed, with insertion order
/// preserved in every listing.
#[derive(Clone, Debug, PartialEq, Eq)]
pub struct ThinStateDiff {
    pub storage_diffs: Vec<StorageEntry>,
    pub nonces: Vec<(ContractAddress, Nonce)>,
    pub declared_classes: Vec<(ClassHash, CompiledClassHash)>,
    pub deployed_contracts: Vec<(ContractAddress, ClassHash)>,
}

impl Default for ThinStateDiff {
    fn default() -> (r: Self)
        ensures
            r.storage_diffs@.len() == 0,
            r.nonces@.len() == 0,
            r.declared_classes@.len() == 0,
            r.deployed_contracts@.len() == 0,
    {
        ThinStateDiff {
            storage_diffs: Vec::new(),
            nonces: Vec::new(),
            declared_classes: Vec::new(),
            deployed_contracts: Vec::new(),
        }
    }
}

/// Whether two state diffs record the same changes in the same order.
pub open spec fn sd_eq(a: &ThinStateDiff, b: &ThinStateDiff) -> bool {
    &&& a.storage_diffs@ == b.storage_diffs@
    &&& a.nonces@ == b.nonces@
    &&& a.declared_classes@ == b.declared_classes@
    &&& a.deployed_contracts@ == b.deployed_contracts@
}

/// Copies a vector of plain values.
pub fn copy_vec<T: Copy>(v: &Vec<T>) -> (r: Vec<T>)
    ensures
        r@ == v@,
{
    let mut r: Vec<T> = Vec::new();
    let mut i: usize = 0;
    while i < v.len()
        invariant
            0 <= i <= v@.len(),
            r@ =~= v@.take(i as int),
        decreases v@.len() - i,
    {
        r.push(v[i]);
        i += 1;
    }
    proof {
        assert(v@.take(v@.len() as int) =~= v@);
    }
    r
}

/// Copies a state diff.
pub fn clone_state_diff(d: &ThinStateDiff) -> (r: ThinStateDiff)
    ensures
        sd_eq(&r, d),
{
    ThinStateDiff {
        storage_diffs: copy_vec(&d.storage_diffs),
        nonces: copy_vec(&d.nonces),
        declared_classes: copy_vec(&d.declared_classes),
        deployed_contracts: copy_vec(&d.deployed_contracts),
    }
}

} // verus!
