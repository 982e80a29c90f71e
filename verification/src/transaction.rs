//! Executable transactions: the forms in which transactions enter the
//! pipeline, together with their hashes and derived addresses.
//!
//! Transaction hashing and contract-address derivation are supplied by the
//! external cryptography; constructors here take those values as arguments and
//! validate the structural rules that are this crate's own: a Declare
//! transaction's version must match its contract class's language version, and
//! a version 2 or 3 Declare must carry the compiled class hash of its class.

use vstd::prelude::*;

use crate::types::{ClassHash, CompiledClassHash, ContractAddress, Felt, Nonce, TransactionHash};

verus! {

/// The version of a transaction.
#[derive(Clone, Copy, Debug, PartialEq, Eq, Hash, Structural)]
pub struct TransactionVersion {
    pub v: u64,
}

/// The fee paid for an L1 handler transaction on L1.
#[derive(Clone, Copy, Debug, PartialEq, Eq, Hash, Structural)]
pub struct Fee(pub u64);

/// The calldata of a transaction: a sequence of field elements.
#[derive(Clone, Debug, PartialEq, Eq)]
pub struct Calldata(pub Vec<Felt>);

/// The signature over a transaction.
#[derive(Clone, Debug, PartialEq, Eq)]
pub struct TransactionSignature(pub Vec<Felt>);

/// Resource bounds for a single resource.
#[derive(Clone, Copy, Debug, PartialEq, Eq, Structural)]
pub struct ResourceBounds {
    pub max_amount: u64,
    pub max_price_per_unit: u64,
}

impl ResourceBounds {
    pub fn zeroed() -> (r: ResourceBounds)
        ensures
            r == (ResourceBounds { max_amount: 0, max_price_per_unit: 0 }),
    {
        ResourceBounds { max_amount: 0, max_price_per_unit: 0 }
    }
}

/// Bounds on all three fee resources.
#[derive(Clone, Copy, Debug, PartialEq, Eq, Structural)]
pub struct AllResourceBounds {
    pub l1_gas: ResourceBounds,
    pub l2_gas: ResourceBounds,
    pub l1_data_gas: ResourceBounds,
}

/// The resource bounds a transaction declares: either bounds on every
/// resource, or a bound on L1 gas alone.
#[derive(Clone, Copy, Debug, PartialEq, Eq, Structural)]
pub enum ValidResourceBounds {
    AllResources(AllResourceBounds),
    L1Gas(ResourceBounds),
}

/// A contract class in its deprecated, Cairo-zero form. The program itself is
/// an opaque envelope; the pipeline reads only its identity.
#[derive(Clone, Copy, Debug, PartialEq, Eq, Structural)]
pub struct DeprecatedContractClass {
    pub program_id: Felt,
}

/// A contract class in its current, Sierra-based form.
#[derive(Clone, Copy, Debug, PartialEq, Eq, Structural)]
pub struct SierraContractClass {
    pub program_id: Felt,
    pub compiled_class_hash: CompiledClassHash,
}

/// A contract class of either language version.
#[derive(Clone, Copy, Debug, PartialEq, Eq, Structural)]
pub enum ContractClass {
    V0(DeprecatedContractClass),
    V1(SierraContractClass),
}

impl ContractClass {
    /// The compiled class hash, defined for Sierra classes only.
    pub fn compiled_class_hash(&self) -> (r: Option<CompiledClassHash>)
        ensures
            match *self {
                ContractClass::V0(_) => r is None,
                ContractClass::V1(c) => r == Some(c.compiled_class_hash),
            },
    {
        match self {
            ContractClass::V0(_) => None,
            ContractClass::V1(c) => Some(c.compiled_class_hash),
        }
    }
}

/// A contract class together with the sizes the fee logic reads from it.
#[derive(Clone, Copy, Debug, PartialEq, Eq, Structural)]
pub struct ClassInfo {
    pub contract_class: ContractClass,
    pub sierra_program_length: u64,
    pub abi_length: u64,
}

/// Errors surfaced by transaction construction.
#[derive(Clone, Copy, Debug, PartialEq, Eq, Structural)]
pub enum StarknetApiError {
    ContractClassVersionMismatch { declare_version: TransactionVersion, cairo_version: u64 },
}

/// The wire form of a Declare transaction, by version. Versions 0 and 1
/// declare Cairo-zero classes; versions 2 and 3 declare Sierra classes and
/// carry the expected compiled class hash.
#[derive(Clone, Debug, PartialEq, Eq)]
pub enum DeclareTransactionInner {
    V0 {
        sender_address: ContractAddress,
        nonce: Nonce,
        class_hash: ClassHash,
        signature: TransactionSignature,
    },
    V1 {
        sender_address: ContractAddress,
        nonce: Nonce,
        class_hash: ClassHash,
        signature: TransactionSignature,
    },
    V2 {
        sender_address: ContractAddress,
        nonce: Nonce,
        class_hash: ClassHash,
        compiled_class_hash: CompiledClassHash,
        signature: TransactionSignature,
    },
    V3 {
        sender_address: ContractAddress,
        nonce: Nonce,
        class_hash: ClassHash,
        compiled_class_hash: CompiledClassHash,
        signature: TransactionSignature,
    },
}

impl DeclareTransactionInner {
    /// The version spec, by variant.
    pub open spec fn spec_version(&self) -> TransactionVersion {
        match *self {
            DeclareTransactionInner::V0 { .. } => TransactionVersion { v: 0 },
            DeclareTransactionInner::V1 { .. } => TransactionVersion { v: 1 },
            DeclareTransactionInner::V2 { .. } => TransactionVersion { v: 2 },
            DeclareTransactionInner::V3 { .. } => TransactionVersion { v: 3 },
        }
    }

    pub fn version(&self) -> (r: TransactionVersion)
        ensures
            r == self.spec_version(),
    {
        match self {
            DeclareTransactionInner::V0 { .. } => TransactionVersion { v: 0 },
            DeclareTransactionInner::V1 { .. } => TransactionVersion { v: 1 },
            DeclareTransactionInner::V2 { .. } => TransactionVersion { v: 2 },
            DeclareTransactionInner::V3 { .. } => TransactionVersion { v: 3 },
        }
    }

    /// The sender address spec, by variant.
    pub open spec fn spec_sender_address(&self) -> ContractAddress {
        match *self {
            DeclareTransactionInner::V0 { sender_address, .. } => sender_address,
            DeclareTransactionInner::V1 { sender_address, .. } => sender_address,
            DeclareTransactionInner::V2 { sender_address, .. } => sender_address,
            DeclareTransactionInner::V3 { sender_address, .. } => sender_address,
        }
    }

    pub fn sender_address(&self) -> (r: ContractAddress)
        ensures
            r == self.spec_sender_address(),
    {
        match self {
            DeclareTransactionInner::V0 { sender_address, .. } => *sender_address,
            DeclareTransactionInner::V1 { sender_address, .. } => *sender_address,
            DeclareTransactionInner::V2 { sender_address, .. } => *sender_address,
            DeclareTransactionInner::V3 { sender_address, .. } => *sender_address,
        }
    }
}

/// The wire form of an Invoke transaction.
#[derive(Clone, Debug, PartialEq, Eq)]
pub struct InvokeTransactionInner {
    pub version: TransactionVersion,
    pub sender_address: ContractAddress,
    pub calldata: Calldata,
    pub signature: TransactionSignature,
    pub nonce: Nonce,
    pub tip: u64,
    pub resource_bounds: ValidResourceBounds,
}

/// The wire form of a DeployAccount transaction.
#[derive(Clone, Debug, PartialEq, Eq)]
pub struct DeployAccountTransactionInner {
    pub version: TransactionVersion,
    pub class_hash: ClassHash,
    pub constructor_calldata: Calldata,
    pub contract_address_salt: Felt,
    pub signature: TransactionSignature,
    pub nonce: Nonce,
    pub tip: u64,
    pub resource_bounds: ValidResourceBounds,
}

/// The wire form of an L1 handler transaction. The first calldata word is the
/// L1 sender ("from") address and is not part of the payload.
#[derive(Clone, Debug, PartialEq, Eq)]
pub struct L1HandlerTransactionInner {
    pub contract_address: ContractAddress,
    pub entry_point_selector: Felt,
    pub calldata: Calldata,
    pub nonce: Nonce,
}

impl Default for L1HandlerTransactionInner {
    fn default() -> (r: Self)
        ensures
            r.contract_address.a.v == 0,
            r.entry_point_selector.v == 0,
            r.calldata.0@ =~= Seq::<Felt>::empty(),
            r.nonce.n.v == 0,
    {
        L1HandlerTransactionInner {
            contract_address: ContractAddress { a: Felt { v: 0 } },
            entry_point_selector: Felt { v: 0 },
            calldata: Calldata(Vec::new()),
            nonce: Nonce { n: Felt { v: 0 } },
        }
    }
}

/// Validates that the Declare transaction version is compatible with the Cairo
/// contract version. Versions 0 and 1 declare Cairo-zero contracts, while
/// versions 2 and above declare Cairo-one (Sierra) contracts.
pub open spec fn class_version_matches_tx_version(
    declare_version: TransactionVersion,
    class: ContractClass,
) -> bool {
    match class {
        ContractClass::V0(_) => declare_version.v <= 1,
        ContractClass::V1(_) => declare_version.v >= 2,
    }
}

pub fn validate_class_version_matches_tx_version(
    declare_version: TransactionVersion,
    class: &ContractClass,
) -> (r: Result<(), StarknetApiError>)
    ensures
        r is Ok <==> class_version_matches_tx_version(declare_version, *class),
        r matches Err(e) ==> e == (StarknetApiError::ContractClassVersionMismatch {
            declare_version,
            cairo_version: if declare_version.v <= 1 {
                0u64
            } else {
                1u64
            },
        }),
{
    let expected_cairo_version: u64 = if declare_version.v <= 1 {
        0
    } else {
        1
    };
    match class {
        ContractClass::V0(_) => {
            if expected_cairo_version == 0 {
                return Ok(());
            }
        },
        ContractClass::V1(_) => {
            if expected_cairo_version == 1 {
                return Ok(());
            }
        },
    }
    Err(
        StarknetApiError::ContractClassVersionMismatch {
            declare_version,
            cairo_version: expected_cairo_version,
        },
    )
}

/// A Declare transaction ready for execution.
#[derive(Clone, Debug, PartialEq, Eq)]
pub struct DeclareTransaction {
    pub tx: DeclareTransactionInner,
    pub tx_hash: TransactionHash,
    pub class_info: ClassInfo,
}

impl DeclareTransaction {
    /// Builds a Declare transaction from its wire form, the class it declares,
    /// and the hash the external hasher assigned to it. Fails if and only if
    /// the transaction's version does not match the class's language version.
    pub fn create(
        declare_tx: DeclareTransactionInner,
        class_info: ClassInfo,
        tx_hash: TransactionHash,
    ) -> (r: Result<DeclareTransaction, StarknetApiError>)
        ensures
            r is Ok <==> class_version_matches_tx_version(
                declare_tx.spec_version(),
                class_info.contract_class,
            ),
            r matches Ok(d) ==> d == (DeclareTransaction { tx: declare_tx, tx_hash, class_info }),
    {
        let version = declare_tx.version();
        match validate_class_version_matches_tx_version(version, &class_info.contract_class) {
            Ok(()) => Ok(DeclareTransaction { tx: declare_tx, tx_hash, class_info }),
            Err(e) => Err(e),
        }
    }

    /// Whether the compiled class hash supplied by the transaction matches the
    /// compiled class hash of the declared class. Holds trivially for versions
    /// 0 and 1, which carry none.
    pub open spec fn spec_compiled_class_hash_valid(&self) -> bool {
        match self.tx {
            DeclareTransactionInner::V0 { .. } => true,
            DeclareTransactionInner::V1 { .. } => true,
            DeclareTransactionInner::V2 { compiled_class_hash, .. } => match self
                .class_info
                .contract_class {
                ContractClass::V1(c) => c.compiled_class_hash == compiled_class_hash,
                ContractClass::V0(_) => false,
            },
            DeclareTransactionInner::V3 { compiled_class_hash, .. } => match self
                .class_info
                .contract_class {
                ContractClass::V1(c) => c.compiled_class_hash == compiled_class_hash,
                ContractClass::V0(_) => false,
            },
        }
    }

    /// Validates that the compiled class hash of the declared class matches
    /// the hash supplied by the transaction. Relevant only for version 2 and 3
    /// transactions.
    pub fn validate_compiled_class_hash(&self) -> (r: bool)
        ensures
            r == self.spec_compiled_class_hash_valid(),
    {
        let supplied: CompiledClassHash = match &self.tx {
            DeclareTransactionInner::V3 { compiled_class_hash, .. } => *compiled_class_hash,
            DeclareTransactionInner::V2 { compiled_class_hash, .. } => *compiled_class_hash,
            DeclareTransactionInner::V1 { .. } => {
                return true;
            },
            DeclareTransactionInner::V0 { .. } => {
                return true;
            },
        };
        match self.class_info.contract_class.compiled_class_hash() {
            Some(h) => h.h.v == supplied.h.v,
            None => false,
        }
    }

    /// The declared contract class.
    pub fn contract_class(&self) -> (r: ContractClass)
        ensures
            r == self.class_info.contract_class,
    {
        self.class_info.contract_class
    }
}

/// A DeployAccount transaction ready for execution. The deployed address is
/// derived by the external cryptography from the salt, class hash and
/// constructor calldata.
#[derive(Clone, Debug, PartialEq, Eq)]
pub struct DeployAccountTransaction {
    pub tx: DeployAccountTransactionInner,
    pub tx_hash: TransactionHash,
    pub contract_address: ContractAddress,
}

impl DeployAccountTransaction {
    pub fn tx(&self) -> (r: &DeployAccountTransactionInner)
        ensures
            *r == self.tx,
    {
        &self.tx
    }

    /// Builds a DeployAccount transaction from its wire form and the hash and
    /// deployed address the external cryptography assigned to it.
    pub fn create(
        deploy_account_tx: DeployAccountTransactionInner,
        contract_address: ContractAddress,
        tx_hash: TransactionHash,
    ) -> (r: DeployAccountTransaction)
        ensures
            r == (DeployAccountTransaction { tx: deploy_account_tx, tx_hash, contract_address }),
    {
        DeployAccountTransaction { tx: deploy_account_tx, tx_hash, contract_address }
    }

    /// Builds a DeployAccount transaction from its gateway (RPC) form.
    pub fn from_rpc_tx(
        rpc_tx: RpcDeployAccountTransaction,
        contract_address: ContractAddress,
        tx_hash: TransactionHash,
    ) -> (r: DeployAccountTransaction)
        ensures
            r.tx == rpc_tx.spec_into_inner(),
            r.contract_address == contract_address,
            r.tx_hash == tx_hash,
    {
        let deploy_account_tx = rpc_tx.into_inner();
        DeployAccountTransaction::create(deploy_account_tx, contract_address, tx_hash)
    }
}

/// An Invoke transaction ready for execution.
#[derive(Clone, Debug, PartialEq, Eq)]
pub struct InvokeTransaction {
    pub tx: InvokeTransactionInner,
    pub tx_hash: TransactionHash,
}

impl InvokeTransaction {
    pub fn tx(&self) -> (r: &InvokeTransactionInner)
        ensures
            *r == self.tx,
    {
        &self.tx
    }

    /// Builds an Invoke transaction from its wire form and the hash the
    /// external hasher assigned to it.
    pub fn create(invoke_tx: InvokeTransactionInner, tx_hash: TransactionHash) -> (r:
        InvokeTransaction)
        ensures
            r == (InvokeTransaction { tx: invoke_tx, tx_hash }),
    {
        InvokeTransaction { tx: invoke_tx, tx_hash }
    }

    /// Builds an Invoke transaction from its gateway (RPC) form.
    pub fn from_rpc_tx(rpc_tx: RpcInvokeTransaction, tx_hash: TransactionHash) -> (r:
        InvokeTransaction)
        ensures
            r.tx == rpc_tx.spec_into_inner(),
            r.tx_hash == tx_hash,
    {
        let invoke_tx = rpc_tx.into_inner();
        InvokeTransaction::create(invoke_tx, tx_hash)
    }
}

/// An L1 handler transaction ready for execution.
#[derive(Clone, Debug, PartialEq, Eq)]
pub struct L1HandlerTransaction {
    pub tx: L1HandlerTransactionInner,
    pub tx_hash: TransactionHash,
    pub paid_fee_on_l1: Fee,
}

impl Default for L1HandlerTransaction {
    fn default() -> (r: Self)
        ensures
            r.tx_hash.h.v == 0,
            r.paid_fee_on_l1.0 == 0,
            r.tx.calldata.0@ =~= Seq::<Felt>::empty(),
    {
        L1HandlerTransaction {
            tx: L1HandlerTransactionInner::default(),
            tx_hash: TransactionHash { h: Felt { v: 0 } },
            paid_fee_on_l1: Fee(0),
        }
    }
}

impl L1HandlerTransaction {
    /// The number of payload words: the calldata without its leading L1
    /// sender address.
    pub fn payload_size(&self) -> (r: usize)
        requires
            self.tx.calldata.0@.len() >= 1,
        ensures
            r == self.tx.calldata.0@.len() - 1,
    {
        self.tx.calldata.0.len() - 1
    }
}

/// A paid Starknet transaction.
#[derive(Clone, Debug, PartialEq, Eq)]
pub enum AccountTransaction {
    Declare(DeclareTransaction),
    DeployAccount(DeployAccountTransaction),
    Invoke(InvokeTransaction),
}

impl AccountTransaction {
    /// The address the transaction acts from: the sender for Declare and
    /// Invoke, the deployed address for DeployAccount.
    pub open spec fn spec_contract_address(&self) -> ContractAddress {
        match *self {
            AccountTransaction::Declare(ref tx_data) => tx_data.tx.spec_sender_address(),
            AccountTransaction::DeployAccount(ref tx_data) => tx_data.contract_address,
            AccountTransaction::Invoke(ref tx_data) => tx_data.tx.sender_address,
        }
    }

    pub fn contract_address(&self) -> (r: ContractAddress)
        ensures
            r == self.spec_contract_address(),
    {
        match self {
            AccountTransaction::Declare(tx_data) => tx_data.tx.sender_address(),
            AccountTransaction::DeployAccount(tx_data) => tx_data.contract_address,
            AccountTransaction::Invoke(tx_data) => tx_data.tx.sender_address,
        }
    }

    pub fn sender_address(&self) -> (r: ContractAddress)
        ensures
            r == self.spec_contract_address(),
    {
        self.contract_address()
    }

    /// The hash spec, by variant.
    pub open spec fn spec_tx_hash(&self) -> TransactionHash {
        match *self {
            AccountTransaction::Declare(ref tx_data) => tx_data.tx_hash,
            AccountTransaction::DeployAccount(ref tx_data) => tx_data.tx_hash,
            AccountTransaction::Invoke(ref tx_data) => tx_data.tx_hash,
        }
    }

    pub fn tx_hash(&self) -> (r: TransactionHash)
        ensures
            r == self.spec_tx_hash(),
    {
        match self {
            AccountTransaction::Declare(tx_data) => tx_data.tx_hash,
            AccountTransaction::DeployAccount(tx_data) => tx_data.tx_hash,
            AccountTransaction::Invoke(tx_data) => tx_data.tx_hash,
        }
    }
}

/// Any transaction the pipeline executes.
#[derive(Clone, Debug, PartialEq, Eq)]
pub enum Transaction {
    Account(AccountTransaction),
    L1Handler(L1HandlerTransaction),
}

impl Transaction {
    /// The hash spec, by variant.
    pub open spec fn spec_tx_hash(&self) -> TransactionHash {
        match *self {
            Transaction::Account(ref tx) => tx.spec_tx_hash(),
            Transaction::L1Handler(ref tx) => tx.tx_hash,
        }
    }

    pub fn tx_hash(&self) -> (r: TransactionHash)
        ensures
            r == self.spec_tx_hash(),
    {
        match self {
            Transaction::Account(tx) => tx.tx_hash(),
            Transaction::L1Handler(tx) => tx.tx_hash,
        }
    }
}

/// The gateway (RPC) form of a version 3 Invoke transaction.
#[derive(Clone, Debug, PartialEq, Eq)]
pub struct RpcInvokeTransactionV3 {
    pub sender_address: ContractAddress,
    pub calldata: Calldata,
    pub signature: TransactionSignature,
    pub nonce: Nonce,
    pub tip: u64,
    pub resource_bounds: AllResourceBounds,
}

/// The gateway (RPC) form of an Invoke transaction.
#[derive(Clone, Debug, PartialEq, Eq)]
pub enum RpcInvokeTransaction {
    V3(RpcInvokeTransactionV3),
}

impl RpcInvokeTransaction {
    /// The wire form this gateway transaction denotes.
    pub open spec fn spec_into_inner(&self) -> InvokeTransactionInner {
        match *self {
            RpcInvokeTransaction::V3(ref v3) => InvokeTransactionInner {
                version: TransactionVersion { v: 3 },
                sender_address: v3.sender_address,
                calldata: v3.calldata,
                signature: v3.signature,
                nonce: v3.nonce,
                tip: v3.tip,
                resource_bounds: ValidResourceBounds::AllResources(v3.resource_bounds),
            },
        }
    }

    pub fn into_inner(self) -> (r: InvokeTransactionInner)
        ensures
            r == self.spec_into_inner(),
    {
        match self {
            RpcInvokeTransaction::V3(v3) => InvokeTransactionInner {
                version: TransactionVersion { v: 3 },
                sender_address: v3.sender_address,
                calldata: v3.calldata,
                signature: v3.signature,
                nonce: v3.nonce,
                tip: v3.tip,
                resource_bounds: ValidResourceBounds::AllResources(v3.resource_bounds),
            },
        }
    }
}

/// The gateway (RPC) form of a version 3 DeployAccount transaction.
#[derive(Clone, Debug, PartialEq, Eq)]
pub struct RpcDeployAccountTransactionV3 {
    pub class_hash: ClassHash,
    pub constructor_calldata: Calldata,
    pub contract_address_salt: Felt,
    pub signature: TransactionSignature,
    pub nonce: Nonce,
    pub tip: u64,
    pub resource_bounds: AllResourceBounds,
}

/// The gateway (RPC) form of a DeployAccount transaction.
#[derive(Clone, Debug, PartialEq, Eq)]
pub enum RpcDeployAccountTransaction {
    V3(RpcDeployAccountTransactionV3),
}

impl RpcDeployAccountTransaction {
    /// The wire form this gateway transaction denotes.
    pub open spec fn spec_into_inner(&self) -> DeployAccountTransactionInner {
        match *self {
            RpcDeployAccountTransaction::V3(ref v3) => DeployAccountTransactionInner {
                version: TransactionVersion { v: 3 },
                class_hash: v3.class_hash,
                constructor_calldata: v3.constructor_calldata,
                contract_address_salt: v3.contract_address_salt,
                signature: v3.signature,
                nonce: v3.nonce,
                tip: v3.tip,
                resource_bounds: ValidResourceBounds::AllResources(v3.resource_bounds),
            },
        }
    }

    pub fn into_inner(self) -> (r: DeployAccountTransactionInner)
        ensures
            r == self.spec_into_inner(),
    {
        match self {
            RpcDeployAccountTransaction::V3(v3) => DeployAccountTransactionInner {
                version: TransactionVersion { v: 3 },
                class_hash: v3.class_hash,
                constructor_calldata: v3.constructor_calldata,
                contract_address_salt: v3.contract_address_salt,
                signature: v3.signature,
                nonce: v3.nonce,
                tip: v3.tip,
                resource_bounds: ValidResourceBounds::AllResources(v3.resource_bounds),
            },
        }
    }
}

} // verus!
