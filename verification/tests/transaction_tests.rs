use sequencer_core::transaction::{
    AccountTransaction, AllResourceBounds, Calldata, ClassInfo, ContractClass,
    DeclareTransaction, DeclareTransactionInner, DeployAccountTransaction,
    DeployAccountTransactionInner, DeprecatedContractClass, Fee, InvokeTransaction,
    InvokeTransactionInner, L1HandlerTransaction, L1HandlerTransactionInner, ResourceBounds,
    RpcInvokeTransaction, RpcInvokeTransactionV3, SierraContractClass, StarknetApiError,
    Transaction, TransactionSignature, TransactionVersion, ValidResourceBounds,
    validate_class_version_matches_tx_version,
};
use sequencer_core::types::{
    ClassHash, CompiledClassHash, ContractAddress, Felt, Nonce, TransactionHash,
};

fn sierra_class(compiled: u64) -> ContractClass {
    ContractClass::V1(SierraContractClass {
        program_id: Felt { v: 1 },
        compiled_class_hash: CompiledClassHash { h: Felt { v: compiled } },
    })
}

fn deprecated_class() -> ContractClass {
    ContractClass::V0(DeprecatedContractClass { program_id: Felt { v: 1 } })
}

fn declare_v3(compiled: u64) -> DeclareTransactionInner {
    DeclareTransactionInner::V3 {
        sender_address: ContractAddress { a: Felt { v: 10 } },
        nonce: Nonce { n: Felt { v: 0 } },
        class_hash: ClassHash { h: Felt { v: 77 } },
        compiled_class_hash: CompiledClassHash { h: Felt { v: compiled } },
        signature: TransactionSignature(Vec::new()),
    }
}

#[test]
fn declare_create_checks_class_version() {
    let class_info = ClassInfo {
        contract_class: sierra_class(5),
        sierra_program_length: 10,
        abi_length: 2,
    };
    let tx_hash = TransactionHash { h: Felt { v: 999 } };
    let d = DeclareTransaction::create(declare_v3(5), class_info, tx_hash).unwrap();
    assert_eq!(d.tx_hash, tx_hash);

    // A version 3 declare of a deprecated class is refused.
    let bad_info = ClassInfo {
        contract_class: deprecated_class(),
        sierra_program_length: 0,
        abi_length: 0,
    };
    let err = DeclareTransaction::create(declare_v3(5), bad_info, tx_hash).unwrap_err();
    assert_eq!(
        err,
        StarknetApiError::ContractClassVersionMismatch {
            declare_version: TransactionVersion { v: 3 },
            cairo_version: 1,
        }
    );
}

#[test]
fn class_version_rule() {
    // Versions 0 and 1 declare deprecated classes; 2 and above declare Sierra.
    assert!(validate_class_version_matches_tx_version(
        TransactionVersion { v: 1 },
        &deprecated_class()
    )
    .is_ok());
    assert!(validate_class_version_matches_tx_version(
        TransactionVersion { v: 2 },
        &sierra_class(5)
    )
    .is_ok());
    assert!(validate_class_version_matches_tx_version(
        TransactionVersion { v: 0 },
        &sierra_class(5)
    )
    .is_err());
}

#[test]
fn compiled_class_hash_validation() {
    let tx_hash = TransactionHash { h: Felt { v: 999 } };
    let good = DeclareTransaction::create(
        declare_v3(5),
        ClassInfo { contract_class: sierra_class(5), sierra_program_length: 1, abi_length: 1 },
        tx_hash,
    )
    .unwrap();
    assert!(good.validate_compiled_class_hash());

    let bad = DeclareTransaction::create(
        declare_v3(6),
        ClassInfo { contract_class: sierra_class(5), sierra_program_length: 1, abi_length: 1 },
        tx_hash,
    )
    .unwrap();
    assert!(!bad.validate_compiled_class_hash());
}

fn invoke_inner() -> InvokeTransactionInner {
    InvokeTransactionInner {
        version: TransactionVersion { v: 3 },
        sender_address: ContractAddress { a: Felt { v: 42 } },
        calldata: Calldata(vec![Felt { v: 1 }, Felt { v: 2 }]),
        signature: TransactionSignature(vec![Felt { v: 3 }]),
        nonce: Nonce { n: Felt { v: 7 } },
        tip: 0,
        resource_bounds: ValidResourceBounds::L1Gas(ResourceBounds {
            max_amount: 5,
            max_price_per_unit: 6,
        }),
    }
}

#[test]
fn invoke_create_and_hashes() {
    let tx_hash = TransactionHash { h: Felt { v: 123 } };
    let invoke = InvokeTransaction::create(invoke_inner(), tx_hash);
    let account = AccountTransaction::Invoke(invoke);
    assert_eq!(account.tx_hash(), tx_hash);
    assert_eq!(account.contract_address(), ContractAddress { a: Felt { v: 42 } });
    assert_eq!(account.sender_address(), ContractAddress { a: Felt { v: 42 } });
    let tx = Transaction::Account(account);
    assert_eq!(tx.tx_hash(), tx_hash);
}

#[test]
fn invoke_from_rpc_tx() {
    let rpc = RpcInvokeTransaction::V3(RpcInvokeTransactionV3 {
        sender_address: ContractAddress { a: Felt { v: 42 } },
        calldata: Calldata(vec![Felt { v: 1 }]),
        signature: TransactionSignature(Vec::new()),
        nonce: Nonce { n: Felt { v: 7 } },
        tip: 3,
        resource_bounds: AllResourceBounds {
            l1_gas: ResourceBounds { max_amount: 1, max_price_per_unit: 2 },
            l2_gas: ResourceBounds::zeroed(),
            l1_data_gas: ResourceBounds::zeroed(),
        },
    });
    let tx_hash = TransactionHash { h: Felt { v: 5 } };
    let invoke = InvokeTransaction::from_rpc_tx(rpc, tx_hash);
    assert_eq!(invoke.tx.version, TransactionVersion { v: 3 });
    assert_eq!(invoke.tx.tip, 3);
    assert_eq!(invoke.tx_hash, tx_hash);
}

#[test]
fn deploy_account_create() {
    let inner = DeployAccountTransactionInner {
        version: TransactionVersion { v: 3 },
        class_hash: ClassHash { h: Felt { v: 77 } },
        constructor_calldata: Calldata(Vec::new()),
        contract_address_salt: Felt { v: 1 },
        signature: TransactionSignature(Vec::new()),
        nonce: Nonce { n: Felt { v: 0 } },
        tip: 0,
        resource_bounds: ValidResourceBounds::L1Gas(ResourceBounds::zeroed()),
    };
    let address = ContractAddress { a: Felt { v: 900 } };
    let tx_hash = TransactionHash { h: Felt { v: 5 } };
    let d = DeployAccountTransaction::create(inner, address, tx_hash);
    assert_eq!(d.contract_address, address);
    let account = AccountTransaction::DeployAccount(d);
    assert_eq!(account.contract_address(), address);
}

#[test]
fn l1_handler_payload_size_skips_from_address() {
    let tx = L1HandlerTransaction {
        tx: L1HandlerTransactionInner {
            contract_address: ContractAddress { a: Felt { v: 1 } },
            entry_point_selector: Felt { v: 2 },
            calldata: Calldata(vec![Felt { v: 9 }, Felt { v: 8 }, Felt { v: 7 }]),
            nonce: Nonce { n: Felt { v: 0 } },
        },
        tx_hash: TransactionHash { h: Felt { v: 4 } },
        paid_fee_on_l1: Fee(1),
    };
    assert_eq!(tx.payload_size(), 2);
}
