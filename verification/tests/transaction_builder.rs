use ir_manager::address::Address;
use ir_manager::gas::FeeEstimates;
use ir_manager::transaction::TransactionBuilder;
use ir_manager::types::DerivationPath;
use ir_manager::uint::U256;

#[test]
fn test_default_transaction_builder() {
    let builder = TransactionBuilder::default();
    assert_eq!(builder.to, "");
    assert_eq!(builder.from, "");
    assert_eq!(builder.data, Vec::<u8>::new());
    assert_eq!(builder.value, U256::zero());
    assert_eq!(builder.nonce, 0);
    assert_eq!(builder.derivation_path, DerivationPath::default());
    assert_eq!(builder.cycles, 0);
}

#[test]
fn test_set_to() {
    let to_address = "0x0123456789abcdef0123456789abcdef01234567".to_string();
    let builder = TransactionBuilder::default().to(to_address.clone());
    assert_eq!(builder.to, to_address);
}

#[test]
fn test_set_from() {
    let from_address = "0xabcdef0123456789abcdef0123456789abcdef01".to_string();
    let builder = TransactionBuilder::default().from(from_address.clone());
    assert_eq!(builder.from, from_address);
}

#[test]
fn test_set_data() {
    let data = vec![0xde, 0xad, 0xbe, 0xef];
    let builder = TransactionBuilder::default().data(data.clone());
    assert_eq!(builder.data, data);
}

#[test]
fn test_set_value() {
    let value = U256::from_u64(1000);
    let builder = TransactionBuilder::default().value(value);
    assert_eq!(builder.value, value);
}

#[test]
fn test_set_nonce() {
    let nonce = 42;
    let builder = TransactionBuilder::default().nonce(nonce);
    assert_eq!(builder.nonce, nonce);
}

#[test]
fn test_set_derivation_path() {
    let derivation_path = vec![vec![44, 60, 0, 0, 0]];
    let builder = TransactionBuilder::default().derivation_path(derivation_path.clone());
    assert_eq!(builder.derivation_path, derivation_path);
}

#[test]
fn test_set_cycles() {
    let cycles = 1_000_000;
    let builder = TransactionBuilder::default().cycles(cycles);
    assert_eq!(builder.cycles, cycles);
}

#[test]
fn test_chained_setters() {
    let to_address = "0x0123456789abcdef0123456789abcdef01234567".to_string();
    let from_address = "0xabcdef0123456789abcdef0123456789abcdef01".to_string();
    let data = vec![0xde, 0xad, 0xbe, 0xef];
    let value = U256::from_u64(1000);
    let nonce = 42;
    let derivation_path = vec![vec![44, 60, 0, 0, 0]];
    let cycles = 1_000_000;

    let builder = TransactionBuilder::default()
        .to(to_address.clone())
        .from(from_address.clone())
        .data(data.clone())
        .value(value)
        .nonce(nonce)
        .derivation_path(derivation_path.clone())
        .cycles(cycles);

    assert_eq!(builder.to, to_address);
    assert_eq!(builder.from, from_address);
    assert_eq!(builder.data, data);
    assert_eq!(builder.value, value);
    assert_eq!(builder.nonce, nonce);
    assert_eq!(builder.derivation_path, derivation_path);
    assert_eq!(builder.cycles, cycles);
}

#[test]
fn unsigned_transaction_carries_the_parameters() {
    let fees = FeeEstimates { max_fee_per_gas: 3_000_000_000, max_priority_fee_per_gas: 1_000_000_000 };
    let tx = TransactionBuilder::default()
        .to("0x0123456789abcdef0123456789abcdef01234567".to_string())
        .data(vec![1, 2, 3])
        .value(U256::from_u64(7))
        .nonce(9)
        .unsigned_transaction(fees, U256::from_u64(21_000))
        .unwrap();
    assert_eq!(tx.chain_id, 1);
    assert_eq!(tx.to, Address { hi: 0x01234567, lo: 0x89abcdef0123456789abcdef01234567 });
    assert_eq!(tx.max_fee_per_gas, 3_000_000_000);
    assert_eq!(tx.max_priority_fee_per_gas, 1_000_000_000);
    assert_eq!(tx.value, U256::from_u64(7));
    assert_eq!(tx.nonce, 9);
    assert_eq!(tx.gas_limit, 21_000);
    assert_eq!(tx.input, vec![1, 2, 3]);
}

#[test]
fn unsigned_transaction_rejects_a_bad_recipient() {
    let fees = FeeEstimates { max_fee_per_gas: 1, max_priority_fee_per_gas: 1 };
    let result = TransactionBuilder::default().to("not an address".to_string()).unsigned_transaction(fees, U256::zero());
    assert!(matches!(result, Err(ir_manager::error::ManagerError::DecodingError(_))));
}
