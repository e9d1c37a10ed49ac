use alloy::signers::k256::ecdsa::SigningKey;
use ir_manager::error::ManagerError;
use ir_manager::signer::{bytes_equal, try_y_parity, y_parity};

fn signing_key() -> SigningKey {
    let mut secret = [0u8; 32];
    secret[31] = 7;
    secret[0] = 1;
    SigningKey::from_slice(&secret).unwrap()
}

#[test]
fn parity_recovers_the_signing_key() {
    let key = signing_key();
    let compressed = key.verifying_key().to_encoded_point(true).as_bytes().to_vec();
    for seed in 0u8..8 {
        let prehash = [seed.wrapping_mul(31).wrapping_add(3); 32];
        let (signature, recid) = key.sign_prehash_recoverable(&prehash).unwrap();
        let sig = signature.to_bytes().to_vec();
        let expected = recid.is_y_odd();
        assert!(matches!(try_y_parity(&prehash, &sig, &compressed), Some(Ok(p)) if p == expected));
        assert!(matches!(y_parity(&prehash, &sig, &compressed), Ok(p) if p == expected));
    }
}

#[test]
fn parity_of_an_unparsable_signature_is_an_error() {
    let key = signing_key();
    let compressed = key.verifying_key().to_encoded_point(true).as_bytes().to_vec();
    let prehash = [9u8; 32];
    assert!(matches!(try_y_parity(&prehash, &[0u8; 64], &compressed), Some(Err(ManagerError::NonExistentValue))));
    assert!(matches!(try_y_parity(&prehash, &[1u8; 63], &compressed), Some(Err(ManagerError::NonExistentValue))));
}

#[test]
fn parity_of_an_unparsable_key_is_refused() {
    let key = signing_key();
    let prehash = [9u8; 32];
    let (signature, _) = key.sign_prehash_recoverable(&prehash).unwrap();
    let sig = signature.to_bytes().to_vec();
    assert!(try_y_parity(&prehash, &sig, &[2u8; 5]).is_none());
}

#[test]
fn parity_for_another_key_is_refused() {
    let key = signing_key();
    let mut other_secret = [0u8; 32];
    other_secret[31] = 11;
    let other = SigningKey::from_slice(&other_secret).unwrap();
    let other_key = other.verifying_key().to_encoded_point(false).as_bytes().to_vec();
    let prehash = [5u8; 32];
    let (signature, _) = key.sign_prehash_recoverable(&prehash).unwrap();
    let sig = signature.to_bytes().to_vec();
    assert!(try_y_parity(&prehash, &sig, &other_key).is_none());
}

#[test]
fn byte_strings_compare_by_content() {
    assert!(bytes_equal(&[1, 2, 3], &[1, 2, 3]));
    assert!(!bytes_equal(&[1, 2, 3], &[1, 2, 4]));
    assert!(!bytes_equal(&[1, 2], &[1, 2, 3]));
    assert!(bytes_equal(&[], &[]));
}
