//! Tests of address derivation: determinism, agreement with a direct
//! computation through the underlying crates, and the multisig derivation.

use optivanity::deriver::{
    auth_key_bytes_vec, create_multisig_account_address, SEQUENCE_NUMBER_MULTISIG,
};
use sha3::Digest;

fn fixed_key(fill: u8) -> Vec<u8> {
    vec![fill; 32]
}

#[test]
fn derive_address_is_deterministic() {
    let key = fixed_key(7);
    let first = auth_key_bytes_vec(&key);
    let second = auth_key_bytes_vec(&key);
    assert_eq!(first, second);
    assert_eq!(first.len(), 32);
}

#[test]
fn derive_address_agrees_with_direct_computation() {
    let key = fixed_key(42);
    let derived = auth_key_bytes_vec(&key);
    let mut secret = [0u8; 32];
    secret.copy_from_slice(&key);
    let signing_key = ed25519_dalek::SigningKey::from_bytes(&secret);
    let mut preimage = signing_key.verifying_key().to_bytes().to_vec();
    preimage.push(0);
    let expected = sha3::Sha3_256::digest(&preimage).to_vec();
    assert_eq!(derived, expected);
}

#[test]
fn distinct_keys_give_distinct_addresses() {
    let a = auth_key_bytes_vec(&fixed_key(1));
    let b = auth_key_bytes_vec(&fixed_key(2));
    assert_ne!(a, b);
}

#[test]
fn multisig_derivation_is_deterministic() {
    let creator = auth_key_bytes_vec(&fixed_key(9));
    let first = create_multisig_account_address(creator.clone(), SEQUENCE_NUMBER_MULTISIG);
    let second = create_multisig_account_address(creator, SEQUENCE_NUMBER_MULTISIG);
    assert_eq!(first, second);
    assert_eq!(first.len(), 32);
}

#[test]
fn multisig_derivation_agrees_with_direct_computation() {
    let creator = vec![0xC3; 32];
    let derived = create_multisig_account_address(creator.clone(), 0);
    let mut seed = creator;
    seed.extend(b"aptos_framework::multisig_account");
    seed.extend(0u64.to_le_bytes());
    seed.push(255);
    let expected = sha3::Sha3_256::digest(&seed).to_vec();
    assert_eq!(derived, expected);
}

#[test]
fn multisig_derivation_separates_creators_and_nonces() {
    let creator_a = vec![0u8; 32];
    let creator_b = vec![1u8; 32];
    let a0 = create_multisig_account_address(creator_a.clone(), 0);
    let b0 = create_multisig_account_address(creator_b, 0);
    let a1 = create_multisig_account_address(creator_a, 1);
    assert_ne!(a0, b0);
    assert_ne!(a0, a1);
}

#[test]
fn multisig_scenario_repeated_invocations_agree() {
    let creator = auth_key_bytes_vec(&fixed_key(0x11));
    let reference = create_multisig_account_address(creator.clone(), SEQUENCE_NUMBER_MULTISIG);
    for _ in 0..5 {
        let again = create_multisig_account_address(creator.clone(), SEQUENCE_NUMBER_MULTISIG);
        assert_eq!(again, reference);
    }
}
