//! Tests of the per-candidate search step: the events it reports, both
//! modes, and an end-to-end run until a match is found.

use optivanity::affix::AffixSpec;
use optivanity::deriver::{
    auth_key_bytes_vec, create_multisig_account_address, SEQUENCE_NUMBER_MULTISIG,
};
use optivanity::search::{search_step, try_candidate};

#[test]
fn standard_event_reports_address_and_key_in_hex() {
    let spec = AffixSpec::parse(None, None).unwrap();
    let key: Vec<u8> = (1u8..=32).collect();
    let event = try_candidate(&spec, false, &key).expect("absent affixes always match");
    assert_eq!(
        event.private_key,
        "0102030405060708090a0b0c0d0e0f101112131415161718191a1b1c1d1e1f20"
    );
    assert_eq!(event.private_key, hex::encode(&key));
    assert_eq!(event.address, hex::encode(&auth_key_bytes_vec(&key)));
    assert_eq!(event.multisig_address, None);
}

#[test]
fn multisig_event_reports_both_addresses() {
    let spec = AffixSpec::parse(None, None).unwrap();
    let key = vec![3u8; 32];
    let event = try_candidate(&spec, true, &key).expect("absent affixes always match");
    let standard = auth_key_bytes_vec(&key);
    let multisig = create_multisig_account_address(standard.clone(), SEQUENCE_NUMBER_MULTISIG);
    assert_eq!(event.address, hex::encode(&standard));
    assert_eq!(event.private_key, hex::encode(&key));
    assert_eq!(event.multisig_address, Some(hex::encode(&multisig)));
}

#[test]
fn candidate_is_rejected_when_address_misses_the_affix() {
    let key = vec![5u8; 32];
    let address_hex = hex::encode(&auth_key_bytes_vec(&key));
    // Build a prefix the address certainly does not carry.
    let wrong = if address_hex.starts_with("00") { "11" } else { "00" };
    let spec = AffixSpec::parse(Some(wrong), None).unwrap();
    assert!(try_candidate(&spec, false, &key).is_none());
    // And one it certainly does.
    let right = &address_hex[..2];
    let spec_right = AffixSpec::parse(Some(right), None).unwrap();
    let event = try_candidate(&spec_right, false, &key).expect("own prefix must match");
    assert_eq!(event.address, address_hex);
}

#[test]
fn multisig_mode_searches_on_the_multisig_address() {
    let key = vec![9u8; 32];
    let standard = auth_key_bytes_vec(&key);
    let multisig = create_multisig_account_address(standard, SEQUENCE_NUMBER_MULTISIG);
    let multisig_hex = hex::encode(&multisig);
    let spec = AffixSpec::parse(Some(&multisig_hex[..2]), None).unwrap();
    let event = try_candidate(&spec, true, &key).expect("own prefix must match");
    assert_eq!(event.multisig_address, Some(multisig_hex));
}

#[test]
fn search_finds_a_matching_address() {
    let spec = AffixSpec::parse(Some("0"), None).unwrap();
    let mut found = None;
    for _ in 0..200_000u32 {
        if let Some(event) = search_step(&spec, false) {
            found = Some(event);
            break;
        }
    }
    let event = found.expect("a 1-in-16 prefix must be found quickly");
    assert!(event.address.starts_with('0'));
    assert_eq!(event.address.len(), 64);
    assert_eq!(event.private_key.len(), 64);
    assert_eq!(event.multisig_address, None);
}

#[test]
fn search_respects_prefix_and_suffix_together() {
    let spec = AffixSpec::parse(Some("a"), Some("b")).unwrap();
    let mut found = None;
    for _ in 0..2_000_000u32 {
        if let Some(event) = search_step(&spec, false) {
            found = Some(event);
            break;
        }
    }
    let event = found.expect("a 1-in-256 affix pair must be found quickly");
    assert!(event.address.starts_with('a'));
    assert!(event.address.ends_with('b'));
}
