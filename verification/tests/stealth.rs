use safemask_core::group::mul_base;
use safemask_core::stealth::{derive_stealth_address_bytes, scan_output, StealthKeypair};

#[test]
fn test_stealth_address() {
    let keypair = StealthKeypair::generate();

    // Sender generates stealth address
    let (ephemeral_public, stealth_public, _) = StealthKeypair::derive_stealth_address(
        &keypair.spend_public,
        &keypair.view_public,
    );

    // Recipient scans and finds it belongs to them
    let private_key = keypair.scan_stealth_address(&ephemeral_public, &stealth_public);
    assert!(private_key.is_some());
}

#[test]
fn test_stealth_recovered_key_matches_address() {
    // The recovered one-time secret key is the discrete log of the published
    // one-time public key.
    let keypair = StealthKeypair::generate();
    let (ephemeral_public, stealth_public, _) = StealthKeypair::derive_stealth_address(
        &keypair.spend_public,
        &keypair.view_public,
    );

    let one_time_key = keypair
        .scan_stealth_address(&ephemeral_public, &stealth_public)
        .expect("owned output must be recognised");
    assert_eq!(mul_base(&one_time_key), stealth_public);
}

#[test]
fn test_stealth_non_interference() {
    // An output derived for keypair B is never recognised by keypair A's
    // keys, across many independent trials.
    for _ in 0..32 {
        let a = StealthKeypair::generate();
        let b = StealthKeypair::generate();
        let (ephemeral_public, stealth_public, _) = StealthKeypair::derive_stealth_address(
            &b.spend_public,
            &b.view_public,
        );
        let found = a.scan_stealth_address(&ephemeral_public, &stealth_public);
        assert!(found.is_none());
    }
}

#[test]
fn test_stealth_wire_round_trip() {
    // Derivation from encoded recipient keys, and scanning of encoded
    // outputs, agree with the in-memory protocol.
    let keypair = StealthKeypair::generate();
    let spend_bytes = keypair.spend_public.as_bytes();
    let view_bytes = keypair.view_public.as_bytes();

    let (ephemeral_public, stealth_public, _) =
        derive_stealth_address_bytes(&spend_bytes, &view_bytes).expect("keys are canonical");

    let scanned = scan_output(
        &keypair.spend_private,
        &keypair.view_private,
        &ephemeral_public.as_bytes(),
        &stealth_public.as_bytes(),
    )
    .expect("encodings are canonical");
    let one_time_key = scanned.expect("owned output must be recognised");
    assert_eq!(mul_base(&one_time_key), stealth_public);
}

#[test]
fn test_stealth_wire_rejects_invalid_keys() {
    let keypair = StealthKeypair::generate();
    let good = keypair.spend_public.as_bytes();
    let bad = [0xffu8; 32];
    assert!(derive_stealth_address_bytes(&bad, &good).is_none());
    assert!(derive_stealth_address_bytes(&good, &bad).is_none());
    assert!(scan_output(&keypair.spend_private, &keypair.view_private, &bad, &good).is_none());
}

#[test]
fn test_from_secrets_deterministic() {
    // The same supplied key material always yields the same keypair, and
    // the keypair scans its own outputs.
    let spend = [7u8; 32];
    let view = [9u8; 32];
    let a = StealthKeypair::from_secrets(&spend, &view);
    let b = StealthKeypair::from_secrets(&spend, &view);
    assert_eq!(a.spend_public, b.spend_public);
    assert_eq!(a.view_public, b.view_public);

    let (ephemeral_public, stealth_public, _) =
        StealthKeypair::derive_stealth_address(&a.spend_public, &a.view_public);
    let key = b.scan_stealth_address(&ephemeral_public, &stealth_public);
    assert!(key.is_some());
}

#[test]
fn test_stealth_addresses_unlinkable_inputs_differ() {
    // Two payments to the same recipient produce different ephemeral and
    // one-time keys (fresh randomness per payment).
    let keypair = StealthKeypair::generate();
    let (e1, p1, _) =
        StealthKeypair::derive_stealth_address(&keypair.spend_public, &keypair.view_public);
    let (e2, p2, _) =
        StealthKeypair::derive_stealth_address(&keypair.spend_public, &keypair.view_public);
    assert_ne!(e1, e2);
    assert_ne!(p1, p2);
}
