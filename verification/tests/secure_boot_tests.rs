use pandagen::secure_boot::{hash_bytes, hash_policy, BootError, BootPolicy, BootVerifier};

#[test]
fn test_boot_verifier_success() {
    let mut verifier = BootVerifier::new();
    verifier.measure_component("kernel", b"kernel-binary");
    verifier.measure_component("policy", b"policy");

    let policy = BootPolicy::new()
        .require("kernel", &hash_bytes(b"kernel-binary"))
        .require("policy", &hash_bytes(b"policy"));

    verifier.verify_policy(&policy).unwrap();
    let report = verifier.attest(&policy).unwrap();
    assert_eq!(report.measurements.components.len(), 2);
}

#[test]
fn test_boot_verifier_mismatch() {
    let mut verifier = BootVerifier::new();
    verifier.measure_component("kernel", b"kernel-binary");

    let policy = BootPolicy::new().require("kernel", &hash_bytes(b"other"));
    let result = verifier.verify_policy(&policy);
    assert!(matches!(result, Err(BootError::DigestMismatch { .. })));
}

#[test]
fn test_boot_verifier_missing_component() {
    let mut verifier = BootVerifier::new();
    verifier.measure_component("kernel", b"kernel-binary");
    let policy = BootPolicy::new()
        .require("kernel", &hash_bytes(b"kernel-binary"))
        .require("initrd", &hash_bytes(b"initrd"));
    match verifier.verify_policy(&policy) {
        Err(BootError::MissingComponent(name)) => assert_eq!(name, "initrd"),
        _ => panic!("expected a missing component"),
    }
    assert!(verifier.attest(&policy).is_err());
}

#[test]
fn test_hash_bytes_known_digest() {
    assert_eq!(
        hash_bytes(b"abc"),
        "ba7816bf8f01cfea414140de5dae2223b00361a396177a9cb410ff61f20015ad"
    );
    assert_eq!(
        hash_bytes(b""),
        "e3b0c44298fc1c149afbf4c8996fb92427ae41e4649b934ca495991b7852b855"
    );
}

#[test]
fn test_policy_requires_in_name_order_and_replaces() {
    let policy = BootPolicy::new()
        .require("zeta", "1")
        .require("alpha", "2")
        .require("zeta", "3");
    let entries = policy.entries();
    assert_eq!(entries.len(), 2);
    assert_eq!(entries[0].0, "alpha");
    assert_eq!(entries[0].1, "2");
    assert_eq!(entries[1].0, "zeta");
    assert_eq!(entries[1].1, "3");
    // The policy digest covers `name=digest;` in name order.
    assert_eq!(hash_policy(&policy), hash_bytes(b"alpha=2;zeta=3;"));
}

#[test]
fn test_mismatch_message_and_first_measurement_wins() {
    let mut verifier = BootVerifier::new();
    verifier.measure_component("kernel", b"one");
    verifier.measure_component("kernel", b"two");
    let policy = BootPolicy::new().require("kernel", &hash_bytes(b"two"));
    let err = verifier.verify_policy(&policy).unwrap_err();
    assert_eq!(
        err.to_string(),
        format!(
            "Digest mismatch for kernel: expected {}, got {}",
            hash_bytes(b"two"),
            hash_bytes(b"one")
        )
    );
    let report = BootVerifier::new().attest(&BootPolicy::new()).unwrap();
    assert_eq!(report.policy_digest, hash_bytes(b""));
    assert_eq!(verifier.log().components.len(), 2);
}
