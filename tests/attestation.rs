use shift::attestation::{
    add_trusted_manufacturer, create_attestation, initialize, refresh_attestation,
    revoke_attestation, set_manufacturer_active, verify_attestation, verify_attestation_quote,
    verify_device_certificate, AttestationError, AttestationQuote, AttestationRegistry,
    AttestationStatus, RevocationReason, ATTESTATION_VALIDITY,
};

const OWNER: [u8; 32] = [1u8; 32];
const MAKER: [u8; 32] = [2u8; 32];
const MAKER_KEY: [u8; 32] = [3u8; 32];
const DEVICE: [u8; 32] = [4u8; 32];
const T0: i64 = 1_700_000_000;

fn quote(version: u32) -> AttestationQuote {
    AttestationQuote {
        version,
        signature: [7u8; 64],
        public_key: [8u8; 32],
        nonce: [9u8; 32],
        timestamp: T0,
        measurements: vec![[5u8; 32], [6u8; 32]],
    }
}

fn registry_with_maker() -> AttestationRegistry {
    let mut reg = initialize(OWNER);
    add_trusted_manufacturer(&mut reg, OWNER, MAKER, String::from("Acme"), MAKER_KEY, T0)
        .unwrap();
    reg
}

fn attested() -> AttestationRegistry {
    let mut reg = registry_with_maker();
    create_attestation(&mut reg, DEVICE, MAKER, quote(1), [9u8; 1024], T0).unwrap();
    reg
}

#[test]
fn registry_starts_empty() {
    let reg = initialize(OWNER);
    assert_eq!(reg.authority().authority, OWNER);
    assert!(reg.authority().trusted_manufacturers.is_empty());
    assert_eq!(reg.authority().total_attestations, 0);
    assert!(reg.manufacturer(&MAKER).is_none());
    assert!(reg.attestation(&DEVICE).is_none());
}

#[test]
fn manufacturer_is_added_active() {
    let reg = registry_with_maker();
    let m = reg.manufacturer(&MAKER).unwrap();
    assert_eq!(m.manufacturer_id, MAKER);
    assert_eq!(m.name, "Acme");
    assert_eq!(m.public_key, MAKER_KEY);
    assert!(m.is_active);
    assert_eq!(m.devices_attested, 0);
    assert_eq!(m.created_at, T0);
    assert_eq!(reg.authority().trusted_manufacturers, vec![MAKER]);
}

#[test]
fn trusted_list_keeps_approval_order() {
    let mut reg = registry_with_maker();
    add_trusted_manufacturer(&mut reg, OWNER, [20u8; 32], String::from("B"), MAKER_KEY, T0).unwrap();
    add_trusted_manufacturer(&mut reg, OWNER, [10u8; 32], String::from("C"), MAKER_KEY, T0).unwrap();
    assert_eq!(reg.authority().trusted_manufacturers, vec![MAKER, [20u8; 32], [10u8; 32]]);
}

#[test]
fn only_owner_adds_manufacturers() {
    let mut reg = initialize(OWNER);
    let r = add_trusted_manufacturer(&mut reg, [9u8; 32], MAKER, String::from("Acme"), MAKER_KEY, T0);
    assert_eq!(r, Err(AttestationError::Unauthorized));
    assert!(reg.manufacturer(&MAKER).is_none());
}

#[test]
fn duplicate_manufacturer_is_rejected() {
    let mut reg = registry_with_maker();
    let r = add_trusted_manufacturer(&mut reg, OWNER, MAKER, String::from("Other"), [4u8; 32], T0);
    assert_eq!(r, Err(AttestationError::AlreadyExists));
    assert_eq!(reg.manufacturer(&MAKER).unwrap().name, "Acme");
    assert_eq!(reg.authority().trusted_manufacturers.len(), 1);
}

#[test]
fn attestation_scenario_verifies() {
    let reg = attested();
    assert_eq!(verify_attestation(&reg, DEVICE, T0 + 1), Ok(true));
    let rec = reg.attestation(&DEVICE).unwrap();
    assert_eq!(rec.status, AttestationStatus::Valid);
    assert_eq!(rec.manufacturer_id, MAKER);
    assert_eq!(rec.created_at, T0);
    assert_eq!(rec.expires_at, T0 + 86400 * 30);
    assert_eq!(rec.revoked_at, None);
    assert_eq!(rec.revocation_reason, None);
    assert_eq!(reg.manufacturer(&MAKER).unwrap().devices_attested, 1);
    assert_eq!(reg.authority().total_attestations, 1);
}

#[test]
fn deactivating_manufacturer_does_not_cascade() {
    let mut reg = attested();
    assert_eq!(set_manufacturer_active(&mut reg, OWNER, MAKER, false), Ok(()));
    assert!(!reg.manufacturer(&MAKER).unwrap().is_active);
    // The device attested before stays verified.
    assert_eq!(verify_attestation(&reg, DEVICE, T0 + 1), Ok(true));
    // No new device can be attested under the inactive manufacturer.
    let r = create_attestation(&mut reg, [5u8; 32], MAKER, quote(1), [9u8; 1024], T0);
    assert_eq!(r, Err(AttestationError::UntrustedManufacturer));
}

#[test]
fn toggling_manufacturer_needs_owner_and_record() {
    let mut reg = registry_with_maker();
    assert_eq!(
        set_manufacturer_active(&mut reg, [9u8; 32], MAKER, false),
        Err(AttestationError::Unauthorized)
    );
    assert_eq!(
        set_manufacturer_active(&mut reg, OWNER, [42u8; 32], false),
        Err(AttestationError::ManufacturerMismatch)
    );
    assert!(reg.manufacturer(&MAKER).unwrap().is_active);
}

#[test]
fn second_attestation_for_device_fails() {
    let mut reg = attested();
    let r = create_attestation(&mut reg, DEVICE, MAKER, quote(2), [1u8; 1024], T0 + 5);
    assert_eq!(r, Err(AttestationError::AlreadyExists));
    assert_eq!(reg.attestation(&DEVICE).unwrap().attestation_quote.version, 1);
    assert_eq!(reg.authority().total_attestations, 1);
}

#[test]
fn unknown_manufacturer_is_rejected() {
    let mut reg = registry_with_maker();
    let r = create_attestation(&mut reg, DEVICE, [42u8; 32], quote(1), [9u8; 1024], T0);
    assert_eq!(r, Err(AttestationError::ManufacturerMismatch));
}

#[test]
fn invalid_quotes_are_rejected() {
    let mut bad = vec![quote(0)];
    let mut q = quote(1);
    q.signature = [0u8; 64];
    bad.push(q);
    let mut q = quote(1);
    q.timestamp = 0;
    bad.push(q);
    let mut q = quote(1);
    q.measurements = Vec::new();
    bad.push(q);
    for q in bad {
        let mut reg = registry_with_maker();
        let r = create_attestation(&mut reg, DEVICE, MAKER, q, [9u8; 1024], T0);
        assert_eq!(r, Err(AttestationError::InvalidAttestationQuote));
        assert!(reg.attestation(&DEVICE).is_none());
    }
}

#[test]
fn invalid_certificate_is_rejected() {
    let mut reg = registry_with_maker();
    let r = create_attestation(&mut reg, DEVICE, MAKER, quote(1), [0u8; 1024], T0);
    assert_eq!(r, Err(AttestationError::InvalidDeviceCertificate));
    let mut reg = initialize(OWNER);
    add_trusted_manufacturer(&mut reg, OWNER, MAKER, String::from("Zero"), [0u8; 32], T0).unwrap();
    let r = create_attestation(&mut reg, DEVICE, MAKER, quote(1), [9u8; 1024], T0);
    assert_eq!(r, Err(AttestationError::InvalidDeviceCertificate));
}

#[test]
fn expiry_time_overflow_is_rejected() {
    let mut reg = registry_with_maker();
    let r = create_attestation(&mut reg, DEVICE, MAKER, quote(1), [9u8; 1024], i64::MAX);
    assert_eq!(r, Err(AttestationError::ArithmeticOverflow));
    assert!(reg.attestation(&DEVICE).is_none());
}

#[test]
fn expiry_is_computed_at_verification() {
    let reg = attested();
    let expires = T0 + ATTESTATION_VALIDITY;
    assert_eq!(verify_attestation(&reg, DEVICE, expires - 1), Ok(true));
    assert_eq!(verify_attestation(&reg, DEVICE, expires), Err(AttestationError::AttestationExpired));
    assert_eq!(reg.attestation(&DEVICE).unwrap().status, AttestationStatus::Valid);
}

#[test]
fn unknown_device_fails_verification() {
    let reg = attested();
    assert_eq!(verify_attestation(&reg, [77u8; 32], T0), Err(AttestationError::DeviceIdMismatch));
}

#[test]
fn revocation_is_terminal() {
    let mut reg = attested();
    let r = revoke_attestation(&mut reg, OWNER, DEVICE, RevocationReason::Compromised, T0 + 10);
    assert_eq!(r, Ok(()));
    let rec = reg.attestation(&DEVICE).unwrap();
    assert_eq!(rec.status, AttestationStatus::Revoked);
    assert_eq!(rec.revoked_at, Some(T0 + 10));
    assert_eq!(rec.revocation_reason, Some(RevocationReason::Compromised));
    assert_eq!(verify_attestation(&reg, DEVICE, T0 + 11), Err(AttestationError::InvalidAttestation));
    assert_eq!(
        refresh_attestation(&mut reg, DEVICE, quote(2), T0 + 12),
        Err(AttestationError::InvalidAttestation)
    );
    assert_eq!(
        revoke_attestation(&mut reg, OWNER, DEVICE, RevocationReason::Other, T0 + 13),
        Err(AttestationError::InvalidAttestation)
    );
    let rec = reg.attestation(&DEVICE).unwrap();
    assert_eq!(rec.revoked_at, Some(T0 + 10));
    assert_eq!(rec.revocation_reason, Some(RevocationReason::Compromised));
    assert_eq!(rec.attestation_quote.version, 1);
}

#[test]
fn only_owner_revokes() {
    let mut reg = attested();
    let r = revoke_attestation(&mut reg, [9u8; 32], DEVICE, RevocationReason::UserRequested, T0);
    assert_eq!(r, Err(AttestationError::Unauthorized));
    let r = revoke_attestation(&mut reg, OWNER, [77u8; 32], RevocationReason::UserRequested, T0);
    assert_eq!(r, Err(AttestationError::DeviceIdMismatch));
    assert_eq!(verify_attestation(&reg, DEVICE, T0 + 1), Ok(true));
}

#[test]
fn refresh_extends_expiry_and_replaces_quote() {
    let mut reg = attested();
    let now = T0 + 86400;
    assert_eq!(refresh_attestation(&mut reg, DEVICE, quote(3), now), Ok(()));
    let rec = reg.attestation(&DEVICE).unwrap();
    assert_eq!(rec.attestation_quote.version, 3);
    assert_eq!(rec.expires_at, now + ATTESTATION_VALIDITY);
    assert_eq!(rec.created_at, T0);
    assert_eq!(verify_attestation(&reg, DEVICE, T0 + ATTESTATION_VALIDITY), Ok(true));
}

#[test]
fn refresh_rejects_expired_record() {
    let mut reg = attested();
    let r = refresh_attestation(&mut reg, DEVICE, quote(3), T0 + ATTESTATION_VALIDITY);
    assert_eq!(r, Err(AttestationError::AttestationExpired));
    assert_eq!(reg.attestation(&DEVICE).unwrap().attestation_quote.version, 1);
}

#[test]
fn refresh_rejects_bad_quote_and_unknown_device() {
    let mut reg = attested();
    assert_eq!(
        refresh_attestation(&mut reg, DEVICE, quote(0), T0 + 1),
        Err(AttestationError::InvalidAttestationQuote)
    );
    assert_eq!(
        refresh_attestation(&mut reg, [77u8; 32], quote(2), T0 + 1),
        Err(AttestationError::DeviceIdMismatch)
    );
}

#[test]
fn quote_and_certificate_checks() {
    assert!(verify_attestation_quote(&DEVICE, &quote(1), &MAKER_KEY));
    assert!(!verify_attestation_quote(&DEVICE, &quote(0), &MAKER_KEY));
    assert!(verify_device_certificate(&[1u8; 1024], &MAKER_KEY));
    let mut cert = [0u8; 1024];
    assert!(!verify_device_certificate(&cert, &MAKER_KEY));
    cert[1023] = 1;
    assert!(verify_device_certificate(&cert, &MAKER_KEY));
    assert!(!verify_device_certificate(&cert, &[0u8; 32]));
}

#[test]
fn refresh_near_time_limit_overflows() {
    let mut reg = registry_with_maker();
    let created = i64::MAX - ATTESTATION_VALIDITY;
    create_attestation(&mut reg, DEVICE, MAKER, quote(1), [9u8; 1024], created).unwrap();
    assert_eq!(reg.attestation(&DEVICE).unwrap().expires_at, i64::MAX);
    let r = refresh_attestation(&mut reg, DEVICE, quote(2), created + 1);
    assert_eq!(r, Err(AttestationError::ArithmeticOverflow));
    assert_eq!(reg.attestation(&DEVICE).unwrap().attestation_quote.version, 1);
}
