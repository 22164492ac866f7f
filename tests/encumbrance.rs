use sha2::{Digest, Sha256};
use shift::encumbrance::{
    create_destruction_proof, encumber_key, initialize, initialize_key_pool, replenish_key_pool,
    verify_destruction_proof, verify_encumbrance, EncumbranceError, EncumbranceLedger,
    EncumbranceStatus, KeyDestructionProof, ProofType, MAX_POOL_KEYS,
};

const AUTHORITY: [u8; 32] = [1u8; 32];
const OWNER: [u8; 32] = [2u8; 32];
const DEVICE: [u8; 32] = [4u8; 32];
const K0: [u8; 32] = [10u8; 32];
const K1: [u8; 32] = [11u8; 32];
const H1: [u8; 32] = [20u8; 32];
const H2: [u8; 32] = [21u8; 32];
const T0: i64 = 1_700_000_000;

fn valid_proof() -> KeyDestructionProof {
    let mut proof = create_destruction_proof(DEVICE, [30u8; 32], K0, [31u8; 32], T0);
    proof.hardware_signature = [32u8; 64];
    proof
}

fn ledger_with_pool() -> EncumbranceLedger {
    let mut ledger = initialize(AUTHORITY);
    initialize_key_pool(&mut ledger, OWNER, DEVICE, 2, vec![K0, K1], T0).unwrap();
    ledger
}

fn sha(parts: &[&[u8]]) -> [u8; 32] {
    let mut h = Sha256::new();
    for p in parts {
        h.update(p);
    }
    h.finalize().into()
}

#[test]
fn ledger_starts_empty() {
    let ledger = initialize(AUTHORITY);
    assert_eq!(ledger.authority().authority, AUTHORITY);
    assert_eq!(ledger.authority().total_devices, 0);
    assert_eq!(ledger.authority().total_encumbered_keys, 0);
    assert!(ledger.pool(&DEVICE).is_none());
}

#[test]
fn pool_is_created_with_all_keys_available() {
    let ledger = ledger_with_pool();
    let pool = ledger.pool(&DEVICE).unwrap();
    assert_eq!(pool.device_id, DEVICE);
    assert_eq!(pool.owner, OWNER);
    assert_eq!(pool.total_keys, 2);
    assert_eq!(pool.available_keys, 2);
    assert_eq!(pool.used_keys, 0);
    assert_eq!(pool.public_keys, vec![K0, K1]);
    assert!(pool.encumbered_keys.is_empty());
    assert_eq!(pool.created_at, T0);
    assert_eq!(ledger.authority().total_devices, 1);
}

#[test]
fn encumbrance_scenario() {
    let mut ledger = ledger_with_pool();
    assert_eq!(encumber_key(&mut ledger, OWNER, DEVICE, 0, K0, valid_proof(), H1, T0 + 1), Ok(()));
    assert_eq!(verify_encumbrance(&ledger, DEVICE, 0, H1), Ok(true));
    assert_eq!(verify_encumbrance(&ledger, DEVICE, 0, H2), Err(EncumbranceError::TransactionHashMismatch));
    assert_eq!(
        encumber_key(&mut ledger, OWNER, DEVICE, 0, K0, valid_proof(), H1, T0 + 2),
        Err(EncumbranceError::KeyAlreadyEncumbered)
    );
    let pool = ledger.pool(&DEVICE).unwrap();
    assert_eq!(pool.used_keys, 1);
    assert_eq!(pool.available_keys, 1);
    assert_eq!(pool.encumbered_keys, vec![0]);
    let rec = ledger.encumbrance(&DEVICE, 0).unwrap();
    assert_eq!(rec.public_key, K0);
    assert_eq!(rec.transaction_hash, H1);
    assert_eq!(rec.encumbered_at, T0 + 1);
    assert_eq!(rec.status, EncumbranceStatus::Encumbered);
    assert_eq!(ledger.authority().total_encumbered_keys, 1);
}

#[test]
fn key_is_consumed_at_most_once() {
    let mut ledger = ledger_with_pool();
    encumber_key(&mut ledger, OWNER, DEVICE, 1, K1, valid_proof(), H1, T0).unwrap();
    let mut other = valid_proof();
    other.nonce = [99u8; 32];
    assert_eq!(
        encumber_key(&mut ledger, OWNER, DEVICE, 1, K1, other, H2, T0 + 5),
        Err(EncumbranceError::KeyAlreadyEncumbered)
    );
    assert_eq!(
        encumber_key(&mut ledger, OWNER, DEVICE, 1, K0, other, H2, T0 + 5),
        Err(EncumbranceError::KeyMismatch)
    );
    assert_eq!(verify_encumbrance(&ledger, DEVICE, 1, H1), Ok(true));
    assert_eq!(ledger.pool(&DEVICE).unwrap().used_keys, 1);
}

#[test]
fn replenish_scenario() {
    let mut ledger = ledger_with_pool();
    encumber_key(&mut ledger, OWNER, DEVICE, 0, K0, valid_proof(), H1, T0).unwrap();
    let new_keys = vec![[12u8; 32], [13u8; 32], [14u8; 32]];
    assert_eq!(replenish_key_pool(&mut ledger, OWNER, DEVICE, new_keys), Ok(()));
    let pool = ledger.pool(&DEVICE).unwrap();
    assert_eq!(pool.total_keys, 5);
    assert_eq!(pool.available_keys, 4);
    assert_eq!(pool.used_keys, 1);
    assert_eq!(pool.encumbered_keys, vec![0]);
    assert_eq!(pool.public_keys, vec![K0, K1, [12u8; 32], [13u8; 32], [14u8; 32]]);
    assert_eq!(verify_encumbrance(&ledger, DEVICE, 0, H1), Ok(true));
    assert_eq!(
        encumber_key(&mut ledger, OWNER, DEVICE, 4, [14u8; 32], valid_proof(), H2, T0),
        Ok(())
    );
}

#[test]
fn pool_balance_holds_after_each_operation() {
    let mut ledger = ledger_with_pool();
    let check = |l: &EncumbranceLedger| {
        let p = l.pool(&DEVICE).unwrap();
        assert_eq!(p.available_keys + p.used_keys, p.total_keys);
    };
    check(&ledger);
    encumber_key(&mut ledger, OWNER, DEVICE, 0, K0, valid_proof(), H1, T0).unwrap();
    check(&ledger);
    replenish_key_pool(&mut ledger, OWNER, DEVICE, vec![[12u8; 32]]).unwrap();
    check(&ledger);
    encumber_key(&mut ledger, OWNER, DEVICE, 2, [12u8; 32], valid_proof(), H1, T0).unwrap();
    check(&ledger);
    assert_eq!(ledger.pool(&DEVICE).unwrap().used_keys, 2);
}

#[test]
fn partly_filled_pool_counts_inserted_keys() {
    let mut ledger = initialize(AUTHORITY);
    initialize_key_pool(&mut ledger, OWNER, DEVICE, 5, vec![K0, K1], T0).unwrap();
    let p = ledger.pool(&DEVICE).unwrap();
    assert_eq!(p.total_keys, 5);
    assert_eq!(p.available_keys + p.used_keys, 2);
}

#[test]
fn pool_creation_errors() {
    let mut ledger = ledger_with_pool();
    assert_eq!(
        initialize_key_pool(&mut ledger, OWNER, DEVICE, 3, vec![K0], T0),
        Err(EncumbranceError::AlreadyExists)
    );
    assert_eq!(
        initialize_key_pool(&mut ledger, OWNER, [5u8; 32], 1, vec![K0, K1], T0),
        Err(EncumbranceError::InvalidPoolSize)
    );
    assert_eq!(
        initialize_key_pool(&mut ledger, OWNER, [5u8; 32], MAX_POOL_KEYS + 1, vec![K0], T0),
        Err(EncumbranceError::PoolCapacityExceeded)
    );
    assert!(ledger.pool(&[5u8; 32]).is_none());
    assert_eq!(ledger.authority().total_devices, 1);
    assert_eq!(
        initialize_key_pool(&mut ledger, OWNER, [5u8; 32], MAX_POOL_KEYS, Vec::new(), T0),
        Ok(())
    );
}

#[test]
fn replenish_errors() {
    let mut ledger = ledger_with_pool();
    assert_eq!(
        replenish_key_pool(&mut ledger, OWNER, [5u8; 32], vec![K0]),
        Err(EncumbranceError::DeviceIdMismatch)
    );
    assert_eq!(
        replenish_key_pool(&mut ledger, AUTHORITY, DEVICE, vec![K0]),
        Err(EncumbranceError::UnauthorizedOwner)
    );
    let too_many = vec![[12u8; 32]; (MAX_POOL_KEYS - 1) as usize];
    assert_eq!(
        replenish_key_pool(&mut ledger, OWNER, DEVICE, too_many),
        Err(EncumbranceError::PoolCapacityExceeded)
    );
    let just_enough = vec![[12u8; 32]; (MAX_POOL_KEYS - 2) as usize];
    assert_eq!(replenish_key_pool(&mut ledger, OWNER, DEVICE, just_enough), Ok(()));
    assert_eq!(ledger.pool(&DEVICE).unwrap().total_keys, MAX_POOL_KEYS);
}

#[test]
fn encumber_errors() {
    let mut ledger = ledger_with_pool();
    assert_eq!(
        encumber_key(&mut ledger, OWNER, [5u8; 32], 0, K0, valid_proof(), H1, T0),
        Err(EncumbranceError::DeviceIdMismatch)
    );
    assert_eq!(
        encumber_key(&mut ledger, AUTHORITY, DEVICE, 0, K0, valid_proof(), H1, T0),
        Err(EncumbranceError::UnauthorizedOwner)
    );
    assert_eq!(
        encumber_key(&mut ledger, OWNER, DEVICE, 2, K0, valid_proof(), H1, T0),
        Err(EncumbranceError::InvalidKeyIndex)
    );
    assert_eq!(
        encumber_key(&mut ledger, OWNER, DEVICE, 0, K1, valid_proof(), H1, T0),
        Err(EncumbranceError::KeyMismatch)
    );
    assert_eq!(ledger.pool(&DEVICE).unwrap().used_keys, 0);
    assert!(ledger.encumbrance(&DEVICE, 0).is_none());
}

#[test]
fn invalid_destruction_proofs_are_rejected() {
    let mut bad = Vec::new();
    let mut p = valid_proof();
    p.timestamp = 0;
    bad.push(p);
    let mut p = valid_proof();
    p.nonce = [0u8; 32];
    bad.push(p);
    let mut p = valid_proof();
    p.proof_data = [0u8; 256];
    bad.push(p);
    let mut p = valid_proof();
    p.hardware_signature = [0u8; 64];
    bad.push(p);
    for p in bad {
        let mut ledger = ledger_with_pool();
        assert!(!verify_destruction_proof(&p, &K0, &H1));
        assert_eq!(
            encumber_key(&mut ledger, OWNER, DEVICE, 0, K0, p, H1, T0),
            Err(EncumbranceError::InvalidDestructionProof)
        );
    }
    assert!(verify_destruction_proof(&valid_proof(), &K0, &H1));
}

#[test]
fn unconsumed_key_is_not_encumbered() {
    let ledger = ledger_with_pool();
    assert_eq!(verify_encumbrance(&ledger, DEVICE, 1, H1), Err(EncumbranceError::KeyNotEncumbered));
    assert_eq!(verify_encumbrance(&ledger, [5u8; 32], 0, H1), Err(EncumbranceError::KeyNotEncumbered));
}

#[test]
fn destruction_proof_is_deterministic_and_chained() {
    let device = [1u8; 32];
    let pkh = [2u8; 32];
    let pk = [3u8; 32];
    let nonce = [4u8; 32];
    let proof = create_destruction_proof(device, pkh, pk, nonce, 77);
    assert_eq!(proof.proof_type, ProofType::ZeroKnowledge);
    assert_eq!(proof.timestamp, 77);
    assert_eq!(proof.nonce, nonce);
    assert_eq!(proof.hardware_signature, [0u8; 64]);
    let seed = sha(&[&device, &pkh, &pk, &nonce, b"SHIFT_KEY_DESTRUCTION_PROOF"]);
    for i in 0..8u64 {
        let block = sha(&[&seed, &i.to_le_bytes()]);
        assert_eq!(&proof.proof_data[32 * i as usize..32 * (i as usize + 1)], &block[..]);
    }
    let again = create_destruction_proof(device, pkh, pk, nonce, 78);
    assert_eq!(again.proof_data, proof.proof_data);
    let other = create_destruction_proof(device, pkh, pk, [5u8; 32], 77);
    assert_ne!(other.proof_data, proof.proof_data);
    // The hardware signature is left for the device to fill in.
    assert!(!verify_destruction_proof(&proof, &pk, &H1));
}
