//! Per-device pools of one-time keys and the ledger of consumed keys.
use vstd::prelude::*;
use vstd::set_lib::{lemma_int_range, lemma_len_subset, set_int_range};

use crate::bytes::{all_zero, is_all_zero, same_id};
use crate::digest::{create_destruction_proof_data, destruction_payload};
use crate::table::{has_key, keyed, keys_unique, lemma_keyed_at, lemma_keyed_push, lemma_keyed_update};

verus! {

/// The largest number of keys a pool may be declared to hold.
pub const MAX_POOL_KEYS: u32 = 1000;

/// The ledger's own account: its authority and its running counts.
#[derive(Clone, Copy)]
pub struct EncumbranceAuthority {
    pub authority: [u8; 32],
    pub total_encumbered_keys: u64,
    pub total_devices: u64,
}

/// The one-time keys of one device. `public_keys` is indexed by position of
/// insertion; `encumbered_keys` lists the consumed indices in order of consumption.
pub struct KeyPool {
    pub device_id: [u8; 32],
    pub owner: [u8; 32],
    pub total_keys: u32,
    pub available_keys: u32,
    pub used_keys: u32,
    pub public_keys: Vec<[u8; 32]>,
    pub encumbered_keys: Vec<u32>,
    pub created_at: i64,
}

/// A key pool as a mathematical value.
pub struct KeyPoolView {
    pub device_id: [u8; 32],
    pub owner: [u8; 32],
    pub total_keys: u32,
    pub available_keys: u32,
    pub used_keys: u32,
    pub public_keys: Seq<[u8; 32]>,
    pub encumbered_keys: Seq<u32>,
    pub created_at: i64,
}

impl View for KeyPool {
    type V = KeyPoolView;

    open spec fn view(&self) -> KeyPoolView {
        KeyPoolView {
            device_id: self.device_id,
            owner: self.owner,
            total_keys: self.total_keys,
            available_keys: self.available_keys,
            used_keys: self.used_keys,
            public_keys: self.public_keys@,
            encumbered_keys: self.encumbered_keys@,
            created_at: self.created_at,
        }
    }
}

/// How a destruction proof was produced.
#[derive(Clone, Copy, Debug, PartialEq, Eq, Structural)]
pub enum ProofType {
    ZeroKnowledge,
    HardwareAttestation,
    CryptographicCommitment,
}

/// Evidence that the private key of a consumed one-time key was destroyed.
#[derive(Clone, Copy)]
pub struct KeyDestructionProof {
    pub proof_type: ProofType,
    pub proof_data: [u8; 256],
    pub timestamp: i64,
    pub nonce: [u8; 32],
    pub hardware_signature: [u8; 64],
}

/// The status of a consumed key. Only `Encumbered` is set here; the other values
/// are left to dispute handling.
#[derive(Clone, Copy, Debug, PartialEq, Eq, Structural)]
pub enum EncumbranceStatus {
    Encumbered,
    Verified,
    Disputed,
}

/// The record of one consumed key: the key, the transaction it authorised and the
/// proof that its private key was destroyed.
#[derive(Clone, Copy)]
pub struct EncumbranceRecord {
    pub device_id: [u8; 32],
    pub key_index: u32,
    pub public_key: [u8; 32],
    pub transaction_hash: [u8; 32],
    pub destruction_proof: KeyDestructionProof,
    pub encumbered_at: i64,
    pub status: EncumbranceStatus,
}

/// Why an operation of the key pools or the ledger was refused.
#[derive(Clone, Copy, Debug, PartialEq, Eq, Structural)]
pub enum EncumbranceError {
    /// More initial keys than the declared pool size.
    InvalidPoolSize,
    /// No key pool exists for the given device.
    DeviceIdMismatch,
    /// The key index is not a position of the pool's key list.
    InvalidKeyIndex,
    /// The pool holds another key at that index.
    KeyMismatch,
    /// The key at that index was already consumed.
    KeyAlreadyEncumbered,
    /// The destruction proof fails the validity checks.
    InvalidDestructionProof,
    /// The stored record names another transaction.
    TransactionHashMismatch,
    /// No record shows the key as consumed.
    KeyNotEncumbered,
    /// The caller does not own the pool.
    UnauthorizedOwner,
    /// A pool for the device, or a record for the key, already exists.
    AlreadyExists,
    /// The pool would be declared larger than `MAX_POOL_KEYS`.
    PoolCapacityExceeded,
    /// A ledger counter would leave its integer range.
    ArithmeticOverflow,
}

/// Pools are looked up by device identifier.
pub open spec fn pool_key() -> spec_fn(KeyPoolView) -> [u8; 32] {
    |p: KeyPoolView| p.device_id
}

/// Consumption records are looked up by device identifier and key index.
pub open spec fn record_key() -> spec_fn(EncumbranceRecord) -> ([u8; 32], u32) {
    |r: EncumbranceRecord| (r.device_id, r.key_index)
}

/// The bookkeeping of a pool: the declared size bounds the inserted keys and
/// `MAX_POOL_KEYS` bounds the size, every inserted key is either available or used,
/// and the consumed indices are distinct positions of the key list, one per use.
pub open spec fn pool_wf(p: KeyPoolView) -> bool {
    &&& p.public_keys.len() <= p.total_keys <= MAX_POOL_KEYS
    &&& p.available_keys + p.used_keys == p.public_keys.len()
    &&& p.used_keys == p.encumbered_keys.len()
    &&& p.encumbered_keys.no_duplicates()
    &&& forall|k: int|
        0 <= k < p.encumbered_keys.len() ==> #[trigger] p.encumbered_keys[k] < p.public_keys.len()
}

/// The checks on a destruction proof: a positive timestamp, and a nonce, a payload
/// and a hardware signature that are not all zero. They stand in for a proof check
/// against the public key and the transaction hash.
pub open spec fn destruction_proof_valid(proof: KeyDestructionProof) -> bool {
    &&& proof.timestamp > 0
    &&& !all_zero(proof.nonce@)
    &&& !all_zero(proof.proof_data@)
    &&& !all_zero(proof.hardware_signature@)
}

/// Every pool of `before` is still in `after`, with its consumed indices kept in
/// order, its used count not lower, and the same gap between its declared size and
/// the number of keys inserted.
pub open spec fn pools_evolve(
    before: Map<[u8; 32], KeyPoolView>,
    after: Map<[u8; 32], KeyPoolView>,
) -> bool {
    forall|d: [u8; 32]| #[trigger]
        before.contains_key(d) ==> {
            &&& after.contains_key(d)
            &&& before[d].encumbered_keys.is_prefix_of(after[d].encumbered_keys)
            &&& before[d].used_keys <= after[d].used_keys
            &&& after[d].total_keys - after[d].public_keys.len() == before[d].total_keys
                - before[d].public_keys.len()
        }
}

/// Distinct integers below `n` number at most `n`.
proof fn lemma_distinct_below(s: Seq<u32>, n: int)
    requires
        0 <= n,
        s.no_duplicates(),
        forall|k: int| 0 <= k < s.len() ==> s[k] < n,
    ensures
        s.len() <= n,
{
    let t = s.map_values(|x: u32| x as int);
    assert forall|i: int, j: int| 0 <= i < t.len() && 0 <= j < t.len() && i != j implies t[i]
        != t[j] by {
        assert(s[i] != s[j]);
    }
    t.unique_seq_to_set();
    assert forall|x: int| t.to_set().contains(x) implies set_int_range(0, n).contains(x) by {
        let k = choose|k: int| 0 <= k < t.len() && t[k] == x;
        assert(s[k] < n);
    }
    lemma_int_range(0, n);
    lemma_len_subset(t.to_set(), set_int_range(0, n));
}

/// The key pools of all devices, the records of consumed keys, and the ledger's counts.
pub struct EncumbranceLedger {
    authority: EncumbranceAuthority,
    pools: Vec<KeyPool>,
    records: Vec<EncumbranceRecord>,
}

impl EncumbranceLedger {
    spec fn pool_views(&self) -> Seq<KeyPoolView> {
        self.pools@.map_values(|p: KeyPool| p@)
    }

    /// The ledger's own account.
    pub closed spec fn spec_authority(&self) -> EncumbranceAuthority {
        self.authority
    }

    /// The key pools, by device identifier.
    pub closed spec fn pools(&self) -> Map<[u8; 32], KeyPoolView> {
        keyed(self.pool_views(), pool_key())
    }

    /// The records of consumed keys, by device identifier and key index.
    pub closed spec fn encumbrances(&self) -> Map<([u8; 32], u32), EncumbranceRecord> {
        keyed(self.records@, record_key())
    }

    /// Well-formedness: pools and records are unique per key, every pool keeps its
    /// bookkeeping, and the counts equal the numbers of pools and of records.
    pub closed spec fn wf(&self) -> bool {
        &&& keys_unique(self.pool_views(), pool_key())
        &&& keys_unique(self.records@, record_key())
        &&& forall|i: int| 0 <= i < self.pools@.len() ==> pool_wf(#[trigger] self.pools@[i]@)
        &&& self.authority.total_devices == self.pools@.len()
        &&& self.authority.total_encumbered_keys == self.records@.len()
        &&& self.consumed_iff_recorded()
    }

    /// The two guards against reuse agree: a record exists for a device and key
    /// index exactly when the device's pool lists that index as consumed.
    pub closed spec fn consumed_iff_recorded(&self) -> bool {
        forall|d: [u8; 32], i: u32|
            #![trigger self.encumbrances().contains_key((d, i))]
            #![trigger self.pools()[d].encumbered_keys.contains(i)]
            self.encumbrances().contains_key((d, i)) <==> self.pools().contains_key(d)
                && self.pools()[d].encumbered_keys.contains(i)
    }

    /// The ledger's own account.
    pub fn authority(&self) -> (r: &EncumbranceAuthority)
        ensures
            *r == self.spec_authority(),
    {
        &self.authority
    }

    /// The key pool of device `device_id`, if it has one.
    pub fn pool(&self, device_id: &[u8; 32]) -> (r: Option<&KeyPool>)
        requires
            self.wf(),
        ensures
            match r {
                Some(p) => self.pools().contains_key(*device_id) && p@ == self.pools()[*device_id],
                None => !self.pools().contains_key(*device_id),
            },
    {
        match self.find_pool(device_id) {
            Some(i) => {
                proof {
                    lemma_keyed_at(self.pool_views(), pool_key(), i as int);
                }
                Some(&self.pools[i])
            },
            None => None,
        }
    }

    /// The record of key `key_index` of device `device_id`, if that key was consumed.
    pub fn encumbrance(&self, device_id: &[u8; 32], key_index: u32) -> (r: Option<&EncumbranceRecord>)
        requires
            self.wf(),
        ensures
            match r {
                Some(e) => self.encumbrances().contains_key((*device_id, key_index)) && *e
                    == self.encumbrances()[(*device_id, key_index)],
                None => !self.encumbrances().contains_key((*device_id, key_index)),
            },
    {
        match self.find_record(device_id, key_index) {
            Some(i) => {
                proof {
                    lemma_keyed_at(self.records@, record_key(), i as int);
                }
                Some(&self.records[i])
            },
            None => None,
        }
    }

    /// Position of the pool of device `id`.
    fn find_pool(&self, id: &[u8; 32]) -> (r: Option<usize>)
        ensures
            match r {
                Some(i) => i < self.pools@.len() && self.pools@[i as int].device_id == *id,
                None => !has_key(self.pool_views(), pool_key(), *id),
            },
    {
        let mut i: usize = 0;
        while i < self.pools.len()
            invariant
                0 <= i <= self.pools@.len(),
                forall|k: int| 0 <= k < i ==> self.pools@[k].device_id != *id,
            decreases self.pools@.len() - i,
        {
            if same_id(&self.pools[i].device_id, id) {
                return Some(i);
            }
            i = i + 1;
        }
        None
    }

    /// Position of the record of key `key_index` of device `id`.
    fn find_record(&self, id: &[u8; 32], key_index: u32) -> (r: Option<usize>)
        ensures
            match r {
                Some(i) => i < self.records@.len() && self.records@[i as int].device_id == *id
                    && self.records@[i as int].key_index == key_index,
                None => !has_key(self.records@, record_key(), (*id, key_index)),
            },
    {
        let mut i: usize = 0;
        while i < self.records.len()
            invariant
                0 <= i <= self.records@.len(),
                forall|k: int|
                    0 <= k < i ==> (self.records@[k].device_id, self.records@[k].key_index) != (
                        *id,
                        key_index,
                    ),
            decreases self.records@.len() - i,
        {
            if same_id(&self.records[i].device_id, id) && self.records[i].key_index == key_index {
                return Some(i);
            }
            i = i + 1;
        }
        None
    }
}

/// Creates an empty ledger whose authority is `authority`.
pub fn initialize(authority: [u8; 32]) -> (r: EncumbranceLedger)
    ensures
        r.wf(),
        r.spec_authority().authority == authority,
        r.spec_authority().total_encumbered_keys == 0,
        r.spec_authority().total_devices == 0,
        r.pools() == Map::<[u8; 32], KeyPoolView>::empty(),
        r.encumbrances() == Map::<([u8; 32], u32), EncumbranceRecord>::empty(),
{
    let r = EncumbranceLedger {
        authority: EncumbranceAuthority { authority, total_encumbered_keys: 0, total_devices: 0 },
        pools: Vec::new(),
        records: Vec::new(),
    };
    assert(r.pools() =~= Map::<[u8; 32], KeyPoolView>::empty());
    assert(r.encumbrances() =~= Map::<([u8; 32], u32), EncumbranceRecord>::empty());
    r
}

/// Whether `v` holds `x`.
fn contains_index(v: &Vec<u32>, x: u32) -> (r: bool)
    ensures
        r == v@.contains(x),
{
    let mut i: usize = 0;
    while i < v.len()
        invariant
            0 <= i <= v@.len(),
            forall|k: int| 0 <= k < i ==> v@[k] != x,
        decreases v@.len() - i,
    {
        if v[i] == x {
            return true;
        }
        i = i + 1;
    }
    false
}

/// Appends the keys of `src` to `dst`.
fn append_keys(dst: &mut Vec<[u8; 32]>, src: &Vec<[u8; 32]>)
    ensures
        final(dst)@ == old(dst)@ + src@,
{
    let ghost start = dst@;
    let mut i: usize = 0;
    while i < src.len()
        invariant
            0 <= i <= src@.len(),
            dst@ == start + src@.subrange(0, i as int),
        decreases src@.len() - i,
    {
        dst.push(src[i]);
        i = i + 1;
        assert(dst@ =~= start + src@.subrange(0, i as int));
    }
    assert(src@.subrange(0, src@.len() as int) =~= src@);
}

/// The destruction-proof checks.
#[allow(unused_variables)]
pub fn verify_destruction_proof(
    proof: &KeyDestructionProof,
    public_key: &[u8; 32],
    transaction_hash: &[u8; 32],
) -> (r: bool)
    ensures
        r == destruction_proof_valid(*proof),
{
    proof.timestamp > 0 && !is_all_zero(&proof.nonce) && !is_all_zero(&proof.proof_data)
        && !is_all_zero(&proof.hardware_signature)
}

/// What consuming key `key_index` of `device_id` yields, by the order of the checks.
pub open spec fn encumber_outcome(
    ledger: EncumbranceLedger,
    caller: [u8; 32],
    device_id: [u8; 32],
    key_index: u32,
    public_key: [u8; 32],
    destruction_proof: KeyDestructionProof,
) -> Result<(), EncumbranceError> {
    let p = ledger.pools()[device_id];
    if !ledger.pools().contains_key(device_id) {
        Err(EncumbranceError::DeviceIdMismatch)
    } else if caller != p.owner {
        Err(EncumbranceError::UnauthorizedOwner)
    } else if key_index >= p.public_keys.len() {
        Err(EncumbranceError::InvalidKeyIndex)
    } else if p.public_keys[key_index as int] != public_key {
        Err(EncumbranceError::KeyMismatch)
    } else if p.encumbered_keys.contains(key_index) {
        Err(EncumbranceError::KeyAlreadyEncumbered)
    } else if !destruction_proof_valid(destruction_proof) {
        Err(EncumbranceError::InvalidDestructionProof)
    } else if ledger.encumbrances().contains_key((device_id, key_index)) {
        Err(EncumbranceError::AlreadyExists)
    } else if ledger.spec_authority().total_encumbered_keys == u64::MAX {
        Err(EncumbranceError::ArithmeticOverflow)
    } else {
        Ok(())
    }
}

/// Consumes one-time key `key_index` of a device for the transaction
/// `transaction_hash`, with a proof that its private key was destroyed.
///
/// The checks, in order: the pool exists (`DeviceIdMismatch`) and belongs to the
/// caller (`UnauthorizedOwner`), the index is a position of its key list
/// (`InvalidKeyIndex`) holding `public_key` (`KeyMismatch`), the index is not in the
/// pool's consumed set (`KeyAlreadyEncumbered`), the proof passes its checks
/// (`InvalidDestructionProof`), no record exists yet for the pair (`AlreadyExists`),
/// and the ledger's count can grow (`ArithmeticOverflow`). On success the record is
/// created with status `Encumbered`, the index joins the consumed set, the pool's
/// used count grows by one and its available count shrinks by one.
pub fn encumber_key(
    ledger: &mut EncumbranceLedger,
    caller: [u8; 32],
    device_id: [u8; 32],
    key_index: u32,
    public_key: [u8; 32],
    destruction_proof: KeyDestructionProof,
    transaction_hash: [u8; 32],
    now: i64,
) -> (r: Result<(), EncumbranceError>)
    requires
        old(ledger).wf(),
    ensures
        final(ledger).wf(),
        pools_evolve(old(ledger).pools(), final(ledger).pools()),
        old(ledger).encumbrances().submap_of(final(ledger).encumbrances()),
        r == encumber_outcome(*old(ledger), caller, device_id, key_index, public_key, destruction_proof),
        r is Err ==> *final(ledger) == *old(ledger),
        r is Ok ==> {
            let p = old(ledger).pools()[device_id];
            &&& final(ledger).pools() == old(ledger).pools().insert(
                device_id,
                KeyPoolView {
                    available_keys: (p.available_keys - 1) as u32,
                    used_keys: (p.used_keys + 1) as u32,
                    encumbered_keys: p.encumbered_keys.push(key_index),
                    ..p
                },
            )
            &&& final(ledger).encumbrances() == old(ledger).encumbrances().insert(
                (device_id, key_index),
                EncumbranceRecord {
                    device_id,
                    key_index,
                    public_key,
                    transaction_hash,
                    destruction_proof,
                    encumbered_at: now,
                    status: EncumbranceStatus::Encumbered,
                },
            )
            &&& final(ledger).spec_authority() == EncumbranceAuthority {
                total_encumbered_keys: (old(ledger).spec_authority().total_encumbered_keys + 1) as u64,
                ..old(ledger).spec_authority()
            }
        },
{
    let pi = match ledger.find_pool(&device_id) {
        Some(pi) => pi,
        None => {
            return Err(EncumbranceError::DeviceIdMismatch);
        },
    };
    proof {
        lemma_keyed_at(ledger.pool_views(), pool_key(), pi as int);
    }
    if !same_id(&caller, &ledger.pools[pi].owner) {
        return Err(EncumbranceError::UnauthorizedOwner);
    }
    if key_index as usize >= ledger.pools[pi].public_keys.len() {
        return Err(EncumbranceError::InvalidKeyIndex);
    }
    if !same_id(&ledger.pools[pi].public_keys[key_index as usize], &public_key) {
        return Err(EncumbranceError::KeyMismatch);
    }
    if contains_index(&ledger.pools[pi].encumbered_keys, key_index) {
        return Err(EncumbranceError::KeyAlreadyEncumbered);
    }
    if !verify_destruction_proof(&destruction_proof, &public_key, &transaction_hash) {
        return Err(EncumbranceError::InvalidDestructionProof);
    }
    if ledger.find_record(&device_id, key_index).is_some() {
        return Err(EncumbranceError::AlreadyExists);
    }
    if ledger.authority.total_encumbered_keys == u64::MAX {
        return Err(EncumbranceError::ArithmeticOverflow);
    }
    let ghost old_ledger = *ledger;
    let ghost old_pool = ledger.pools@[pi as int]@;
    proof {
        assert(pool_wf(old_pool));
        let grown = old_pool.encumbered_keys.push(key_index);
        assert forall|k: int| 0 <= k < grown.len() implies grown[k] < old_pool.public_keys.len() by {
            if k < old_pool.encumbered_keys.len() {
                assert(old_pool.encumbered_keys[k] < old_pool.public_keys.len());
            }
        }
        assert forall|a: int, b: int| 0 <= a < b < grown.len() implies grown[a] != grown[b] by {
            if b == old_pool.encumbered_keys.len() {
                assert(old_pool.encumbered_keys[a] == grown[a]);
            }
        }
        lemma_distinct_below(grown, old_pool.public_keys.len() as int);
    }
    let record = EncumbranceRecord {
        device_id,
        key_index,
        public_key,
        transaction_hash,
        destruction_proof,
        encumbered_at: now,
        status: EncumbranceStatus::Encumbered,
    };
    proof {
        lemma_keyed_push(old_ledger.records@, record_key(), record);
    }
    ledger.records.push(record);
    ledger.authority.total_encumbered_keys = ledger.authority.total_encumbered_keys + 1;
    ledger.pools[pi].encumbered_keys.push(key_index);
    let used = ledger.pools[pi].used_keys;
    ledger.pools[pi].used_keys = used + 1;
    let available = ledger.pools[pi].available_keys;
    ledger.pools[pi].available_keys = available - 1;
    proof {
        let views = ledger.pool_views();
        assert(views =~= old_ledger.pool_views().update(pi as int, views[pi as int]));
        lemma_keyed_update(old_ledger.pool_views(), pool_key(), pi as int, views[pi as int]);
        assert forall|k: int| 0 <= k < ledger.pools@.len() implies pool_wf(#[trigger] ledger.pools@[k]@) by {
            if k != pi as int {
                assert(ledger.pools@[k] == old_ledger.pools@[k]);
            }
        }
        lemma_keyed_at(old_ledger.pool_views(), pool_key(), pi as int);
        let old_p = old_ledger.pools()[device_id];
        assert(ledger.pools()[device_id].encumbered_keys == old_p.encumbered_keys.push(key_index));
        assert forall|d: [u8; 32], i: u32| #![auto]
            ledger.encumbrances().contains_key((d, i)) <==> ledger.pools().contains_key(d)
                && ledger.pools()[d].encumbered_keys.contains(i) by {
            assert(old_ledger.encumbrances().contains_key((d, i)) <==> old_ledger.pools().contains_key(d)
                && old_ledger.pools()[d].encumbered_keys.contains(i));
            if d == device_id {
                let e = ledger.pools()[d].encumbered_keys;
                if i == key_index {
                    assert(e[e.len() - 1] == i);
                } else if old_p.encumbered_keys.contains(i) {
                    let k = choose|k: int| 0 <= k < old_p.encumbered_keys.len() && old_p.encumbered_keys[k] == i;
                    assert(e[k] == i);
                } else if e.contains(i) {
                    let k = choose|k: int| 0 <= k < e.len() && e[k] == i;
                    assert(old_p.encumbered_keys[k] == i);
                }
            }
        }
    }
    Ok(())
}

/// What creating the pool of `device_id` yields, by the order of the checks.
pub open spec fn initialize_pool_outcome(
    ledger: EncumbranceLedger,
    device_id: [u8; 32],
    initial_pool_size: u32,
    key_count: nat,
) -> Result<(), EncumbranceError> {
    if ledger.pools().contains_key(device_id) {
        Err(EncumbranceError::AlreadyExists)
    } else if key_count > initial_pool_size {
        Err(EncumbranceError::InvalidPoolSize)
    } else if initial_pool_size > MAX_POOL_KEYS {
        Err(EncumbranceError::PoolCapacityExceeded)
    } else if ledger.spec_authority().total_devices == u64::MAX {
        Err(EncumbranceError::ArithmeticOverflow)
    } else {
        Ok(())
    }
}

/// Creates the key pool of a device, owned by `owner`, declared to hold
/// `initial_pool_size` keys and holding `public_keys` for now, all available.
///
/// Refused when the device already has a pool (`AlreadyExists`), when there are
/// more keys than the declared size (`InvalidPoolSize`), when the declared size is
/// above `MAX_POOL_KEYS` (`PoolCapacityExceeded`), or when the ledger's device
/// count cannot grow (`ArithmeticOverflow`).
pub fn initialize_key_pool(
    ledger: &mut EncumbranceLedger,
    owner: [u8; 32],
    device_id: [u8; 32],
    initial_pool_size: u32,
    public_keys: Vec<[u8; 32]>,
    now: i64,
) -> (r: Result<(), EncumbranceError>)
    requires
        old(ledger).wf(),
    ensures
        final(ledger).wf(),
        pools_evolve(old(ledger).pools(), final(ledger).pools()),
        old(ledger).encumbrances().submap_of(final(ledger).encumbrances()),
        r == initialize_pool_outcome(*old(ledger), device_id, initial_pool_size, public_keys@.len()),
        r is Err ==> *final(ledger) == *old(ledger),
        r is Ok ==> {
            &&& final(ledger).pools() == old(ledger).pools().insert(
                device_id,
                KeyPoolView {
                    device_id,
                    owner,
                    total_keys: initial_pool_size,
                    available_keys: public_keys@.len() as u32,
                    used_keys: 0,
                    public_keys: public_keys@,
                    encumbered_keys: Seq::empty(),
                    created_at: now,
                },
            )
            &&& final(ledger).encumbrances() == old(ledger).encumbrances()
            &&& final(ledger).spec_authority() == EncumbranceAuthority {
                total_devices: (old(ledger).spec_authority().total_devices + 1) as u64,
                ..old(ledger).spec_authority()
            }
        },
{
    match ledger.find_pool(&device_id) {
        Some(pi) => {
            proof {
                lemma_keyed_at(ledger.pool_views(), pool_key(), pi as int);
            }
            return Err(EncumbranceError::AlreadyExists);
        },
        None => {},
    }
    if public_keys.len() > initial_pool_size as usize {
        return Err(EncumbranceError::InvalidPoolSize);
    }
    if initial_pool_size > MAX_POOL_KEYS {
        return Err(EncumbranceError::PoolCapacityExceeded);
    }
    if ledger.authority.total_devices == u64::MAX {
        return Err(EncumbranceError::ArithmeticOverflow);
    }
    let ghost old_ledger = *ledger;
    let available = public_keys.len() as u32;
    let pool = KeyPool {
        device_id,
        owner,
        total_keys: initial_pool_size,
        available_keys: available,
        used_keys: 0,
        public_keys,
        encumbered_keys: Vec::new(),
        created_at: now,
    };
    proof {
        lemma_keyed_push(old_ledger.pool_views(), pool_key(), pool@);
    }
    ledger.pools.push(pool);
    ledger.authority.total_devices = ledger.authority.total_devices + 1;
    proof {
        assert(ledger.pool_views() =~= old_ledger.pool_views().push(pool@));
        assert forall|d: [u8; 32], i: u32| #![auto]
            ledger.encumbrances().contains_key((d, i)) <==> ledger.pools().contains_key(d)
                && ledger.pools()[d].encumbered_keys.contains(i) by {
            assert(old_ledger.encumbrances().contains_key((d, i)) <==> old_ledger.pools().contains_key(d)
                && old_ledger.pools()[d].encumbered_keys.contains(i));
            if d == device_id {
                assert(!old_ledger.pools().contains_key(d));
                assert(ledger.pools()[d].encumbered_keys =~= Seq::<u32>::empty());
            }
        }
        assert forall|k: int| 0 <= k < ledger.pools@.len() implies pool_wf(#[trigger] ledger.pools@[k]@) by {
            if k < old_ledger.pools@.len() {
                assert(ledger.pools@[k] == old_ledger.pools@[k]);
            }
        }
    }
    Ok(())
}

/// What adding `key_count` keys to the pool of `device_id` yields.
pub open spec fn replenish_outcome(
    ledger: EncumbranceLedger,
    caller: [u8; 32],
    device_id: [u8; 32],
    key_count: nat,
) -> Result<(), EncumbranceError> {
    let p = ledger.pools()[device_id];
    if !ledger.pools().contains_key(device_id) {
        Err(EncumbranceError::DeviceIdMismatch)
    } else if caller != p.owner {
        Err(EncumbranceError::UnauthorizedOwner)
    } else if p.total_keys + key_count > MAX_POOL_KEYS {
        Err(EncumbranceError::PoolCapacityExceeded)
    } else {
        Ok(())
    }
}

/// Appends keys to a device's pool; its declared size and its available count grow
/// by the number of new keys, and what was consumed stays as it was.
///
/// Refused when the device has no pool (`DeviceIdMismatch`), when the caller does
/// not own it (`UnauthorizedOwner`), or when the declared size would pass
/// `MAX_POOL_KEYS` (`PoolCapacityExceeded`).
pub fn replenish_key_pool(
    ledger: &mut EncumbranceLedger,
    caller: [u8; 32],
    device_id: [u8; 32],
    new_public_keys: Vec<[u8; 32]>,
) -> (r: Result<(), EncumbranceError>)
    requires
        old(ledger).wf(),
    ensures
        final(ledger).wf(),
        pools_evolve(old(ledger).pools(), final(ledger).pools()),
        old(ledger).encumbrances().submap_of(final(ledger).encumbrances()),
        r == replenish_outcome(*old(ledger), caller, device_id, new_public_keys@.len()),
        r is Err ==> *final(ledger) == *old(ledger),
        r is Ok ==> {
            let p = old(ledger).pools()[device_id];
            &&& final(ledger).pools() == old(ledger).pools().insert(
                device_id,
                KeyPoolView {
                    total_keys: (p.total_keys + new_public_keys@.len()) as u32,
                    available_keys: (p.available_keys + new_public_keys@.len()) as u32,
                    public_keys: p.public_keys + new_public_keys@,
                    ..p
                },
            )
            &&& final(ledger).encumbrances() == old(ledger).encumbrances()
            &&& final(ledger).spec_authority() == old(ledger).spec_authority()
        },
{
    let pi = match ledger.find_pool(&device_id) {
        Some(pi) => pi,
        None => {
            return Err(EncumbranceError::DeviceIdMismatch);
        },
    };
    proof {
        lemma_keyed_at(ledger.pool_views(), pool_key(), pi as int);
    }
    if !same_id(&caller, &ledger.pools[pi].owner) {
        return Err(EncumbranceError::UnauthorizedOwner);
    }
    let total = ledger.pools[pi].total_keys;
    if new_public_keys.len() > (MAX_POOL_KEYS - total) as usize {
        return Err(EncumbranceError::PoolCapacityExceeded);
    }
    let ghost old_ledger = *ledger;
    let n = new_public_keys.len() as u32;
    append_keys(&mut ledger.pools[pi].public_keys, &new_public_keys);
    ledger.pools[pi].total_keys = total + n;
    let available = ledger.pools[pi].available_keys;
    ledger.pools[pi].available_keys = available + n;
    proof {
        let views = ledger.pool_views();
        let p = views[pi as int];
        let q = old_ledger.pool_views()[pi as int];
        assert(views =~= old_ledger.pool_views().update(pi as int, p));
        lemma_keyed_update(old_ledger.pool_views(), pool_key(), pi as int, p);
        lemma_keyed_at(old_ledger.pool_views(), pool_key(), pi as int);
        assert forall|d: [u8; 32], i: u32| #![auto]
            ledger.encumbrances().contains_key((d, i)) <==> ledger.pools().contains_key(d)
                && ledger.pools()[d].encumbered_keys.contains(i) by {
            assert(old_ledger.encumbrances().contains_key((d, i)) <==> old_ledger.pools().contains_key(d)
                && old_ledger.pools()[d].encumbered_keys.contains(i));
        }
        assert(pool_wf(q));
        assert forall|k: int| 0 <= k < p.encumbered_keys.len() implies #[trigger] p.encumbered_keys[k]
            < p.public_keys.len() by {
            assert(q.encumbered_keys[k] < q.public_keys.len());
        }
        assert forall|k: int| 0 <= k < ledger.pools@.len() implies pool_wf(#[trigger] ledger.pools@[k]@) by {
            if k != pi as int {
                assert(ledger.pools@[k] == old_ledger.pools@[k]);
            }
        }
    }
    Ok(())
}

/// What verifying that key `key_index` of `device_id` was consumed for
/// `transaction_hash` yields.
pub open spec fn encumbrance_verdict(
    encumbrances: Map<([u8; 32], u32), EncumbranceRecord>,
    device_id: [u8; 32],
    key_index: u32,
    transaction_hash: [u8; 32],
) -> Result<bool, EncumbranceError> {
    let rec = encumbrances[(device_id, key_index)];
    if !encumbrances.contains_key((device_id, key_index)) {
        Err(EncumbranceError::KeyNotEncumbered)
    } else if rec.device_id != device_id {
        Err(EncumbranceError::DeviceIdMismatch)
    } else if rec.key_index != key_index {
        Err(EncumbranceError::InvalidKeyIndex)
    } else if rec.transaction_hash != transaction_hash {
        Err(EncumbranceError::TransactionHashMismatch)
    } else if rec.status != EncumbranceStatus::Encumbered {
        Err(EncumbranceError::KeyNotEncumbered)
    } else {
        Ok(true)
    }
}

/// Checks that key `key_index` of `device_id` was consumed for exactly the
/// transaction `transaction_hash`. A key with no record is reported as
/// `KeyNotEncumbered`; a record for another transaction as
/// `TransactionHashMismatch`.
pub fn verify_encumbrance(
    ledger: &EncumbranceLedger,
    device_id: [u8; 32],
    key_index: u32,
    transaction_hash: [u8; 32],
) -> (r: Result<bool, EncumbranceError>)
    requires
        ledger.wf(),
    ensures
        r == encumbrance_verdict(ledger.encumbrances(), device_id, key_index, transaction_hash),
        r == Ok::<bool, EncumbranceError>(true) <==> {
            let rec = ledger.encumbrances()[(device_id, key_index)];
            &&& ledger.encumbrances().contains_key((device_id, key_index))
            &&& rec.device_id == device_id
            &&& rec.key_index == key_index
            &&& rec.transaction_hash == transaction_hash
            &&& rec.status == EncumbranceStatus::Encumbered
        },
        r is Ok ==> r == Ok::<bool, EncumbranceError>(true),
{
    let i = match ledger.find_record(&device_id, key_index) {
        Some(i) => i,
        None => {
            return Err(EncumbranceError::KeyNotEncumbered);
        },
    };
    proof {
        lemma_keyed_at(ledger.records@, record_key(), i as int);
    }
    let rec = &ledger.records[i];
    if !same_id(&rec.device_id, &device_id) {
        return Err(EncumbranceError::DeviceIdMismatch);
    }
    if rec.key_index != key_index {
        return Err(EncumbranceError::InvalidKeyIndex);
    }
    if !same_id(&rec.transaction_hash, &transaction_hash) {
        return Err(EncumbranceError::TransactionHashMismatch);
    }
    if rec.status != EncumbranceStatus::Encumbered {
        return Err(EncumbranceError::KeyNotEncumbered);
    }
    Ok(true)
}

/// Builds the destruction proof of a key: a zero-knowledge-type proof whose payload
/// is derived from the device, the private-key hash, the public key and the nonce,
/// stamped with `now`. The hardware signature is left all zero, for the device to
/// fill in before the proof is submitted.
pub fn create_destruction_proof(
    device_id: [u8; 32],
    private_key_hash: [u8; 32],
    public_key: [u8; 32],
    nonce: [u8; 32],
    now: i64,
) -> (r: KeyDestructionProof)
    ensures
        r.proof_type == ProofType::ZeroKnowledge,
        r.proof_data@ == destruction_payload(device_id@, private_key_hash@, public_key@, nonce@),
        r.timestamp == now,
        r.nonce == nonce,
        all_zero(r.hardware_signature@),
{
    let proof_data = create_destruction_proof_data(&device_id, &private_key_hash, &public_key, &nonce);
    KeyDestructionProof {
        proof_type: ProofType::ZeroKnowledge,
        proof_data,
        timestamp: now,
        nonce,
        hardware_signature: [0u8; 64],
    }
}

/// A key is consumed at most once. Take a ledger holding a record for a device and
/// key index, and any ledger reached from it (every operation's contract keeps the
/// records, and `submap_of` composes): there, every attempt to consume that key is
/// refused, whatever the caller, key, proof or transaction.
pub proof fn lemma_encumber_at_most_once(
    before: EncumbranceLedger,
    after: EncumbranceLedger,
    caller: [u8; 32],
    device_id: [u8; 32],
    key_index: u32,
    public_key: [u8; 32],
    destruction_proof: KeyDestructionProof,
)
    requires
        before.encumbrances().contains_key((device_id, key_index)),
        before.encumbrances().submap_of(after.encumbrances()),
    ensures
        encumber_outcome(after, caller, device_id, key_index, public_key, destruction_proof) is Err,
{
    assert(after.encumbrances().contains_key((device_id, key_index)));
}

/// The evolution of the key pools composes: what holds over two runs of operations
/// holds over both.
pub proof fn lemma_pools_evolve_transitive(
    a: Map<[u8; 32], KeyPoolView>,
    b: Map<[u8; 32], KeyPoolView>,
    c: Map<[u8; 32], KeyPoolView>,
)
    requires
        pools_evolve(a, b),
        pools_evolve(b, c),
    ensures
        pools_evolve(a, c),
{
    assert forall|d: [u8; 32]| #[trigger] a.contains_key(d) implies {
        &&& c.contains_key(d)
        &&& a[d].encumbered_keys.is_prefix_of(c[d].encumbered_keys)
        &&& a[d].used_keys <= c[d].used_keys
        &&& c[d].total_keys - c[d].public_keys.len() == a[d].total_keys - a[d].public_keys.len()
    } by {
        assert(b.contains_key(d));
        let x = a[d].encumbered_keys;
        let y = b[d].encumbered_keys;
        let z = c[d].encumbered_keys;
        assert forall|k: int| 0 <= k < x.len() implies x[k] == z[k] by {
            assert(x[k] == y.subrange(0, x.len() as int)[k]);
            assert(y[k] == z.subrange(0, y.len() as int)[k]);
        }
        assert(x =~= z.subrange(0, x.len() as int));
    }
}

/// The balance of a key pool: every inserted key is either available or used, and
/// the used count is the number of consumed indices. For a pool whose declared size
/// equals the keys it holds, as when it was created with a full batch, available
/// and used keys add up to the declared size; `pools_evolve`, stated by every
/// operation, keeps that equality and never lowers the used count.
pub proof fn lemma_pool_balance(ledger: EncumbranceLedger, device_id: [u8; 32])
    requires
        ledger.wf(),
        ledger.pools().contains_key(device_id),
    ensures
        ({
            let p = ledger.pools()[device_id];
            &&& p.available_keys + p.used_keys == p.public_keys.len()
            &&& p.used_keys == p.encumbered_keys.len()
            &&& p.total_keys == p.public_keys.len() ==> p.available_keys + p.used_keys == p.total_keys
        }),
{
    let views = ledger.pool_views();
    let i = choose|i: int| 0 <= i < views.len() && pool_key()(views[i]) == device_id;
    lemma_keyed_at(views, pool_key(), i);
    assert(pool_wf(ledger.pools@[i]@));
}

/// The two guards against reusing a key agree: the ledger holds a record for a
/// device and key index exactly when that device's pool lists the index among its
/// consumed keys.
pub proof fn lemma_consumed_iff_recorded(ledger: EncumbranceLedger, device_id: [u8; 32], key_index: u32)
    requires
        ledger.wf(),
    ensures
        ledger.encumbrances().contains_key((device_id, key_index)) <==> ledger.pools().contains_key(
            device_id,
        ) && ledger.pools()[device_id].encumbered_keys.contains(key_index),
{
    assert(ledger.consumed_iff_recorded());
    assert(ledger.encumbrances().contains_key((device_id, key_index)) <==> ledger.pools().contains_key(
        device_id,
    ) && ledger.pools()[device_id].encumbered_keys.contains(key_index));
}

} // verus!
