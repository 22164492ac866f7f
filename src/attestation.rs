//! The trust registry and the device attestation store.
use vstd::prelude::*;

use crate::bytes::{all_zero, is_all_zero, same_id};
use crate::table::{has_key, keyed, keys_unique, lemma_keyed_at, lemma_keyed_push, lemma_keyed_update};

verus! {

/// How long an attestation stays valid after it is created or refreshed: 30 days, in seconds.
pub const ATTESTATION_VALIDITY: i64 = 86400 * 30;

/// The root of trust: the identity allowed to approve manufacturers, the approved
/// manufacturer identifiers in order of approval, and the number of attestations issued.
pub struct AttestationAuthority {
    pub authority: [u8; 32],
    pub trusted_manufacturers: Vec<[u8; 32]>,
    pub total_attestations: u64,
}

/// A hardware manufacturer approved by the registry owner.
pub struct ManufacturerAccount {
    pub manufacturer_id: [u8; 32],
    pub name: String,
    pub public_key: [u8; 32],
    pub is_active: bool,
    pub devices_attested: u64,
    pub created_at: i64,
}

/// A hardware attestation quote: a versioned signature, a nonce and the ordered
/// integrity measurements of the device.
pub struct AttestationQuote {
    pub version: u32,
    pub signature: [u8; 64],
    pub public_key: [u8; 32],
    pub nonce: [u8; 32],
    pub timestamp: i64,
    pub measurements: Vec<[u8; 32]>,
}

/// The stored status of an attestation. Expiry is never stored: it is read off
/// `expires_at` at verification time.
#[derive(Clone, Copy, Debug, PartialEq, Eq, Structural)]
pub enum AttestationStatus {
    Valid,
    Expired,
    Revoked,
    Pending,
}

/// Why an attestation was revoked.
#[derive(Clone, Copy, Debug, PartialEq, Eq, Structural)]
pub enum RevocationReason {
    Compromised,
    Expired,
    ManufacturerRevoked,
    UserRequested,
    Other,
}

/// The attestation of one device.
pub struct AttestationRecord {
    pub device_id: [u8; 32],
    pub manufacturer_id: [u8; 32],
    pub attestation_quote: AttestationQuote,
    pub device_certificate: [u8; 1024],
    pub status: AttestationStatus,
    pub created_at: i64,
    pub expires_at: i64,
    pub revoked_at: Option<i64>,
    pub revocation_reason: Option<RevocationReason>,
}

/// Why an operation of the registry or the attestation store was refused.
#[derive(Clone, Copy, Debug, PartialEq, Eq, Structural)]
pub enum AttestationError {
    /// The manufacturer is not active.
    UntrustedManufacturer,
    /// No manufacturer is registered under the given identifier.
    ManufacturerMismatch,
    /// The attestation quote fails the validity checks.
    InvalidAttestationQuote,
    /// The device certificate fails the validity checks.
    InvalidDeviceCertificate,
    /// No attestation is stored under the given device identifier.
    DeviceIdMismatch,
    /// The attestation is not in the state the operation needs.
    InvalidAttestation,
    /// The attestation's expiry time has passed.
    AttestationExpired,
    /// The caller is not the registry owner.
    Unauthorized,
    /// A record already exists under the given identifier.
    AlreadyExists,
    /// A counter or a timestamp would leave its integer range.
    ArithmeticOverflow,
}

/// Manufacturer records are looked up by their identifier.
pub open spec fn manufacturer_key() -> spec_fn(ManufacturerAccount) -> [u8; 32] {
    |m: ManufacturerAccount| m.manufacturer_id
}

/// Attestation records are looked up by their device identifier.
pub open spec fn device_key() -> spec_fn(AttestationRecord) -> [u8; 32] {
    |r: AttestationRecord| r.device_id
}

/// The structural validity checks on an attestation quote.
pub open spec fn quote_valid(q: AttestationQuote) -> bool {
    &&& q.version > 0
    &&& !all_zero(q.signature@)
    &&& q.timestamp > 0
    &&& q.measurements@.len() > 0
}

/// The structural validity checks on a device certificate and the key it is checked against.
pub open spec fn certificate_valid(certificate: Seq<u8>, manufacturer_key: Seq<u8>) -> bool {
    !all_zero(certificate) && !all_zero(manufacturer_key)
}

/// The record of a newly approved manufacturer.
pub open spec fn new_manufacturer(
    manufacturer_id: [u8; 32],
    name: String,
    public_key: [u8; 32],
    now: i64,
) -> ManufacturerAccount {
    ManufacturerAccount {
        manufacturer_id,
        name,
        public_key,
        is_active: true,
        devices_attested: 0,
        created_at: now,
    }
}

/// The record of a newly attested device.
pub open spec fn new_attestation(
    device_id: [u8; 32],
    manufacturer_id: [u8; 32],
    quote: AttestationQuote,
    certificate: [u8; 1024],
    now: i64,
) -> AttestationRecord {
    AttestationRecord {
        device_id,
        manufacturer_id,
        attestation_quote: quote,
        device_certificate: certificate,
        status: AttestationStatus::Valid,
        created_at: now,
        expires_at: (now + ATTESTATION_VALIDITY) as i64,
        revoked_at: None,
        revocation_reason: None,
    }
}

/// What verifying the attestation of `device_id` at time `now` yields.
pub open spec fn attestation_verdict(
    attestations: Map<[u8; 32], AttestationRecord>,
    device_id: [u8; 32],
    now: i64,
) -> Result<bool, AttestationError> {
    if !attestations.contains_key(device_id) {
        Err(AttestationError::DeviceIdMismatch)
    } else if attestations[device_id].status != AttestationStatus::Valid {
        Err(AttestationError::InvalidAttestation)
    } else if now >= attestations[device_id].expires_at {
        Err(AttestationError::AttestationExpired)
    } else {
        Ok(true)
    }
}

/// Every device attested in `before` is still attested in `after`, and a revoked
/// record is left exactly as it was.
pub open spec fn attestations_evolve(
    before: Map<[u8; 32], AttestationRecord>,
    after: Map<[u8; 32], AttestationRecord>,
) -> bool {
    forall|d: [u8; 32]| #[trigger]
        before.contains_key(d) ==> {
            &&& after.contains_key(d)
            &&& before[d].status == AttestationStatus::Revoked ==> after[d] == before[d]
        }
}

/// The trust registry together with the manufacturer records and the attestation
/// records, looked up by identifier.
pub struct AttestationRegistry {
    authority: AttestationAuthority,
    manufacturers: Vec<ManufacturerAccount>,
    records: Vec<AttestationRecord>,
}

impl AttestationRegistry {
    /// The registry's own account: owner, trusted list and attestation count.
    pub closed spec fn spec_authority(&self) -> AttestationAuthority {
        self.authority
    }

    /// The manufacturer records, by manufacturer identifier.
    pub closed spec fn manufacturers(&self) -> Map<[u8; 32], ManufacturerAccount> {
        keyed(self.manufacturers@, manufacturer_key())
    }

    /// The attestation records, by device identifier.
    pub closed spec fn attestations(&self) -> Map<[u8; 32], AttestationRecord> {
        keyed(self.records@, device_key())
    }

    /// The owner identity of the registry.
    pub open spec fn owner(&self) -> [u8; 32] {
        self.spec_authority().authority
    }

    /// The trusted manufacturer identifiers, in order of approval.
    pub open spec fn trusted(&self) -> Seq<[u8; 32]> {
        self.spec_authority().trusted_manufacturers@
    }

    /// Well-formedness: identifiers are unique, the trusted list holds the manufacturer
    /// identifiers in order of approval, the attestation count equals the number of
    /// records, and every record names a registered manufacturer.
    pub closed spec fn wf(&self) -> bool {
        &&& keys_unique(self.manufacturers@, manufacturer_key())
        &&& keys_unique(self.records@, device_key())
        &&& self.authority.trusted_manufacturers@.len() == self.manufacturers@.len()
        &&& forall|i: int|
            0 <= i < self.manufacturers@.len()
                ==> self.authority.trusted_manufacturers@[i] == #[trigger] self.manufacturers@[i].manufacturer_id
        &&& self.authority.total_attestations == self.records@.len()
        &&& forall|i: int|
            0 <= i < self.manufacturers@.len()
                ==> #[trigger] self.manufacturers@[i].devices_attested <= self.authority.total_attestations
        &&& forall|i: int|
            0 <= i < self.records@.len() ==> has_key(
                self.manufacturers@,
                manufacturer_key(),
                #[trigger] self.records@[i].manufacturer_id,
            )
    }

    /// The registry's own account.
    pub fn authority(&self) -> (r: &AttestationAuthority)
        ensures
            *r == self.spec_authority(),
    {
        &self.authority
    }

    /// The record of manufacturer `manufacturer_id`, if it is registered.
    pub fn manufacturer(&self, manufacturer_id: &[u8; 32]) -> (r: Option<&ManufacturerAccount>)
        requires
            self.wf(),
        ensures
            match r {
                Some(m) => self.manufacturers().contains_key(*manufacturer_id) && *m
                    == self.manufacturers()[*manufacturer_id],
                None => !self.manufacturers().contains_key(*manufacturer_id),
            },
    {
        match self.find_manufacturer(manufacturer_id) {
            Some(i) => {
                proof {
                    lemma_keyed_at(self.manufacturers@, manufacturer_key(), i as int);
                }
                Some(&self.manufacturers[i])
            },
            None => None,
        }
    }

    /// The attestation record of device `device_id`, if it has one.
    pub fn attestation(&self, device_id: &[u8; 32]) -> (r: Option<&AttestationRecord>)
        requires
            self.wf(),
        ensures
            match r {
                Some(a) => self.attestations().contains_key(*device_id) && *a
                    == self.attestations()[*device_id],
                None => !self.attestations().contains_key(*device_id),
            },
    {
        match self.find_record(device_id) {
            Some(i) => {
                proof {
                    lemma_keyed_at(self.records@, device_key(), i as int);
                }
                Some(&self.records[i])
            },
            None => None,
        }
    }

    /// Position of the manufacturer record with identifier `id`.
    fn find_manufacturer(&self, id: &[u8; 32]) -> (r: Option<usize>)
        ensures
            match r {
                Some(i) => i < self.manufacturers@.len() && self.manufacturers@[i as int].manufacturer_id
                    == *id,
                None => !has_key(self.manufacturers@, manufacturer_key(), *id),
            },
    {
        let mut i: usize = 0;
        while i < self.manufacturers.len()
            invariant
                0 <= i <= self.manufacturers@.len(),
                forall|k: int| 0 <= k < i ==> self.manufacturers@[k].manufacturer_id != *id,
            decreases self.manufacturers@.len() - i,
        {
            if same_id(&self.manufacturers[i].manufacturer_id, id) {
                return Some(i);
            }
            i = i + 1;
        }
        None
    }

    /// Position of the attestation record of device `id`.
    fn find_record(&self, id: &[u8; 32]) -> (r: Option<usize>)
        ensures
            match r {
                Some(i) => i < self.records@.len() && self.records@[i as int].device_id == *id,
                None => !has_key(self.records@, device_key(), *id),
            },
    {
        let mut i: usize = 0;
        while i < self.records.len()
            invariant
                0 <= i <= self.records@.len(),
                forall|k: int| 0 <= k < i ==> self.records@[k].device_id != *id,
            decreases self.records@.len() - i,
        {
            if same_id(&self.records[i].device_id, id) {
                return Some(i);
            }
            i = i + 1;
        }
        None
    }
}

/// Creates an empty registry owned by `owner`.
pub fn initialize(owner: [u8; 32]) -> (r: AttestationRegistry)
    ensures
        r.wf(),
        r.owner() == owner,
        r.trusted() == Seq::<[u8; 32]>::empty(),
        r.spec_authority().total_attestations == 0,
        r.manufacturers() == Map::<[u8; 32], ManufacturerAccount>::empty(),
        r.attestations() == Map::<[u8; 32], AttestationRecord>::empty(),
{
    let r = AttestationRegistry {
        authority: AttestationAuthority {
            authority: owner,
            trusted_manufacturers: Vec::new(),
            total_attestations: 0,
        },
        manufacturers: Vec::new(),
        records: Vec::new(),
    };
    assert(r.manufacturers() =~= Map::<[u8; 32], ManufacturerAccount>::empty());
    assert(r.attestations() =~= Map::<[u8; 32], AttestationRecord>::empty());
    r
}

/// The quote checks: version above zero, a signature that is not all zero, a
/// positive timestamp and at least one measurement. They stand in for a signature
/// check against the manufacturer key.
#[allow(unused_variables)]
pub fn verify_attestation_quote(
    device_id: &[u8; 32],
    quote: &AttestationQuote,
    manufacturer_key: &[u8; 32],
) -> (r: bool)
    ensures
        r == quote_valid(*quote),
{
    quote.version > 0 && !is_all_zero(&quote.signature) && quote.timestamp > 0
        && quote.measurements.len() > 0
}

/// The certificate checks: neither the certificate nor the manufacturer key is all
/// zero. They stand in for a certificate-chain check.
pub fn verify_device_certificate(certificate: &[u8; 1024], manufacturer_key: &[u8; 32]) -> (r: bool)
    ensures
        r == certificate_valid(certificate@, manufacturer_key@),
{
    !is_all_zero(certificate) && !is_all_zero(manufacturer_key)
}

/// Approves a manufacturer. Only the registry owner may do so, and only once per
/// manufacturer identifier; the new record is active with no devices attested.
pub fn add_trusted_manufacturer(
    registry: &mut AttestationRegistry,
    caller: [u8; 32],
    manufacturer_id: [u8; 32],
    name: String,
    public_key: [u8; 32],
    now: i64,
) -> (r: Result<(), AttestationError>)
    requires
        old(registry).wf(),
    ensures
        final(registry).wf(),
        attestations_evolve(old(registry).attestations(), final(registry).attestations()),
        caller != old(registry).owner() ==> r == Err::<(), AttestationError>(
            AttestationError::Unauthorized,
        ),
        caller == old(registry).owner() && old(registry).manufacturers().contains_key(
            manufacturer_id,
        ) ==> r == Err::<(), AttestationError>(AttestationError::AlreadyExists),
        r is Err ==> *final(registry) == *old(registry),
        r is Ok <==> caller == old(registry).owner() && !old(registry).manufacturers().contains_key(
            manufacturer_id,
        ),
        r is Ok ==> {
            &&& final(registry).manufacturers() == old(registry).manufacturers().insert(
                manufacturer_id,
                new_manufacturer(manufacturer_id, name, public_key, now),
            )
            &&& final(registry).trusted() == old(registry).trusted().push(manufacturer_id)
            &&& final(registry).owner() == old(registry).owner()
            &&& final(registry).spec_authority().total_attestations == old(
                registry,
            ).spec_authority().total_attestations
            &&& final(registry).attestations() == old(registry).attestations()
        },
{
    if !same_id(&caller, &registry.authority.authority) {
        return Err(AttestationError::Unauthorized);
    }
    if registry.find_manufacturer(&manufacturer_id).is_some() {
        return Err(AttestationError::AlreadyExists);
    }
    let ghost old_ms = registry.manufacturers@;
    let m = ManufacturerAccount {
        manufacturer_id,
        name,
        public_key,
        is_active: true,
        devices_attested: 0,
        created_at: now,
    };
    proof {
        lemma_keyed_push(old_ms, manufacturer_key(), m);
    }
    registry.manufacturers.push(m);
    registry.authority.trusted_manufacturers.push(manufacturer_id);
    proof {
        assert forall|i: int| 0 <= i < registry.records@.len() implies has_key(
            registry.manufacturers@,
            manufacturer_key(),
            #[trigger] registry.records@[i].manufacturer_id,
        ) by {
            let k = registry.records@[i].manufacturer_id;
            assert(has_key(old_ms, manufacturer_key(), k));
            let j = choose|j: int| 0 <= j < old_ms.len() && manufacturer_key()(old_ms[j]) == k;
            assert(manufacturer_key()(registry.manufacturers@[j]) == k);
        }
    }
    Ok(())
}

/// Records the attestation of a device under an active manufacturer, valid for
/// `ATTESTATION_VALIDITY` seconds from `now`.
///
/// Checks, in order: no attestation exists yet for the device (`AlreadyExists`),
/// the manufacturer is registered (`ManufacturerMismatch`) and active
/// (`UntrustedManufacturer`), the quote (`InvalidAttestationQuote`) and the
/// certificate (`InvalidDeviceCertificate`) pass their checks, and neither the
/// attestation count nor the expiry time overflows (`ArithmeticOverflow`). On
/// success the manufacturer's and the registry's counts grow by one.
pub fn create_attestation(
    registry: &mut AttestationRegistry,
    device_id: [u8; 32],
    manufacturer_id: [u8; 32],
    attestation_quote: AttestationQuote,
    device_certificate: [u8; 1024],
    now: i64,
) -> (r: Result<(), AttestationError>)
    requires
        old(registry).wf(),
    ensures
        final(registry).wf(),
        attestations_evolve(old(registry).attestations(), final(registry).attestations()),
        r == create_attestation_outcome(
            *old(registry),
            device_id,
            manufacturer_id,
            attestation_quote,
            device_certificate,
            now,
        ),
        r is Err ==> *final(registry) == *old(registry),
        r is Ok ==> {
            let m = old(registry).manufacturers()[manufacturer_id];
            &&& final(registry).attestations() == old(registry).attestations().insert(
                device_id,
                new_attestation(device_id, manufacturer_id, attestation_quote, device_certificate, now),
            )
            &&& final(registry).manufacturers() == old(registry).manufacturers().insert(
                manufacturer_id,
                ManufacturerAccount { devices_attested: (m.devices_attested + 1) as u64, ..m },
            )
            &&& final(registry).spec_authority().total_attestations == old(
                registry,
            ).spec_authority().total_attestations + 1
            &&& final(registry).trusted() == old(registry).trusted()
            &&& final(registry).owner() == old(registry).owner()
        },
{
    if registry.find_record(&device_id).is_some() {
        return Err(AttestationError::AlreadyExists);
    }
    let mi = match registry.find_manufacturer(&manufacturer_id) {
        Some(mi) => mi,
        None => {
            return Err(AttestationError::ManufacturerMismatch);
        },
    };
    proof {
        lemma_keyed_at(registry.manufacturers@, manufacturer_key(), mi as int);
    }
    if !registry.manufacturers[mi].is_active {
        return Err(AttestationError::UntrustedManufacturer);
    }
    if !verify_attestation_quote(&device_id, &attestation_quote, &registry.manufacturers[mi].public_key) {
        return Err(AttestationError::InvalidAttestationQuote);
    }
    if !verify_device_certificate(&device_certificate, &registry.manufacturers[mi].public_key) {
        return Err(AttestationError::InvalidDeviceCertificate);
    }
    if registry.authority.total_attestations == u64::MAX || now > i64::MAX - ATTESTATION_VALIDITY {
        return Err(AttestationError::ArithmeticOverflow);
    }
    let ghost old_reg = *registry;
    let record = AttestationRecord {
        device_id,
        manufacturer_id,
        attestation_quote,
        device_certificate,
        status: AttestationStatus::Valid,
        created_at: now,
        expires_at: now + ATTESTATION_VALIDITY,
        revoked_at: None,
        revocation_reason: None,
    };
    proof {
        lemma_keyed_push(old_reg.records@, device_key(), record);
    }
    registry.records.push(record);
    registry.authority.total_attestations = registry.authority.total_attestations + 1;
    let count = registry.manufacturers[mi].devices_attested;
    registry.manufacturers[mi].devices_attested = count + 1;
    proof {
        let ms = registry.manufacturers@;
        assert(ms =~= old_reg.manufacturers@.update(mi as int, ms[mi as int]));
        lemma_keyed_update(old_reg.manufacturers@, manufacturer_key(), mi as int, ms[mi as int]);
        assert forall|i: int| 0 <= i < registry.records@.len() implies has_key(
            ms,
            manufacturer_key(),
            #[trigger] registry.records@[i].manufacturer_id,
        ) by {
            let k = registry.records@[i].manufacturer_id;
            if i < old_reg.records@.len() {
                assert(has_key(old_reg.manufacturers@, manufacturer_key(), k));
                let j = choose|j: int|
                    0 <= j < old_reg.manufacturers@.len() && manufacturer_key()(old_reg.manufacturers@[j]) == k;
                assert(manufacturer_key()(ms[j]) == k);
            } else {
                assert(manufacturer_key()(ms[mi as int]) == k);
            }
        }
        assert forall|i: int| 0 <= i < ms.len() implies #[trigger] ms[i].devices_attested
            <= registry.authority.total_attestations by {
            assert(old_reg.manufacturers@[i].devices_attested <= old_reg.authority.total_attestations);
        }
    }
    Ok(())
}

/// What creating an attestation yields, by the order of the checks.
pub open spec fn create_attestation_outcome(
    registry: AttestationRegistry,
    device_id: [u8; 32],
    manufacturer_id: [u8; 32],
    quote: AttestationQuote,
    certificate: [u8; 1024],
    now: i64,
) -> Result<(), AttestationError> {
    let ms = registry.manufacturers();
    if registry.attestations().contains_key(device_id) {
        Err(AttestationError::AlreadyExists)
    } else if !ms.contains_key(manufacturer_id) {
        Err(AttestationError::ManufacturerMismatch)
    } else if !ms[manufacturer_id].is_active {
        Err(AttestationError::UntrustedManufacturer)
    } else if !quote_valid(quote) {
        Err(AttestationError::InvalidAttestationQuote)
    } else if !certificate_valid(certificate@, ms[manufacturer_id].public_key@) {
        Err(AttestationError::InvalidDeviceCertificate)
    } else if registry.spec_authority().total_attestations == u64::MAX || now > i64::MAX
        - ATTESTATION_VALIDITY {
        Err(AttestationError::ArithmeticOverflow)
    } else {
        Ok(())
    }
}

/// Checks that `device_id` holds a live attestation at time `now`: a record exists
/// (else `DeviceIdMismatch`), its status is `Valid` (else `InvalidAttestation`) and
/// `now` is before its expiry time (else `AttestationExpired`).
pub fn verify_attestation(registry: &AttestationRegistry, device_id: [u8; 32], now: i64) -> (r: Result<
    bool,
    AttestationError,
>)
    requires
        registry.wf(),
    ensures
        r == attestation_verdict(registry.attestations(), device_id, now),
        r == Ok::<bool, AttestationError>(true) <==> {
            &&& registry.attestations().contains_key(device_id)
            &&& registry.attestations()[device_id].status == AttestationStatus::Valid
            &&& now < registry.attestations()[device_id].expires_at
        },
        r is Ok ==> r == Ok::<bool, AttestationError>(true),
{
    let i = match registry.find_record(&device_id) {
        Some(i) => i,
        None => {
            return Err(AttestationError::DeviceIdMismatch);
        },
    };
    proof {
        lemma_keyed_at(registry.records@, device_key(), i as int);
    }
    let record = &registry.records[i];
    if record.status != AttestationStatus::Valid {
        return Err(AttestationError::InvalidAttestation);
    }
    if now >= record.expires_at {
        return Err(AttestationError::AttestationExpired);
    }
    Ok(true)
}

/// What revoking the attestation of `device_id` yields: only the registry owner may
/// revoke, the record must exist, and a revoked record stays as it is.
pub open spec fn revoke_outcome(
    registry: AttestationRegistry,
    caller: [u8; 32],
    device_id: [u8; 32],
) -> Result<(), AttestationError> {
    if caller != registry.owner() {
        Err(AttestationError::Unauthorized)
    } else if !registry.attestations().contains_key(device_id) {
        Err(AttestationError::DeviceIdMismatch)
    } else if registry.attestations()[device_id].status == AttestationStatus::Revoked {
        Err(AttestationError::InvalidAttestation)
    } else {
        Ok(())
    }
}

/// Revokes the attestation of a device, recording the reason and the time.
/// Revocation is terminal: revoking a revoked record is refused with
/// `InvalidAttestation` and changes nothing.
pub fn revoke_attestation(
    registry: &mut AttestationRegistry,
    caller: [u8; 32],
    device_id: [u8; 32],
    reason: RevocationReason,
    now: i64,
) -> (r: Result<(), AttestationError>)
    requires
        old(registry).wf(),
    ensures
        final(registry).wf(),
        attestations_evolve(old(registry).attestations(), final(registry).attestations()),
        r == revoke_outcome(*old(registry), caller, device_id),
        r is Err ==> *final(registry) == *old(registry),
        r is Ok ==> {
            let rec = old(registry).attestations()[device_id];
            &&& final(registry).attestations() == old(registry).attestations().insert(
                device_id,
                AttestationRecord {
                    status: AttestationStatus::Revoked,
                    revoked_at: Some(now),
                    revocation_reason: Some(reason),
                    ..rec
                },
            )
            &&& final(registry).manufacturers() == old(registry).manufacturers()
            &&& final(registry).spec_authority() == old(registry).spec_authority()
        },
{
    if !same_id(&caller, &registry.authority.authority) {
        return Err(AttestationError::Unauthorized);
    }
    let i = match registry.find_record(&device_id) {
        Some(i) => i,
        None => {
            return Err(AttestationError::DeviceIdMismatch);
        },
    };
    proof {
        lemma_keyed_at(registry.records@, device_key(), i as int);
    }
    if registry.records[i].status == AttestationStatus::Revoked {
        return Err(AttestationError::InvalidAttestation);
    }
    let ghost old_reg = *registry;
    registry.records[i].status = AttestationStatus::Revoked;
    registry.records[i].revocation_reason = Some(reason);
    registry.records[i].revoked_at = Some(now);
    proof {
        let rs = registry.records@;
        assert(rs =~= old_reg.records@.update(i as int, rs[i as int]));
        lemma_keyed_update(old_reg.records@, device_key(), i as int, rs[i as int]);
        assert forall|k: int| 0 <= k < rs.len() implies has_key(
            registry.manufacturers@,
            manufacturer_key(),
            #[trigger] rs[k].manufacturer_id,
        ) by {
            assert(old_reg.records@[k].manufacturer_id == rs[k].manufacturer_id);
        }
    }
    Ok(())
}

/// What refreshing the attestation of `device_id` at time `now` yields.
pub open spec fn refresh_outcome(
    registry: AttestationRegistry,
    device_id: [u8; 32],
    new_quote: AttestationQuote,
    now: i64,
) -> Result<(), AttestationError> {
    let recs = registry.attestations();
    if !recs.contains_key(device_id) {
        Err(AttestationError::DeviceIdMismatch)
    } else if recs[device_id].status != AttestationStatus::Valid {
        Err(AttestationError::InvalidAttestation)
    } else if now >= recs[device_id].expires_at {
        Err(AttestationError::AttestationExpired)
    } else if !quote_valid(new_quote) {
        Err(AttestationError::InvalidAttestationQuote)
    } else if now > i64::MAX - ATTESTATION_VALIDITY {
        Err(AttestationError::ArithmeticOverflow)
    } else {
        Ok(())
    }
}

/// Replaces the quote of a live attestation and extends its expiry to
/// `ATTESTATION_VALIDITY` seconds from `now`.
///
/// The record must exist (`DeviceIdMismatch`), have status `Valid`
/// (`InvalidAttestation`) and not be expired (`AttestationExpired`): a record whose
/// expiry time has passed cannot be refreshed, even while its stored status is
/// still `Valid`. The new quote must pass the same checks as at creation
/// (`InvalidAttestationQuote`).
pub fn refresh_attestation(
    registry: &mut AttestationRegistry,
    device_id: [u8; 32],
    new_attestation_quote: AttestationQuote,
    now: i64,
) -> (r: Result<(), AttestationError>)
    requires
        old(registry).wf(),
    ensures
        final(registry).wf(),
        attestations_evolve(old(registry).attestations(), final(registry).attestations()),
        r == refresh_outcome(*old(registry), device_id, new_attestation_quote, now),
        r is Err ==> *final(registry) == *old(registry),
        r is Ok ==> {
            let rec = old(registry).attestations()[device_id];
            &&& final(registry).attestations() == old(registry).attestations().insert(
                device_id,
                AttestationRecord {
                    attestation_quote: new_attestation_quote,
                    expires_at: (now + ATTESTATION_VALIDITY) as i64,
                    ..rec
                },
            )
            &&& final(registry).manufacturers() == old(registry).manufacturers()
            &&& final(registry).spec_authority() == old(registry).spec_authority()
        },
{
    let i = match registry.find_record(&device_id) {
        Some(i) => i,
        None => {
            return Err(AttestationError::DeviceIdMismatch);
        },
    };
    proof {
        lemma_keyed_at(registry.records@, device_key(), i as int);
    }
    if registry.records[i].status != AttestationStatus::Valid {
        return Err(AttestationError::InvalidAttestation);
    }
    if now >= registry.records[i].expires_at {
        return Err(AttestationError::AttestationExpired);
    }
    let mi = match registry.find_manufacturer(&registry.records[i].manufacturer_id) {
        Some(mi) => mi,
        None => {
            // Every record names a registered manufacturer: this arm is never taken.
            proof {
                assert(has_key(registry.manufacturers@, manufacturer_key(), registry.records@[i as int].manufacturer_id));
            }
            return Err(AttestationError::ManufacturerMismatch);
        },
    };
    if !verify_attestation_quote(&device_id, &new_attestation_quote, &registry.manufacturers[mi].public_key) {
        return Err(AttestationError::InvalidAttestationQuote);
    }
    if now > i64::MAX - ATTESTATION_VALIDITY {
        return Err(AttestationError::ArithmeticOverflow);
    }
    let ghost old_reg = *registry;
    registry.records[i].attestation_quote = new_attestation_quote;
    registry.records[i].expires_at = now + ATTESTATION_VALIDITY;
    proof {
        let rs = registry.records@;
        assert(rs =~= old_reg.records@.update(i as int, rs[i as int]));
        lemma_keyed_update(old_reg.records@, device_key(), i as int, rs[i as int]);
        assert forall|k: int| 0 <= k < rs.len() implies has_key(
            registry.manufacturers@,
            manufacturer_key(),
            #[trigger] rs[k].manufacturer_id,
        ) by {
            assert(old_reg.records@[k].manufacturer_id == rs[k].manufacturer_id);
        }
    }
    Ok(())
}

/// Marks a manufacturer active or inactive. Only the registry owner may do so, and
/// the manufacturer must be registered. An inactive manufacturer can vouch for no
/// new device; attestations already issued under it are left as they are.
pub fn set_manufacturer_active(
    registry: &mut AttestationRegistry,
    caller: [u8; 32],
    manufacturer_id: [u8; 32],
    is_active: bool,
) -> (r: Result<(), AttestationError>)
    requires
        old(registry).wf(),
    ensures
        final(registry).wf(),
        attestations_evolve(old(registry).attestations(), final(registry).attestations()),
        r == (if caller != old(registry).owner() {
            Err::<(), AttestationError>(AttestationError::Unauthorized)
        } else if !old(registry).manufacturers().contains_key(manufacturer_id) {
            Err(AttestationError::ManufacturerMismatch)
        } else {
            Ok(())
        }),
        r is Err ==> *final(registry) == *old(registry),
        r is Ok ==> {
            let m = old(registry).manufacturers()[manufacturer_id];
            &&& final(registry).manufacturers() == old(registry).manufacturers().insert(
                manufacturer_id,
                ManufacturerAccount { is_active, ..m },
            )
            &&& final(registry).attestations() == old(registry).attestations()
            &&& final(registry).spec_authority() == old(registry).spec_authority()
        },
{
    if !same_id(&caller, &registry.authority.authority) {
        return Err(AttestationError::Unauthorized);
    }
    let mi = match registry.find_manufacturer(&manufacturer_id) {
        Some(mi) => mi,
        None => {
            return Err(AttestationError::ManufacturerMismatch);
        },
    };
    proof {
        lemma_keyed_at(registry.manufacturers@, manufacturer_key(), mi as int);
    }
    let ghost old_reg = *registry;
    registry.manufacturers[mi].is_active = is_active;
    proof {
        let ms = registry.manufacturers@;
        assert(ms =~= old_reg.manufacturers@.update(mi as int, ms[mi as int]));
        lemma_keyed_update(old_reg.manufacturers@, manufacturer_key(), mi as int, ms[mi as int]);
        assert forall|k: int| 0 <= k < registry.records@.len() implies has_key(
            ms,
            manufacturer_key(),
            #[trigger] registry.records@[k].manufacturer_id,
        ) by {
            let key = registry.records@[k].manufacturer_id;
            assert(has_key(old_reg.manufacturers@, manufacturer_key(), key));
            let j = choose|j: int|
                0 <= j < old_reg.manufacturers@.len() && manufacturer_key()(old_reg.manufacturers@[j]) == key;
            assert(manufacturer_key()(ms[j]) == key);
        }
        assert forall|k: int| 0 <= k < ms.len() implies #[trigger] ms[k].devices_attested
            <= registry.authority.total_attestations by {
            assert(old_reg.manufacturers@[k].devices_attested <= old_reg.authority.total_attestations);
        }
        assert forall|k: int| 0 <= k < ms.len() implies registry.authority.trusted_manufacturers@[k]
            == #[trigger] ms[k].manufacturer_id by {
            assert(old_reg.manufacturers@[k].manufacturer_id == ms[k].manufacturer_id);
        }
    }
    Ok(())
}

/// A device holds at most one attestation: the store maps each device identifier
/// to a single record, and creating an attestation for a device that already has
/// one is refused with `AlreadyExists`, whatever the other arguments.
pub proof fn lemma_one_attestation_per_device(
    registry: AttestationRegistry,
    device_id: [u8; 32],
    manufacturer_id: [u8; 32],
    quote: AttestationQuote,
    certificate: [u8; 1024],
    now: i64,
)
    requires
        registry.attestations().contains_key(device_id),
    ensures
        create_attestation_outcome(registry, device_id, manufacturer_id, quote, certificate, now)
            == Err::<(), AttestationError>(AttestationError::AlreadyExists),
{
}

/// The evolution of the attestation store composes: what holds over two runs of
/// operations holds over both.
pub proof fn lemma_attestations_evolve_transitive(
    a: Map<[u8; 32], AttestationRecord>,
    b: Map<[u8; 32], AttestationRecord>,
    c: Map<[u8; 32], AttestationRecord>,
)
    requires
        attestations_evolve(a, b),
        attestations_evolve(b, c),
    ensures
        attestations_evolve(a, c),
{
    assert forall|d: [u8; 32]| #[trigger] a.contains_key(d) implies c.contains_key(d) && (a[d].status
        == AttestationStatus::Revoked ==> c[d] == a[d]) by {
        assert(b.contains_key(d));
    }
}

/// Revocation is terminal. Take a registry in which the attestation of a device is
/// revoked, and any registry reached from it (every operation's contract states
/// `attestations_evolve`, which composes): there the record is unchanged, verifying
/// it fails at every time, and refreshing or revoking it again is refused.
pub proof fn lemma_revocation_is_terminal(
    before: AttestationRegistry,
    after: AttestationRegistry,
    caller: [u8; 32],
    device_id: [u8; 32],
    new_quote: AttestationQuote,
    now: i64,
)
    requires
        before.attestations().contains_key(device_id),
        before.attestations()[device_id].status == AttestationStatus::Revoked,
        attestations_evolve(before.attestations(), after.attestations()),
    ensures
        after.attestations().contains_key(device_id),
        after.attestations()[device_id] == before.attestations()[device_id],
        attestation_verdict(after.attestations(), device_id, now) == Err::<bool, AttestationError>(
            AttestationError::InvalidAttestation,
        ),
        refresh_outcome(after, device_id, new_quote, now) is Err,
        revoke_outcome(after, caller, device_id) is Err,
{
    assert(before.attestations().contains_key(device_id));
}

} // verus!
