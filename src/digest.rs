//! Deterministic hashing: destruction-proof payloads and transaction fingerprints.
use vstd::prelude::*;

use crate::bytes::{append_bytes, append_u64_le, i64_le, u64_le};

verus! {

/// The SHA-256 digest of a byte string.
pub uninterp spec fn sha256_of(data: Seq<u8>) -> Seq<u8>;

/// Relies on `sha2::Sha256::digest` (the one-shot form of `sha2::Digest`): the
/// 32-byte SHA-256 digest of `data`, which depends on the bytes of `data` alone.
#[verifier::external_body]
fn sha256(data: &[u8]) -> (r: [u8; 32])
    ensures
        r@ == sha256_of(data@),
{
    <sha2::Sha256 as sha2::Digest>::digest(data).into()
}

/// Number of chained digests that make up a destruction-proof payload.
pub const PROOF_BLOCKS: usize = 8;

/// Size in bytes of a destruction-proof payload.
pub const PROOF_DATA_LEN: usize = 256;

/// The domain-separation tag of destruction proofs, `SHIFT_KEY_DESTRUCTION_PROOF` in ASCII.
pub open spec fn destruction_tag() -> Seq<u8> {
    seq![
        83u8, 72, 73, 70, 84, 95, 75, 69, 89, 95, 68, 69, 83, 84, 82, 85, 67, 84, 73, 79, 78, 95,
        80, 82, 79, 79, 70,
    ]
}

/// The domain-separation tag of channel transfers, `SHIFT_P2P_TRANSACTION` in ASCII.
pub open spec fn p2p_tag() -> Seq<u8> {
    seq![83u8, 72, 73, 70, 84, 95, 80, 50, 80, 95, 84, 82, 65, 78, 83, 65, 67, 84, 73, 79, 78]
}

/// The seed digest of a destruction proof.
pub open spec fn destruction_seed(
    device_id: Seq<u8>,
    private_key_hash: Seq<u8>,
    public_key: Seq<u8>,
    nonce: Seq<u8>,
) -> Seq<u8> {
    sha256_of(device_id + private_key_hash + public_key + nonce + destruction_tag())
}

/// The `i`-th chained digest derived from a seed.
pub open spec fn chained_block(seed: Seq<u8>, i: u64) -> Seq<u8> {
    sha256_of(seed + u64_le(i))
}

/// The payload derived from a seed: the chained digests for indices 0 to 7, concatenated.
pub open spec fn expanded_payload(seed: Seq<u8>) -> Seq<u8> {
    Seq::new(256, |j: int| chained_block(seed, (j / 32) as u64)[j % 32])
}

/// The destruction-proof payload for a consumed key.
pub open spec fn destruction_payload(
    device_id: Seq<u8>,
    private_key_hash: Seq<u8>,
    public_key: Seq<u8>,
    nonce: Seq<u8>,
) -> Seq<u8> {
    expanded_payload(destruction_seed(device_id, private_key_hash, public_key, nonce))
}

/// The fingerprint of a prepared transfer.
pub open spec fn transaction_fingerprint(
    sender: Seq<u8>,
    amount: u64,
    recipient_device_id: Seq<u8>,
    created_at: i64,
) -> Seq<u8> {
    sha256_of(sender + u64_le(amount) + recipient_device_id + i64_le(created_at))
}

/// The fingerprint of a transfer inside a payment channel.
pub open spec fn p2p_fingerprint(
    channel_id: Seq<u8>,
    sender: Seq<u8>,
    amount: u64,
    recipient: Seq<u8>,
) -> Seq<u8> {
    sha256_of(channel_id + sender + u64_le(amount) + recipient + p2p_tag())
}

/// Expands a seed digest into a 256-byte payload of eight chained digests, the
/// `i`-th over the seed followed by `i` as eight little-endian bytes.
pub fn expand_seed(seed: &[u8; 32]) -> (r: [u8; 256])
    ensures
        r@ == expanded_payload(seed@),
{
    let mut out = [0u8; 256];
    let mut i: usize = 0;
    while i < PROOF_BLOCKS
        invariant
            0 <= i <= 8,
            out@.len() == 256,
            forall|j: int| 0 <= j < 32 * i ==> out@[j] == chained_block(seed@, (j / 32) as u64)[j % 32],
        decreases 8 - i,
    {
        let mut input: Vec<u8> = Vec::new();
        append_bytes(&mut input, seed);
        append_u64_le(&mut input, i as u64);
        assert(input@ == seed@ + u64_le(i as u64));
        let block = sha256(input.as_slice());
        let mut k: usize = 0;
        while k < 32
            invariant
                0 <= i < 8,
                0 <= k <= 32,
                out@.len() == 256,
                block@ == chained_block(seed@, i as u64),
                forall|j: int| 0 <= j < 32 * i + k ==> out@[j] == chained_block(seed@, (j / 32) as u64)[j % 32],
            decreases 32 - k,
        {
            out[32 * i + k] = block[k];
            proof {
                let j = 32 * i + k;
                assert(j / 32 == i as int) by (nonlinear_arith)
                    requires j == 32 * i + k, 0 <= k < 32;
                assert(j % 32 == k as int) by (nonlinear_arith)
                    requires j == 32 * i + k, 0 <= k < 32;
            }
            k = k + 1;
        }
        i = i + 1;
    }
    assert(out@ =~= expanded_payload(seed@));
    out
}

/// The destruction-proof payload: a seed digest over the device identifier, the
/// private-key hash, the public key, the nonce and a fixed domain tag, expanded
/// into eight chained digests.
pub fn create_destruction_proof_data(
    device_id: &[u8; 32],
    private_key_hash: &[u8; 32],
    public_key: &[u8; 32],
    nonce: &[u8; 32],
) -> (r: [u8; 256])
    ensures
        r@ == destruction_payload(device_id@, private_key_hash@, public_key@, nonce@),
{
    let tag: [u8; 27] = [
        83, 72, 73, 70, 84, 95, 75, 69, 89, 95, 68, 69, 83, 84, 82, 85, 67, 84, 73, 79, 78, 95,
        80, 82, 79, 79, 70,
    ];
    assert(tag@ =~= destruction_tag());
    let mut input: Vec<u8> = Vec::new();
    append_bytes(&mut input, device_id);
    append_bytes(&mut input, private_key_hash);
    append_bytes(&mut input, public_key);
    append_bytes(&mut input, nonce);
    append_bytes(&mut input, &tag);
    assert(input@ =~= device_id@ + private_key_hash@ + public_key@ + nonce@ + destruction_tag());
    let seed = sha256(input.as_slice());
    expand_seed(&seed)
}

/// The fingerprint of a prepared transfer: the digest of the sender, the amount,
/// the recipient device and the creation time, integers as eight little-endian bytes.
pub fn calculate_transaction_hash(
    sender: &[u8; 32],
    amount: u64,
    recipient_device_id: &[u8; 32],
    created_at: i64,
) -> (r: [u8; 32])
    ensures
        r@ == transaction_fingerprint(sender@, amount, recipient_device_id@, created_at),
{
    let mut input: Vec<u8> = Vec::new();
    append_bytes(&mut input, sender);
    append_u64_le(&mut input, amount);
    append_bytes(&mut input, recipient_device_id);
    append_u64_le(&mut input, created_at as u64);
    assert(input@ =~= sender@ + u64_le(amount) + recipient_device_id@ + i64_le(created_at));
    sha256(input.as_slice())
}

/// The fingerprint of a channel transfer: the digest of the channel, the sender,
/// the amount, the recipient and a fixed domain tag.
pub fn calculate_p2p_transaction_hash(
    channel_id: &[u8; 32],
    sender: &[u8; 32],
    amount: u64,
    recipient: &[u8; 32],
) -> (r: [u8; 32])
    ensures
        r@ == p2p_fingerprint(channel_id@, sender@, amount, recipient@),
{
    let tag: [u8; 21] = [
        83, 72, 73, 70, 84, 95, 80, 50, 80, 95, 84, 82, 65, 78, 83, 65, 67, 84, 73, 79, 78,
    ];
    assert(tag@ =~= p2p_tag());
    let mut input: Vec<u8> = Vec::new();
    append_bytes(&mut input, channel_id);
    append_bytes(&mut input, sender);
    append_u64_le(&mut input, amount);
    append_bytes(&mut input, recipient);
    append_bytes(&mut input, &tag);
    assert(input@ =~= channel_id@ + sender@ + u64_le(amount) + recipient@ + p2p_tag());
    sha256(input.as_slice())
}

} // verus!
