//! Byte encodings of draw and checkpoint inputs, and their SHA-256 digests.
use crate::address::Address;
use vstd::prelude::*;

verus! {

/// What SHA-256 yields for a byte string.
pub uninterp spec fn sha256_of(data: Seq<u8>) -> [u8; 32];

/// Calls `soroban_sdk::crypto::Crypto::sha256` on `data`.
///
/// Claims: the 32-byte digest depends on the bytes alone. The host's
/// metering of the call is not stated.
#[verifier::external_body]
fn host_sha256(env: &soroban_sdk::Env, data: &Vec<u8>) -> (digest: [u8; 32])
    ensures
        digest == sha256_of(data@),
{
    let bytes = soroban_sdk::Bytes::from_slice(env, data.as_slice());
    env.crypto().sha256(&bytes).to_array()
}

/// The big-endian bytes of a `u32`.
pub open spec fn be_u32(x: u32) -> Seq<u8> {
    seq![(x >> 24u32) as u8, (x >> 16u32) as u8, (x >> 8u32) as u8, x as u8]
}

/// The big-endian bytes of a `u64`.
pub open spec fn be_u64(x: u64) -> Seq<u8> {
    seq![
        (x >> 56u64) as u8,
        (x >> 48u64) as u8,
        (x >> 40u64) as u8,
        (x >> 32u64) as u8,
        (x >> 24u64) as u8,
        (x >> 16u64) as u8,
        (x >> 8u64) as u8,
        x as u8,
    ]
}

/// The `u64` whose big-endian bytes are the first eight of `b`.
pub open spec fn u64_from_be(b: Seq<u8>) -> u64 {
    (((b[0] as u64) << 56u64) | ((b[1] as u64) << 48u64) | ((b[2] as u64) << 40u64) | ((
    b[3] as u64) << 32u64) | ((b[4] as u64) << 24u64) | ((b[5] as u64) << 16u64) | ((
    b[6] as u64) << 8u64) | (b[7] as u64))
}

fn push_be_u32(out: &mut Vec<u8>, x: u32)
    ensures
        final(out)@ == old(out)@ + be_u32(x),
{
    out.push((x >> 24u32) as u8);
    out.push((x >> 16u32) as u8);
    out.push((x >> 8u32) as u8);
    out.push(x as u8);
    assert(out@ =~= old(out)@ + be_u32(x));
}

fn push_be_u64(out: &mut Vec<u8>, x: u64)
    ensures
        final(out)@ == old(out)@ + be_u64(x),
{
    out.push((x >> 56u64) as u8);
    out.push((x >> 48u64) as u8);
    out.push((x >> 40u64) as u8);
    out.push((x >> 32u64) as u8);
    out.push((x >> 24u64) as u8);
    out.push((x >> 16u64) as u8);
    out.push((x >> 8u64) as u8);
    out.push(x as u8);
    assert(out@ =~= old(out)@ + be_u64(x));
}

/// The delivered seeds' big-endian bytes, in submission order.
pub open spec fn seed_bytes(seeds: Seq<(Address, u64)>) -> Seq<u8>
    decreases seeds.len(),
{
    if seeds.len() == 0 {
        Seq::empty()
    } else {
        seed_bytes(seeds.drop_last()) + be_u64(seeds.last().1)
    }
}

/// The seed a quorum of oracle deliveries yields: 0 when there are none,
/// else the first eight bytes of the SHA-256 of their concatenation, read
/// big-endian.
pub open spec fn quorum_seed(seeds: Seq<(Address, u64)>) -> u64 {
    if seeds.len() == 0 {
        0
    } else {
        u64_from_be(sha256_of(seed_bytes(seeds))@)
    }
}

/// Aggregate multiple oracle seeds into a single deterministic seed.
///
/// Uses SHA-256 over the concatenation of all delivered seeds in submission
/// order. The first 8 bytes of the hash become the `u64` seed.
pub fn aggregate_quorum_seeds(env: &soroban_sdk::Env, seeds: &Vec<(Address, u64)>) -> (seed: u64)
    ensures
        seed == quorum_seed(seeds@),
{
    if seeds.len() == 0 {
        return 0u64;
    }
    let mut combined: Vec<u8> = Vec::new();
    let mut i: usize = 0;
    while i < seeds.len()
        invariant
            i <= seeds@.len(),
            combined@ == seed_bytes(seeds@.take(i as int)),
        decreases seeds@.len() - i,
    {
        push_be_u64(&mut combined, seeds[i].1);
        proof {
            assert(seeds@.take(i + 1).drop_last() == seeds@.take(i as int));
        }
        i = i + 1;
    }
    proof {
        assert(seeds@.take(seeds@.len() as int) == seeds@);
    }
    let digest = host_sha256(env, &combined);
    let seed = ((digest[0] as u64) << 56u64) | ((digest[1] as u64) << 48u64) | ((
    digest[2] as u64) << 40u64) | ((digest[3] as u64) << 32u64) | ((digest[4] as u64) << 24u64)
        | ((digest[5] as u64) << 16u64) | ((digest[6] as u64) << 8u64) | (digest[7] as u64);
    seed
}

/// The bytes a checkpoint digest covers: raffle count, ledger sequence and
/// ledger timestamp, big-endian.
pub open spec fn checkpoint_input(raffle_count: u32, ledger_sequence: u32, ledger_timestamp: u64) -> Seq<
    u8,
> {
    be_u32(raffle_count) + be_u32(ledger_sequence) + be_u64(ledger_timestamp)
}

/// The SHA-256 of the checkpoint input.
pub fn checkpoint_digest(
    env: &soroban_sdk::Env,
    raffle_count: u32,
    ledger_sequence: u32,
    ledger_timestamp: u64,
) -> (digest: [u8; 32])
    ensures
        digest == sha256_of(checkpoint_input(raffle_count, ledger_sequence, ledger_timestamp)),
{
    let mut input: Vec<u8> = Vec::new();
    push_be_u32(&mut input, raffle_count);
    push_be_u32(&mut input, ledger_sequence);
    push_be_u64(&mut input, ledger_timestamp);
    proof {
        assert(input@ =~= checkpoint_input(raffle_count, ledger_sequence, ledger_timestamp));
    }
    host_sha256(env, &input)
}

} // verus!
