//! The Ethereum address of a tECDSA public key.
//!
//! The key is parsed and decompressed by `k256` and hashed by Keccak-256 (both
//! behind trusted calls); the address is the last 20 bytes of the hash, written
//! with its EIP-55 checksum.

use vstd::prelude::*;

use alloy::signers::k256::elliptic_curve::sec1::ToEncodedPoint;

use crate::address::{address_to_string, checksummed_text, Address};
use crate::error::{ManagerError, ManagerResult};
use crate::uint::be_value;

verus! {

/// The uncompressed SEC1 encoding of the secp256k1 public key that `pubkey`
/// encodes (in either SEC1 form), or `None` if it encodes none.
pub uninterp spec fn sec1_uncompressed(pubkey: Seq<u8>) -> Option<Seq<u8>>;

/// `k256::PublicKey::from_sec1_bytes` followed by `to_encoded_point(false)`.
/// Claimed: `None` exactly where parsing fails; otherwise the encoding that
/// `sec1_uncompressed` names, which (as SEC1 and the source show for a point
/// other than the identity, which a public key never is) is the tag byte 4 and
/// the two 32-byte coordinates.
#[verifier::external_body]
fn uncompressed_public_key(pubkey: &[u8]) -> (r: Option<Vec<u8>>)
    ensures
        r is Some <==> sec1_uncompressed(pubkey@) is Some,
        r matches Some(p) ==> sec1_uncompressed(pubkey@) == Some(p@) && p@.len() == 65 && p@[0] == 4u8,
{
    match alloy::signers::k256::PublicKey::from_sec1_bytes(pubkey) {
        Ok(key) => Some(key.to_encoded_point(false).as_bytes().to_vec()),
        Err(_) => None,
    }
}

/// The Keccak-256 hash of the bytes.
pub uninterp spec fn keccak256_hash(bytes: Seq<u8>) -> Seq<u8>;

/// `alloy_primitives::keccak256`. Claimed: the 32-byte hash that `keccak256_hash`
/// names.
#[verifier::external_body]
fn keccak256(bytes: &[u8]) -> (r: Vec<u8>)
    ensures
        r@ == keccak256_hash(bytes@),
        r@.len() == 32,
{
    alloy_primitives::keccak256(bytes).to_vec()
}

/// `256^n`.
pub open spec fn byte_range(n: nat) -> nat
    decreases n,
{
    if n == 0 {
        1
    } else {
        256 * byte_range((n - 1) as nat)
    }
}

proof fn lemma_be_value_bound(bytes: Seq<u8>)
    ensures
        be_value(bytes) < byte_range(bytes.len()),
    decreases bytes.len(),
{
    if bytes.len() > 0 {
        lemma_be_value_bound(bytes.drop_last());
        let v = be_value(bytes.drop_last());
        let b = byte_range((bytes.len() - 1) as nat);
        assert(v * 256 + bytes.last() < b * 256) by (nonlinear_arith)
            requires
                v < b,
                bytes.last() < 256,
        ;
    }
}

/// The 20-byte address that the bytes spell, most significant first.
pub fn address_from_bytes(bytes: &[u8]) -> (r: Address)
    requires
        bytes@.len() == 20,
    ensures
        r.hi == be_value(bytes@.subrange(0, 4)),
        r.lo == be_value(bytes@.subrange(4, 20)),
{
    let mut hi: u32 = 0;
    for i in 0..4
        invariant
            bytes@.len() == 20,
            hi == be_value(bytes@.subrange(0, i as int)),
    {
        proof {
            let s = bytes@.subrange(0, i + 1);
            assert(s.drop_last() =~= bytes@.subrange(0, i as int));
            lemma_be_value_bound(s);
            lemma_byte_range_mono(s.len(), 4);
            reveal_with_fuel(byte_range, 5);
            assert(byte_range(4) == 4294967296);
        }
        hi = hi * 256 + bytes[i] as u32;
    }
    let mut lo: u128 = 0;
    for i in 4..20
        invariant
            bytes@.len() == 20,
            4 <= i <= 20,
            lo == be_value(bytes@.subrange(4, i as int)),
    {
        proof {
            let s = bytes@.subrange(4, i + 1);
            assert(s.drop_last() =~= bytes@.subrange(4, i as int));
            lemma_be_value_bound(s);
            lemma_byte_range_16(s.len());
        }
        lo = lo * 256 + bytes[i] as u128;
    }
    Address { hi, lo }
}

proof fn lemma_byte_range_16(n: nat)
    requires
        n <= 16,
    ensures
        byte_range(n) <= 0x1_0000_0000_0000_0000_0000_0000_0000_0000,
{
    lemma_byte_range_mono(n, 16);
    reveal_with_fuel(byte_range, 17);
    assert(byte_range(16) == 0x1_0000_0000_0000_0000_0000_0000_0000_0000);
}

proof fn lemma_byte_range_mono(a: nat, b: nat)
    requires
        a <= b,
    ensures
        byte_range(a) <= byte_range(b),
    decreases b,
{
    if a < b {
        lemma_byte_range_mono(a, (b - 1) as nat);
    }
}

/// The checksummed address of the public key whose uncompressed encoding is
/// `point`: the last 20 bytes of the Keccak-256 hash of the coordinates.
pub open spec fn address_text_of_point(point: Seq<u8>) -> Seq<char> {
    let hash = keccak256_hash(point.subrange(1, point.len() as int));
    let address = hash.subrange(12, 32);
    checksummed_text(be_value(address.subrange(0, 4)) as u32, be_value(address.subrange(4, 20)) as u128)
}

/// Converts the public key bytes to an Ethereum address with a checksum.
/// The key must parse.
pub fn pubkey_bytes_to_address(pubkey_bytes: &[u8]) -> (r: String)
    requires
        sec1_uncompressed(pubkey_bytes@) is Some,
    ensures
        r@ == address_text_of_point(sec1_uncompressed(pubkey_bytes@)->0),
{
    match uncompressed_public_key(pubkey_bytes) {
        Some(point) => {
            let n = point.len();
            let mut coordinates: Vec<u8> = Vec::new();
            for i in 1..n
                invariant
                    n == point@.len(),
                    n == 65,
                    coordinates@ == point@.subrange(1, i as int),
            {
                coordinates.push(point[i]);
                proof {
                    assert(point@.subrange(1, i + 1) =~= point@.subrange(1, i as int).push(point@[i as int]));
                }
            }
            let hash = keccak256(coordinates.as_slice());
            let mut address_bytes: Vec<u8> = Vec::new();
            for i in 12..32
                invariant
                    hash@.len() == 32,
                    12 <= i <= 32,
                    address_bytes@ == hash@.subrange(12, i as int),
            {
                address_bytes.push(hash[i]);
                proof {
                    assert(hash@.subrange(12, i + 1) =~= hash@.subrange(12, i as int).push(hash@[i as int]));
                }
            }
            let address = address_from_bytes(address_bytes.as_slice());
            address_to_string(&address)
        },
        None => {
            proof {
                assert(false);
            }
            String::new()
        },
    }
}

/// The checksummed address of the public key, or `None` if the bytes do not
/// encode a secp256k1 public key.
pub fn try_pubkey_bytes_to_address(pubkey_bytes: &[u8]) -> (r: Option<String>)
    ensures
        sec1_uncompressed(pubkey_bytes@) is None ==> r is None,
        sec1_uncompressed(pubkey_bytes@) matches Some(point) ==> (r matches Some(t) && t@ == address_text_of_point(
            point,
        )),
{
    match uncompressed_public_key(pubkey_bytes) {
        Some(_) => Some(pubkey_bytes_to_address(pubkey_bytes)),
        None => None,
    }
}

/// The order of the secp256k1 group.
pub open spec fn secp256k1_order() -> nat {
    0xFFFFFFFFFFFFFFFFFFFFFFFFFFFFFFFEBAAEDCE6AF48A03BBFD25E8CD0364141nat
}

/// The bytes are a fixed-width ECDSA signature over secp256k1: 64 bytes, `r`
/// then `s`, each big-endian and in `1..n`.
pub open spec fn is_signature_bytes(sig: Seq<u8>) -> bool {
    &&& sig.len() == 64
    &&& 0 < be_value(sig.subrange(0, 32)) < secp256k1_order()
    &&& 0 < be_value(sig.subrange(32, 64)) < secp256k1_order()
}

/// `k256::ecdsa::Signature::try_from(&[u8])`, asked only whether it succeeds.
/// Claimed, as the `ecdsa` source documents `from_slice` and `from_bytes`: it
/// succeeds exactly on 64 bytes whose halves lie in `1..n`.
#[verifier::external_body]
fn signature_parses(sig: &[u8]) -> (r: bool)
    ensures
        r == is_signature_bytes(sig@),
{
    alloy::signers::k256::ecdsa::Signature::try_from(sig).is_ok()
}

/// The uncompressed SEC1 encoding of the key that
/// `VerifyingKey::recover_from_prehash` recovers from the prehash and the
/// signature with the given `y` parity, or `None` where it fails.
pub uninterp spec fn recovered_key(prehash: Seq<u8>, sig: Seq<u8>, y_odd: bool) -> Option<Seq<u8>>;

/// `k256::ecdsa::VerifyingKey::recover_from_prehash` with the recovery id of
/// the given parity, the key then written by `to_encoded_point(false)`.
/// Claimed: the result that `recovered_key` names. Two keys are equal exactly
/// when these encodings are (the encoding of a point other than the identity
/// is its two coordinates), which is how the caller compares keys.
#[verifier::external_body]
fn recover_key(prehash: &[u8], sig: &[u8], y_odd: bool) -> (r: Option<Vec<u8>>)
    requires
        is_signature_bytes(sig@),
    ensures
        r matches Some(p) ==> recovered_key(prehash@, sig@, y_odd) == Some(p@),
        r is None ==> recovered_key(prehash@, sig@, y_odd) is None,
{
    let signature = match alloy::signers::k256::ecdsa::Signature::try_from(sig) {
        Ok(signature) => signature,
        Err(_) => return None,
    };
    let recid = alloy::signers::k256::ecdsa::RecoveryId::new(y_odd, false);
    match alloy::signers::k256::ecdsa::VerifyingKey::recover_from_prehash(prehash, &signature, recid) {
        Ok(key) => Some(key.to_encoded_point(false).as_bytes().to_vec()),
        Err(_) => None,
    }
}

/// Whether two byte strings are equal.
pub fn bytes_equal(a: &[u8], b: &[u8]) -> (r: bool)
    ensures
        r == (a@ == b@),
{
    if a.len() != b.len() {
        return false;
    }
    let mut i: usize = 0;
    while i < a.len()
        invariant
            a@.len() == b@.len(),
            i <= a@.len(),
            forall|j: int| 0 <= j < i ==> a@[j] == b@[j],
        decreases a@.len() - i,
    {
        if a[i] != b[i] {
            return false;
        }
        i = i + 1;
    }
    proof {
        assert(a@ =~= b@);
    }
    true
}

/// The inputs on which the parity is found without a fatal failure: the public key parses, and where the signature
/// parses, recovery with even parity succeeds and, unless it gives the key,
/// recovery with odd parity gives it.
pub open spec fn parity_recoverable(prehash: Seq<u8>, sig: Seq<u8>, pubkey: Seq<u8>) -> bool {
    &&& sec1_uncompressed(pubkey) is Some
    &&& is_signature_bytes(sig) ==> {
        &&& recovered_key(prehash, sig, false) is Some
        &&& recovered_key(prehash, sig, false) != sec1_uncompressed(pubkey) ==> recovered_key(prehash, sig, true)
            == sec1_uncompressed(pubkey)
    }
}

/// The parity bit that recovers `pubkey` from the signature: `true` for odd.
/// A signature that does not parse is `NonExistentValue`.
pub open spec fn parity_of(prehash: Seq<u8>, sig: Seq<u8>, pubkey: Seq<u8>) -> ManagerResult<bool> {
    if !is_signature_bytes(sig) {
        Err(ManagerError::NonExistentValue)
    } else {
        Ok(recovered_key(prehash, sig, false) != sec1_uncompressed(pubkey))
    }
}

/// Computes the parity bit allowing to recover the public key from the
/// signature. The key must parse, recovery must succeed, and one parity must
/// give the key.
pub fn y_parity(prehash: &[u8], sig: &[u8], pubkey: &[u8]) -> (r: ManagerResult<bool>)
    requires
        parity_recoverable(prehash@, sig@, pubkey@),
    ensures
        r == parity_of(prehash@, sig@, pubkey@),
{
    let expected = match uncompressed_public_key(pubkey) {
        Some(p) => p,
        None => {
            proof {
                assert(false);
            }
            return Err(ManagerError::NonExistentValue);
        },
    };
    if !signature_parses(sig) {
        return Err(ManagerError::NonExistentValue);
    }
    let even = match recover_key(prehash, sig, false) {
        Some(k) => k,
        None => {
            proof {
                assert(false);
            }
            return Err(ManagerError::NonExistentValue);
        },
    };
    Ok(!bytes_equal(even.as_slice(), expected.as_slice()))
}

/// The parity bit, or `None` where the key does not parse, recovery fails or
/// neither parity gives the key.
pub fn try_y_parity(prehash: &[u8], sig: &[u8], pubkey: &[u8]) -> (r: Option<ManagerResult<bool>>)
    ensures
        parity_recoverable(prehash@, sig@, pubkey@) ==> r == Some(parity_of(prehash@, sig@, pubkey@)),
        !parity_recoverable(prehash@, sig@, pubkey@) ==> r is None,
{
    let expected = match uncompressed_public_key(pubkey) {
        Some(p) => p,
        None => return None,
    };
    if !signature_parses(sig) {
        return Some(Err(ManagerError::NonExistentValue));
    }
    let even = match recover_key(prehash, sig, false) {
        Some(k) => k,
        None => return None,
    };
    if bytes_equal(even.as_slice(), expected.as_slice()) {
        return Some(Ok(false));
    }
    match recover_key(prehash, sig, true) {
        Some(odd) => {
            if bytes_equal(odd.as_slice(), expected.as_slice()) {
                Some(Ok(true))
            } else {
                None
            }
        },
        None => None,
    }
}

} // verus!
