//! Transaction authentication: recoverable ECDSA signing over the canonical
//! serialization, public-key recovery from a stored signature, and
//! Ethereum-style address derivation from an uncompressed public key.
//!
//! The curve arithmetic itself comes from the secp256k1 crate; keys, digests,
//! and signatures cross into it as plain byte strings, and its results are
//! named by uninterpreted functions so that everything downstream is exact.

use vstd::prelude::*;

verus! {

use vstd::string::StringExecFns;
use crate::blockchain::BlockchainError;
use crate::encoding::{copy_range, hex_chars, lemma_hex_chars_len, push_char, push_dec_u64, push_hex};
use crate::hashes::{keccak256, keccak256_of};
use crate::transaction::{message_hash_of, serial_chars};

/// The uncompressed 65-byte serialization of the public key belonging to a
/// 32-byte secret key.
pub uninterp spec fn secp_pubkey_of(key: Seq<u8>) -> Seq<u8>;

/// Whether a byte string is a well-formed secp256k1 secret key (32 bytes
/// holding a scalar in range).
pub uninterp spec fn is_secp_secret_key(key: Seq<u8>) -> bool;

/// The (64-byte compact signature, recovery id) pair that deterministic
/// RFC 6979 signing produces for a secret key and a 32-byte message digest.
pub uninterp spec fn ecdsa_sign_of(key: Seq<u8>, msg: Seq<u8>) -> (Seq<u8>, u8);

/// The uncompressed public key that ECDSA recovery determines from a 32-byte
/// message digest, a 64-byte compact signature, and a recovery id, or `None`
/// when the signature bytes are malformed.
pub uninterp spec fn ecdsa_recover_of(msg: Seq<u8>, sig: Seq<u8>, recid: int) -> Option<Seq<u8>>;

/// Relies on secp256k1's `sign_ecdsa_recoverable`: with an RFC 6979 nonce the
/// signature is a pure function of key and digest, its compact form is 64
/// bytes with a recovery id in 0..=3, and `recover_ecdsa` determines from it
/// the public key of the signing key (`SecretKey::from_slice` rejects byte
/// strings that are not well-formed secret keys).
#[verifier::external_body]
fn ecdsa_sign_recoverable(key: &[u8], msg32: &[u8]) -> (r: Option<(Vec<u8>, u8)>)
    requires
        msg32@.len() == 32,
    ensures
        r is Some <==> is_secp_secret_key(key@),
        match r {
            Some(p) => {
                &&& (p.0@, p.1) == ecdsa_sign_of(key@, msg32@)
                &&& p.0@.len() == 64
                &&& p.1 <= 3
                &&& ecdsa_recover_of(msg32@, p.0@, p.1 as int) == Some(secp_pubkey_of(key@))
                &&& secp_pubkey_of(key@).len() == 65
            },
            None => true,
        },
{
    let sk = match secp256k1::SecretKey::from_slice(key) { Ok(k) => k, Err(_) => return None };
    let msg = match secp256k1::Message::from_digest_slice(msg32) { Ok(m) => m, Err(_) => return None };
    let secp = secp256k1::Secp256k1::new();
    let (recid, bytes) = secp.sign_ecdsa_recoverable(&msg, &sk).serialize_compact();
    Some((bytes.to_vec(), recid.to_i32() as u8))
}

/// Relies on secp256k1's `recover_ecdsa` (with `from_compact` parsing the
/// 64-byte compact form): determines the public key for which the signature
/// is valid for the digest, handed back uncompressed, or fails on malformed
/// signature bytes; a pure function of its inputs.
#[verifier::external_body]
fn ecdsa_recover(msg32: &[u8], sig64: &[u8], recid: u8) -> (r: Option<Vec<u8>>)
    requires
        msg32@.len() == 32,
        sig64@.len() == 64,
        recid <= 3,
    ensures
        match r {
            Some(pk) => {
                &&& ecdsa_recover_of(msg32@, sig64@, recid as int) == Some(pk@)
                &&& pk@.len() == 65
            },
            None => ecdsa_recover_of(msg32@, sig64@, recid as int) is None,
        },
{
    let msg = match secp256k1::Message::from_digest_slice(msg32) { Ok(m) => m, Err(_) => return None };
    let rid = match secp256k1::ecdsa::RecoveryId::from_i32(recid as i32) { Ok(r) => r, Err(_) => return None };
    let sig = match secp256k1::ecdsa::RecoverableSignature::from_compact(sig64, rid) { Ok(s) => s, Err(_) => return None };
    let secp = secp256k1::Secp256k1::new();
    match secp.recover_ecdsa(&msg, &sig) { Ok(pk) => Some(pk.serialize_uncompressed().to_vec()), Err(_) => None }
}

/// What public-key recovery makes of a stored signature: the signature must
/// be 65 bytes whose last byte is a recovery id offset by 27, and the curve
/// must accept the compact part; every failure is `InvalidSignature`.
pub open spec fn recover_pubkey_spec(msg: Seq<u8>, sig: Seq<u8>) -> Result<Seq<u8>, BlockchainError> {
    if msg.len() != 32 || sig.len() != 65 {
        Err(BlockchainError::InvalidSignature)
    } else if sig[64] < 27 || sig[64] > 30 {
        Err(BlockchainError::InvalidSignature)
    } else {
        match ecdsa_recover_of(msg, sig.take(64), sig[64] - 27) {
            Some(pk) => Ok(pk),
            None => Err(BlockchainError::InvalidSignature),
        }
    }
}

/// The "0x"-prefixed hexadecimal address derived from an uncompressed public
/// key: the lowercase hex rendering, two digits per byte, of the low 20
/// bytes of the Keccak-256 digest of the key without its leading format
/// byte.
pub open spec fn address_chars(pk: Seq<u8>) -> Seq<char> {
    seq!['0', 'x'] + hex_chars(keccak256_of(pk.skip(1)).skip(12))
}

/// Signs the canonical serialization of `(sender, receiver, amount, nonce)`
/// with `key`, handing back the 64-byte compact signature followed by the
/// recovery id offset by 27; `None` when `key` is not a well-formed secret
/// key. The signature it hands back recovers, via `recover_public_key`, to
/// exactly the public key of `key`.
pub fn sign_transaction(
    key: &Vec<u8>,
    sender: String,
    receiver: String,
    amount: u64,
    nonce: u64,
) -> (r: Option<Vec<u8>>)
    ensures
        r is Some <==> is_secp_secret_key(key@),
        match r {
            Some(sig) => {
                &&& sig@.len() == 65
                &&& recover_pubkey_spec(message_hash_of(sender@, receiver@, amount, nonce), sig@)
                    == Ok::<Seq<u8>, BlockchainError>(secp_pubkey_of(key@))
            },
            None => true,
        },
{
    let mut s = String::new();
    s.append(sender.as_str());
    s.append(receiver.as_str());
    push_dec_u64(&mut s, amount);
    push_dec_u64(&mut s, nonce);
    proof {
        assert(s@ =~= serial_chars(sender@, receiver@, amount, nonce));
    }
    let h = keccak256(s.as_str().as_bytes());
    match ecdsa_sign_recoverable(key.as_slice(), h.as_slice()) {
        None => None,
        Some(p) => {
            let (mut sig, recid) = p;
            let ghost sig64 = sig@;
            sig.push(recid + 27);
            proof {
                assert(sig@.take(64) =~= sig64);
                assert(sig@[64] == recid + 27);
            }
            Some(sig)
        },
    }
}

/// Recovers the uncompressed public key from a 32-byte message digest and a
/// stored 65-byte signature; `InvalidSignature` exactly when the digest or
/// signature bytes are malformed or the curve rejects them.
pub fn recover_public_key(msg_hash: &Vec<u8>, sig: &[u8]) -> (r: Result<Vec<u8>, BlockchainError>)
    ensures
        match r {
            Ok(pk) => {
                &&& recover_pubkey_spec(msg_hash@, sig@) == Ok::<Seq<u8>, BlockchainError>(pk@)
                &&& pk@.len() == 65
            },
            Err(e) => recover_pubkey_spec(msg_hash@, sig@) == Err::<Seq<u8>, BlockchainError>(e),
        },
{
    if msg_hash.len() != 32 {
        return Err(BlockchainError::InvalidSignature);
    }
    if sig.len() != 65 {
        return Err(BlockchainError::InvalidSignature);
    }
    let recbyte: u8 = sig[64];
    if recbyte < 27 || recbyte > 30 {
        return Err(BlockchainError::InvalidSignature);
    }
    let sig64 = copy_range(sig, 0, 64);
    proof {
        assert(sig64@ =~= sig@.take(64));
    }
    match ecdsa_recover(msg_hash.as_slice(), sig64.as_slice(), recbyte - 27) {
        Some(pk) => Ok(pk),
        None => Err(BlockchainError::InvalidSignature),
    }
}

/// Formats the address of an uncompressed 65-byte public key: "0x" followed
/// by the lowercase hexadecimal rendering of the low 20 bytes of the
/// Keccak-256 digest of the key without its leading format byte.
pub fn public_key_to_address(public_key: &Vec<u8>) -> (s: String)
    requires
        public_key@.len() == 65,
    ensures
        s@ == address_chars(public_key@),
        s@.len() == 42,
{
    let tail = copy_range(public_key.as_slice(), 1, 65);
    proof {
        assert(tail@ =~= public_key@.skip(1));
    }
    let h = keccak256(tail.as_slice());
    let low = copy_range(h.as_slice(), 12, 32);
    proof {
        assert(low@ =~= keccak256_of(public_key@.skip(1)).skip(12));
    }
    let mut s = String::new();
    push_char(&mut s, '0');
    push_char(&mut s, 'x');
    push_hex(&mut s, low.as_slice());
    proof {
        assert(s@ =~= address_chars(public_key@));
        lemma_hex_chars_len(low@);
    }
    s
}

} // verus!
