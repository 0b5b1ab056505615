//! The immutable value-transfer record of the ledger. A transaction's
//! canonical serialization is a pure function of (sender, receiver, amount,
//! nonce); the same serialization feeds signing, the transaction content
//! hash, and the Merkle leaf hash, so a signature made over it can be checked
//! against the stored fields alone.

use vstd::prelude::*;

verus! {

use vstd::string::StringExecFns;
use vstd::utf8::encode_utf8;
use crate::encoding::{clone_bytes, dec_chars, push_dec_u64};
use crate::hashes::{keccak256, keccak256_of, sha256, sha256_of};
use crate::utils::{address_chars, public_key_to_address, recover_public_key, recover_pubkey_spec};

/// Whether the stored signature authenticates a transaction: the public key
/// recovered from the content hash and signature must yield the sender's or
/// receiver's address, and the amount must be non-zero.
pub open spec fn signature_ok_spec(t: TxView) -> bool {
    match recover_pubkey_spec(
        message_hash_of(t.sender, t.receiver, t.amount, t.nonce),
        t.signature,
    ) {
        Ok(pk) => (address_chars(pk) == t.sender || address_chars(pk) == t.receiver) && t.amount
            != 0,
        Err(_) => false,
    }
}

/// A signed transfer of `amount` from `sender` to `receiver`, with a
/// sender-scoped sequence `nonce` and a recoverable signature (64 compact
/// bytes followed by one recovery byte).
pub struct Transaction {
    sender: String,
    receiver: String,
    amount: u64,
    nonce: u64,
    signature: Vec<u8>,
}

/// The mathematical content of a transaction.
pub struct TxView {
    pub sender: Seq<char>,
    pub receiver: Seq<char>,
    pub amount: u64,
    pub nonce: u64,
    pub signature: Seq<u8>,
}

impl View for Transaction {
    type V = TxView;

    closed spec fn view(&self) -> TxView {
        TxView {
            sender: self.sender@,
            receiver: self.receiver@,
            amount: self.amount,
            nonce: self.nonce,
            signature: self.signature@,
        }
    }
}

impl DeepView for Transaction {
    type V = TxView;

    open spec fn deep_view(&self) -> TxView {
        self.view()
    }
}

/// The canonical serialization: sender, receiver, and the decimal renderings
/// of amount and nonce, concatenated.
pub open spec fn serial_chars(
    sender: Seq<char>,
    receiver: Seq<char>,
    amount: u64,
    nonce: u64,
) -> Seq<char> {
    sender + receiver + dec_chars(amount as int) + dec_chars(nonce as int)
}

/// The 32-byte content hash a transaction is signed over: Keccak-256 of the
/// UTF-8 bytes of the canonical serialization.
pub open spec fn message_hash_of(
    sender: Seq<char>,
    receiver: Seq<char>,
    amount: u64,
    nonce: u64,
) -> Seq<u8> {
    keccak256_of(encode_utf8(serial_chars(sender, receiver, amount, nonce)))
}

/// The Merkle leaf hash of a transaction: SHA-256 of the UTF-8 bytes of the
/// canonical serialization.
pub open spec fn leaf_hash_of(t: TxView) -> Seq<u8> {
    sha256_of(encode_utf8(serial_chars(t.sender, t.receiver, t.amount, t.nonce)))
}

impl Clone for Transaction {
    fn clone(&self) -> (r: Self)
        ensures
            r@ == self@,
    {
        Transaction {
            sender: self.sender.clone(),
            receiver: self.receiver.clone(),
            amount: self.amount,
            nonce: self.nonce,
            signature: clone_bytes(self.signature.as_slice()),
        }
    }
}

impl Transaction {
    /// Assembles a transaction from its parts.
    pub fn new(sender: String, receiver: String, amount: u64, nonce: u64, signature: Vec<u8>) -> (t:
        Transaction)
        ensures
            t@.sender == sender@,
            t@.receiver == receiver@,
            t@.amount == amount,
            t@.nonce == nonce,
            t@.signature == signature@,
    {
        Transaction { sender, receiver, amount, nonce, signature }
    }

    /// The canonical serialization of this transaction.
    pub fn serialize(&self) -> (s: String)
        ensures
            s@ == serial_chars(self@.sender, self@.receiver, self@.amount, self@.nonce),
    {
        let mut s = String::new();
        s.append(self.sender.as_str());
        s.append(self.receiver.as_str());
        push_dec_u64(&mut s, self.amount);
        push_dec_u64(&mut s, self.nonce);
        proof {
            assert(s@ =~= serial_chars(self@.sender, self@.receiver, self@.amount, self@.nonce));
        }
        s
    }

    /// The 32-byte content hash this transaction is signed over.
    pub(crate) fn calculate_hash(&self) -> (r: Vec<u8>)
        ensures
            r@ == message_hash_of(self@.sender, self@.receiver, self@.amount, self@.nonce),
            r@.len() == 32,
    {
        let s = self.serialize();
        keccak256(s.as_str().as_bytes())
    }

    /// The Merkle leaf hash of this transaction.
    pub fn leaf_hash(&self) -> (r: Vec<u8>)
        ensures
            r@ == leaf_hash_of(self@),
            r@.len() == 32,
    {
        let s = self.serialize();
        sha256(s.as_str().as_bytes())
    }

    /// Checks the stored signature: recomputes the content hash, recovers
    /// the signer's public key, derives its address, and accepts only if
    /// that address is the sender's or the receiver's and the amount is
    /// non-zero. A zero-amount transaction never verifies.
    pub fn verify_signature(&self) -> (r: bool)
        ensures
            r == signature_ok_spec(self@),
            self@.amount == 0 ==> !r,
    {
        let digest = self.calculate_hash();
        match recover_public_key(&digest, self.signature.as_slice()) {
            Ok(pk) => {
                let addr = public_key_to_address(&pk);
                let matches_sender = addr == self.sender;
                let matches_receiver = addr == self.receiver;
                (matches_sender || matches_receiver) && self.amount != 0
            },
            Err(_) => false,
        }
    }

    /// The sender address.
    pub fn get_sender(&self) -> (r: &str)
        ensures
            r@ == self@.sender,
    {
        self.sender.as_str()
    }

    /// The receiver address.
    pub fn get_receiver(&self) -> (r: &str)
        ensures
            r@ == self@.receiver,
    {
        self.receiver.as_str()
    }

    /// The transferred amount.
    pub fn get_amount(&self) -> (r: u64)
        ensures
            r == self@.amount,
    {
        self.amount
    }

    /// The sender-scoped sequence number.
    pub fn get_nonce(&self) -> (r: u64)
        ensures
            r == self@.nonce,
    {
        self.nonce
    }

    /// The stored signature bytes.
    pub fn get_signature(&self) -> (r: &[u8])
        ensures
            r@ == self@.signature,
    {
        self.signature.as_slice()
    }
}

} // verus!
