//! The chain itself: blocks, hash linkage, difficulty checking, validation,
//! append, transaction lookup, and proof-of-work mining.
//!
//! A block's content hash is SHA-256 over the decimal renderings of its
//! index and timestamp, its Merkle root, its predecessor's hash, and the
//! big-endian bytes of its nonce, rendered as a lowercase hex string. The
//! chain accepts a candidate block only when its index, predecessor hash,
//! stored hash, and difficulty all check out, so a chain grown through
//! `add_block` alone always validates.

use vstd::prelude::*;

verus! {

use vstd::utf8::encode_utf8;
use crate::encoding::{
    be_bytes_u64,
    bytes_equal,
    clone_bytes,
    dec_chars,
    hex_chars,
    lemma_hex_chars_len,
    push_be_bytes_u64,
    push_dec_u128,
    push_dec_u64,
    push_hex,
};
use crate::hashes::{sha256, sha256_of};
use crate::merkle::{
    all_len_32,
    build_proof,
    merkle_root,
    proof_of,
    proof_verifies,
    root_of,
    verify_proof,
};
use crate::transaction::{leaf_hash_of, Transaction, TxView};

/// Everything that can go wrong while validating or extending the chain.
#[derive(Debug, Clone, PartialEq, Eq)]
pub enum BlockchainError {
    /// The transaction list handed to the Merkle commitment was unusable.
    MerkleRootError(String),
    /// A block failed the hash, linkage, or difficulty rules.
    BlockInvalid(String),
    /// An inclusion proof could not be built or checked.
    MerkleProofError(String),
    /// The chain as a whole failed validation.
    ChainInvalid,
    /// The transaction is in no block of the chain.
    TransactionNotFound,
    /// A signature's bytes or recovery id are malformed.
    InvalidSignature,
}

/// One block: an immutable header over an ordered transaction batch.
pub struct Block {
    index: u128,
    timestamp: u64,
    merkle_root: Vec<u8>,
    data: Vec<Transaction>,
    previous_hash: String,
    hash: String,
    nonce: u64,
}

/// The mathematical content of a block.
pub struct BlockView {
    pub index: u128,
    pub timestamp: u64,
    pub merkle_root: Seq<u8>,
    pub data: Seq<TxView>,
    pub previous_hash: Seq<char>,
    pub hash: Seq<char>,
    pub nonce: u64,
}

impl View for Block {
    type V = BlockView;

    closed spec fn view(&self) -> BlockView {
        BlockView {
            index: self.index,
            timestamp: self.timestamp,
            merkle_root: self.merkle_root@,
            data: self.data.deep_view(),
            previous_hash: self.previous_hash@,
            hash: self.hash@,
            nonce: self.nonce,
        }
    }
}

impl DeepView for Block {
    type V = BlockView;

    open spec fn deep_view(&self) -> BlockView {
        self.view()
    }
}

/// The chain of blocks together with the mining difficulty.
pub struct Blockchain {
    chain: Vec<Block>,
    difficulty: usize,
}

/// The mathematical content of a blockchain.
pub struct ChainView {
    pub blocks: Seq<BlockView>,
    pub difficulty: int,
}

impl View for Blockchain {
    type V = ChainView;

    closed spec fn view(&self) -> ChainView {
        ChainView { blocks: self.chain.deep_view(), difficulty: self.difficulty as int }
    }
}

/// The hex rendering of the content hash of a block header with the given
/// fields; the hash covers neither the transaction list nor the stored hash.
#[verifier::opaque]
pub open spec fn header_hash_chars(
    index: u128,
    timestamp: u64,
    merkle_root: Seq<u8>,
    previous_hash: Seq<char>,
    nonce: u64,
) -> Seq<char> {
    hex_chars(
        sha256_of(
            encode_utf8(dec_chars(index as int)) + encode_utf8(dec_chars(timestamp as int))
                + merkle_root + encode_utf8(previous_hash) + be_bytes_u64(nonce),
        ),
    )
}

/// The content hash of a block, recomputed from its fields.
pub open spec fn block_hash_chars(b: BlockView) -> Seq<char> {
    header_hash_chars(b.index, b.timestamp, b.merkle_root, b.previous_hash, b.nonce)
}

/// Whether a hash rendering clears the difficulty target: at least `d`
/// leading zero hex digits.
pub open spec fn meets_difficulty(h: Seq<char>, d: int) -> bool {
    d <= h.len() && (forall|j: int| 0 <= j < d ==> h[j] == '0')
}

/// The Merkle leaf hashes of a transaction batch, in batch order.
pub open spec fn leaf_hashes_of(data: Seq<TxView>) -> Seq<Seq<u8>> {
    Seq::new(data.len(), |i: int| leaf_hash_of(data[i]))
}

/// A well-formed chain: non-empty, indices equal to positions, every stored
/// hash equal to the recomputed one, every block after the genesis linked to
/// its predecessor's hash and clearing the difficulty target.
pub open spec fn chain_wf(c: Seq<BlockView>, d: int) -> bool {
    &&& 1 <= c.len() <= u128::MAX + 1
    &&& (forall|i: int| 0 <= i < c.len() ==> (#[trigger] c[i]).index == i as u128)
    &&& (forall|i: int| 0 <= i < c.len() ==> (#[trigger] c[i]).hash == block_hash_chars(c[i]))
    &&& (forall|i: int|
        1 <= i < c.len() ==> (#[trigger] c[i]).previous_hash == block_hash_chars(c[i - 1]))
    &&& (forall|i: int|
        1 <= i < c.len() ==> meets_difficulty(block_hash_chars(#[trigger] c[i]), d))
}

/// The pairwise rule `is_blockpair_valid` checks: a pair whose older block
/// is the genesis always passes; otherwise the indices must be consecutive,
/// the older block's recomputed hash must clear the difficulty target, and
/// the newer block must link to it.
pub open spec fn pair_ok(newer: BlockView, older: BlockView, d: int) -> bool {
    ||| older.index == 0
    ||| {
        &&& newer.index == older.index + 1
        &&& meets_difficulty(block_hash_chars(older), d)
        &&& newer.previous_hash == block_hash_chars(older)
    }
}

/// What `is_chain_valid` decides: an empty chain passes vacuously, a lone
/// genesis block passes, a lone non-genesis block must clear the difficulty
/// target, and a longer chain must pass every pairwise check with its tail
/// block clearing the difficulty target.
pub open spec fn chain_valid_spec(c: Seq<BlockView>, d: int) -> bool {
    if c.len() == 0 {
        true
    } else if c.len() == 1 {
        c[0].index == 0 || meets_difficulty(block_hash_chars(c[0]), d)
    } else {
        (forall|i: int| 1 <= i < c.len() ==> pair_ok(#[trigger] c[i], c[i - 1], d))
            && meets_difficulty(block_hash_chars(c[c.len() - 1]), d)
    }
}

/// What `add_block` demands of a candidate: a predecessor to follow,
/// a consecutive index, a hash that clears the difficulty target, linkage to
/// the predecessor's recomputed hash, and a stored hash equal to the
/// recomputed one.
pub open spec fn append_ok(c: Seq<BlockView>, d: int, b: BlockView) -> bool {
    &&& c.len() >= 1
    &&& b.index == c.last().index + 1
    &&& meets_difficulty(block_hash_chars(b), d)
    &&& b.previous_hash == block_hash_chars(c.last())
    &&& b.hash == block_hash_chars(b)
}

/// Whether some block of `c` holds a transaction with signature `sig` at
/// position `(b, t)`.
pub open spec fn tx_located_at(c: Seq<BlockView>, sig: Seq<u8>, b: int, t: int) -> bool {
    &&& 0 <= b < c.len()
    &&& 0 <= t < c[b].data.len()
    &&& c[b].data[t].signature == sig
}

/// Whether any block of `c` holds a transaction with signature `sig`.
pub open spec fn tx_in_chain(c: Seq<BlockView>, sig: Seq<u8>) -> bool {
    exists|b: int, t: int| #[trigger] tx_located_at(c, sig, b, t)
}

/// Hash determinism: a block's recomputed hash depends on its header fields
/// alone (index, timestamp, Merkle root, previous hash, nonce), so blocks
/// with equal header fields hash identically, whatever their batches or
/// stored hashes say.
pub proof fn lemma_hash_determinism(a: BlockView, b: BlockView)
    requires
        a.index == b.index,
        a.timestamp == b.timestamp,
        a.merkle_root == b.merkle_root,
        a.previous_hash == b.previous_hash,
        a.nonce == b.nonce,
    ensures
        block_hash_chars(a) == block_hash_chars(b),
{
}

/// A chain that is well-formed validates: every consecutive pair passes the
/// pairwise rule and the tail clears the difficulty target.
pub proof fn lemma_wf_chain_is_valid(c: Seq<BlockView>, d: int)
    requires
        chain_wf(c, d),
    ensures
        chain_valid_spec(c, d),
{
    if c.len() > 1 {
        assert forall|i: int| 1 <= i < c.len() implies pair_ok(#[trigger] c[i], c[i - 1], d) by {
            assert(c[i].index == i as u128);
            assert(c[i - 1].index == (i - 1) as u128);
        }
        assert(meets_difficulty(block_hash_chars(c[c.len() - 1]), d));
    }
}

/// An independent copy of a transaction batch.
pub(crate) fn clone_transactions(v: &Vec<Transaction>) -> (r: Vec<Transaction>)
    ensures
        r.deep_view() == v.deep_view(),
        r@.len() == v@.len(),
{
    let mut r: Vec<Transaction> = Vec::new();
    let n: usize = v.len();
    let mut i: usize = 0;
    proof {
        assert(r.deep_view() =~= v.deep_view().take(0));
    }
    while i < n
        invariant
            n == v@.len(),
            i <= n,
            r@.len() == i,
            r.deep_view() == v.deep_view().take(i as int),
        decreases n - i,
    {
        let c = v[i].clone();
        proof {
            assert(c.deep_view() == v.deep_view()[i as int]);
        }
        r.push(c);
        proof {
            assert(r.deep_view() =~= v.deep_view().take(i + 1));
        }
        i = i + 1;
    }
    proof {
        assert(v.deep_view().take(n as int) =~= v.deep_view());
    }
    r
}

/// The Merkle leaf hashes of a transaction batch, as executable code.
fn build_leaves(tx_list: &Vec<Transaction>) -> (r: Vec<Vec<u8>>)
    ensures
        r.deep_view() == leaf_hashes_of(tx_list.deep_view()),
        r@.len() == tx_list@.len(),
        all_len_32(r@),
{
    let mut r: Vec<Vec<u8>> = Vec::new();
    let n: usize = tx_list.len();
    let mut i: usize = 0;
    proof {
        assert(r.deep_view() =~= leaf_hashes_of(tx_list.deep_view()).take(0));
    }
    while i < n
        invariant
            n == tx_list@.len(),
            i <= n,
            r@.len() == i,
            r.deep_view() == leaf_hashes_of(tx_list.deep_view()).take(i as int),
            forall|k: int| 0 <= k < i ==> (#[trigger] r@[k])@.len() == 32,
        decreases n - i,
    {
        let leaf = tx_list[i].leaf_hash();
        proof {
            assert(leaf.deep_view() =~= leaf@);
            assert(tx_list.deep_view()[i as int] == tx_list@[i as int]@);
            assert(leaf@ == leaf_hashes_of(tx_list.deep_view())[i as int]);
        }
        r.push(leaf);
        proof {
            assert(r.deep_view() =~= leaf_hashes_of(tx_list.deep_view()).take(i + 1));
        }
        i = i + 1;
    }
    proof {
        assert(leaf_hashes_of(tx_list.deep_view()).take(n as int) =~= leaf_hashes_of(
            tx_list.deep_view(),
        ));
    }
    r
}

/// Relies on `std::time::SystemTime::now`: seconds since the Unix epoch, or
/// zero if the clock reports an earlier time. The result depends on the
/// clock, so nothing is promised of it.
#[verifier::external_body]
pub(crate) fn now_unix_seconds() -> u64 {
    match std::time::SystemTime::now().duration_since(std::time::UNIX_EPOCH) {
        Ok(d) => d.as_secs(),
        Err(_) => 0,
    }
}

/// Whether a hash rendering clears a difficulty target, as executable code.
fn hash_meets(hash: &str, difficulty: usize) -> (r: bool)
    ensures
        r == meets_difficulty(hash@, difficulty as int),
{
    let n = hash.unicode_len();
    if difficulty > n {
        return false;
    }
    let mut j: usize = 0;
    while j < difficulty
        invariant
            j <= difficulty <= hash@.len(),
            forall|k: int| 0 <= k < j ==> hash@[k] == '0',
        decreases difficulty - j,
    {
        if hash.get_char(j) != '0' {
            return false;
        }
        j = j + 1;
    }
    true
}

/// The content hash of a block header, as executable code: SHA-256 over the
/// decimal index, decimal timestamp, Merkle root bytes, previous hash text,
/// and big-endian nonce, rendered in lowercase hex.
fn header_hash(
    index: u128,
    timestamp: u64,
    merkle_root: &Vec<u8>,
    previous_hash: &str,
    nonce: u64,
) -> (s: String)
    ensures
        s@ == header_hash_chars(index, timestamp, merkle_root@, previous_hash@, nonce),
        s@.len() == 64,
{
    let mut msg: Vec<u8> = Vec::new();
    let mut index_text = String::new();
    push_dec_u128(&mut index_text, index);
    msg.extend_from_slice(index_text.as_str().as_bytes());
    let mut timestamp_text = String::new();
    push_dec_u64(&mut timestamp_text, timestamp);
    msg.extend_from_slice(timestamp_text.as_str().as_bytes());
    msg.extend_from_slice(merkle_root.as_slice());
    msg.extend_from_slice(previous_hash.as_bytes());
    push_be_bytes_u64(&mut msg, nonce);
    proof {
        reveal(header_hash_chars);
        assert(msg@ =~= encode_utf8(dec_chars(index as int)) + encode_utf8(
            dec_chars(timestamp as int),
        ) + merkle_root@ + encode_utf8(previous_hash@) + be_bytes_u64(nonce));
    }
    let digest = sha256(msg.as_slice());
    let mut s = String::new();
    push_hex(&mut s, digest.as_slice());
    proof {
        assert(s@ =~= header_hash_chars(index, timestamp, merkle_root@, previous_hash@, nonce));
        lemma_hex_chars_len(digest@);
    }
    s
}

impl Clone for Block {
    fn clone(&self) -> (r: Self)
        ensures
            r@ == self@,
    {
        Block {
            index: self.index,
            timestamp: self.timestamp,
            merkle_root: clone_bytes(self.merkle_root.as_slice()),
            data: clone_transactions(&self.data),
            previous_hash: self.previous_hash.clone(),
            hash: self.hash.clone(),
            nonce: self.nonce,
        }
    }
}

impl Block {
    /// Recomputes this block's content hash from its fields: SHA-256 over
    /// the decimal index, decimal timestamp, Merkle root bytes, previous
    /// hash text, and big-endian nonce, rendered in lowercase hex.
    pub fn calculate_hash(&self) -> (s: String)
        ensures
            s@ == block_hash_chars(self@),
            s@.len() == 64,
    {
        header_hash(
            self.index,
            self.timestamp,
            &self.merkle_root,
            self.previous_hash.as_str(),
            self.nonce,
        )
    }

    /// The block's position in the chain.
    pub fn get_index(&self) -> (r: u128)
        ensures
            r == self@.index,
    {
        self.index
    }

    /// The block's creation time, in Unix seconds.
    pub fn get_timestamp(&self) -> (r: u64)
        ensures
            r == self@.timestamp,
    {
        self.timestamp
    }

    /// The block's transaction batch.
    pub fn get_data_raw(&self) -> (r: &Vec<Transaction>)
        ensures
            r.deep_view() == self@.data,
    {
        &self.data
    }

    /// The block's Merkle root over its transaction batch.
    pub fn get_merkle_root(&self) -> (r: &Vec<u8>)
        ensures
            r@ == self@.merkle_root,
    {
        &self.merkle_root
    }

    /// The block's stored content hash.
    pub fn get_hash(&self) -> (r: &str)
        ensures
            r@ == self@.hash,
    {
        self.hash.as_str()
    }

    /// The stored hash of the predecessor block.
    pub fn get_previous_hash(&self) -> (r: &str)
        ensures
            r@ == self@.previous_hash,
    {
        self.previous_hash.as_str()
    }

    /// The proof-of-work nonce.
    pub fn get_nonce(&self) -> (r: u64)
        ensures
            r == self@.nonce,
    {
        self.nonce
    }
}

impl Blockchain {
    /// A well-formed blockchain, as maintained by every constructor and
    /// mutation of this type.
    pub open spec fn wf(&self) -> bool {
        chain_wf(self@.blocks, self@.difficulty)
    }

    /// A fresh chain holding only the genesis block, at the fixed initial
    /// difficulty of four leading zero hex digits.
    pub fn new() -> (bc: Blockchain)
        ensures
            bc.wf(),
            bc@.blocks.len() == 1,
            bc@.difficulty == 4,
            bc@.blocks[0].index == 0,
            bc@.blocks[0].nonce == 0,
            bc@.blocks[0].previous_hash == "0"@,
            bc@.blocks[0].data.len() == 1,
            bc@.blocks[0].data[0].sender == "me"@,
            bc@.blocks[0].data[0].receiver == "me"@,
            bc@.blocks[0].data[0].amount == 10,
            bc@.blocks[0].data[0].signature == encode_utf8("coinbase"@),
            bc@.blocks[0].merkle_root == root_of(leaf_hashes_of(bc@.blocks[0].data)),
    {
        let genesis = Self::create_genesis_block();
        let mut chain: Vec<Block> = Vec::new();
        chain.push(genesis);
        let bc = Blockchain { chain, difficulty: 4 };
        proof {
            assert(bc@.blocks.len() == 1);
            assert(chain_wf(bc@.blocks, bc@.difficulty));
        }
        bc
    }

    /// The synthetic first block: one coinbase-style transaction, the
    /// sentinel previous hash "0", index zero, and its own recomputed hash.
    fn create_genesis_block() -> (b: Block)
        ensures
            b@.index == 0,
            b@.nonce == 0,
            b@.previous_hash == "0"@,
            b@.hash == block_hash_chars(b@),
            b@.data.len() == 1,
            b@.data[0].sender == "me"@,
            b@.data[0].receiver == "me"@,
            b@.data[0].amount == 10,
            b@.data[0].nonce == 0,
            b@.data[0].signature == encode_utf8("coinbase"@),
            b@.merkle_root == root_of(leaf_hashes_of(b@.data)),
    {
        let coinbase = Transaction::new(
            "me".to_owned(),
            "me".to_owned(),
            10,
            0,
            "coinbase".as_bytes_vec(),
        );
        let mut data: Vec<Transaction> = Vec::new();
        data.push(coinbase);
        let leaves = build_leaves(&data);
        let root = merkle_root(&leaves);
        let mut genesis = Block {
            index: 0,
            timestamp: now_unix_seconds(),
            merkle_root: root,
            data,
            previous_hash: "0".to_owned(),
            hash: "0".to_owned(),
            nonce: 0,
        };
        let recomputed = genesis.calculate_hash();
        genesis.hash = recomputed;
        genesis
    }

    /// The Merkle root over a transaction batch; `MerkleRootError` exactly
    /// when the batch is empty.
    pub fn calculate_merkle_root(tx_list: &Vec<Transaction>) -> (r: Result<
        Vec<u8>,
        BlockchainError,
    >)
        ensures
            match r {
                Ok(root) => tx_list@.len() >= 1 && root@ == root_of(
                    leaf_hashes_of(tx_list.deep_view()),
                ) && root@.len() == 32,
                Err(e) => tx_list@.len() == 0 && (e matches BlockchainError::MerkleRootError(m)
                    && m@ == "couldn't get the merkle root"@),
            },
    {
        if tx_list.len() == 0 {
            return Err(
                BlockchainError::MerkleRootError("couldn't get the merkle root".to_owned()),
            );
        }
        let leaves = build_leaves(tx_list);
        Ok(merkle_root(&leaves))
    }

    /// Whether a hash rendering clears this chain's difficulty target.
    fn is_block_valid(&self, hash: &str) -> (r: bool)
        ensures
            r == meets_difficulty(hash@, self@.difficulty),
    {
        hash_meets(hash, self.difficulty)
    }

    /// Checks one consecutive pair: a genesis older block always passes;
    /// otherwise the indices must be consecutive, the older block's
    /// recomputed hash must clear the difficulty target, and the newer
    /// block's previous hash must equal it. Violations come back as typed
    /// errors, never as a crash.
    fn is_blockpair_valid(&self, newer: &Block, older: &Block) -> (r: Result<
        (),
        BlockchainError,
    >)
        ensures
            r is Ok <==> pair_ok(newer@, older@, self@.difficulty),
            older@.index != 0 && newer@.index != older@.index + 1 ==> (r matches Err(e) && (
            e matches BlockchainError::BlockInvalid(m) && m@ == "Invalid block index"@)),
            older@.index != 0 && newer@.index == older@.index + 1 && !meets_difficulty(
                block_hash_chars(older@),
                self@.difficulty,
            ) ==> (r matches Err(e) && (e matches BlockchainError::BlockInvalid(m) && m@
                == "Invalid previous block hash"@)),
            older@.index != 0 && newer@.index == older@.index + 1 && meets_difficulty(
                block_hash_chars(older@),
                self@.difficulty,
            ) && newer@.previous_hash != block_hash_chars(older@) ==> (r matches Err(e) && (
            e matches BlockchainError::BlockInvalid(m) && m@ == "Invalid previous hash"@)),
    {
        if older.index == 0 {
            return Ok(());
        }
        let consecutive = older.index < u128::MAX && newer.index == older.index + 1;
        if !consecutive {
            return Err(BlockchainError::BlockInvalid("Invalid block index".to_owned()));
        }
        let older_hash = older.calculate_hash();
        if !self.is_block_valid(older_hash.as_str()) {
            return Err(BlockchainError::BlockInvalid("Invalid previous block hash".to_owned()));
        }
        if !(newer.previous_hash == older_hash) {
            return Err(BlockchainError::BlockInvalid("Invalid previous hash".to_owned()));
        }
        Ok(())
    }

    /// Walks the whole chain: every consecutive pair must pass the pairwise
    /// rule and the tail block must clear the difficulty target; a lone
    /// genesis block passes by itself. A well-formed chain always validates.
    #[verifier::rlimit(60)]
    pub fn is_chain_valid(&self) -> (r: bool)
        ensures
            r == chain_valid_spec(self@.blocks, self@.difficulty),
            self.wf() ==> r,
    {
        proof {
            if self.wf() {
                lemma_wf_chain_is_valid(self@.blocks, self@.difficulty);
            }
        }
        let n = self.chain.len();
        if n == 0 {
            return true;
        }
        if n == 1 {
            proof {
                assert(self@.blocks[0] == self.chain@[0]@);
            }
            let only = &self.chain[0];
            if only.get_index() == 0 {
                return true;
            }
            let h = only.calculate_hash();
            return self.is_block_valid(h.as_str());
        }
        let mut i: usize = 1;
        while i < n
            invariant
                n == self@.blocks.len(),
                n >= 2,
                1 <= i <= n,
                forall|k: int| 1 <= k < i ==> pair_ok(#[trigger] self@.blocks[k], self@.blocks[k - 1], self@.difficulty),
            decreases n - i,
        {
            proof {
                assert(self@.blocks[i as int] == self.chain@[i as int]@);
                assert(self@.blocks[i as int - 1] == self.chain@[i as int - 1]@);
            }
            match self.is_blockpair_valid(&self.chain[i], &self.chain[i - 1]) {
                Ok(_) => {},
                Err(_) => {
                    proof {
                        assert(!pair_ok(
                            self@.blocks[i as int],
                            self@.blocks[i as int - 1],
                            self@.difficulty,
                        ));
                        assert(!chain_valid_spec(self@.blocks, self@.difficulty));
                    }
                    return false;
                },
            }
            i = i + 1;
        }
        proof {
            assert(self@.blocks[n - 1] == self.chain@[n - 1]@);
        }
        let tail_hash = self.chain[n - 1].calculate_hash();
        self.is_block_valid(tail_hash.as_str())
    }

    /// Appends a candidate block if and only if it follows the tail: the
    /// chain must be non-empty, the index consecutive, the recomputed hash
    /// clearing the difficulty target, the previous hash equal to the
    /// predecessor's recomputed hash, and the stored hash equal to the
    /// recomputed one. A rejected block leaves the chain untouched, and a
    /// well-formed chain stays well-formed.
    pub fn add_block(&mut self, new_block: Block) -> (r: bool)
        ensures
            r == append_ok(old(self)@.blocks, old(self)@.difficulty, new_block@),
            r ==> final(self)@.blocks == old(self)@.blocks.push(new_block@),
            !r ==> final(self)@ == old(self)@,
            final(self)@.difficulty == old(self)@.difficulty,
            old(self).wf() && r ==> final(self).wf(),
    {
        let n = self.chain.len();
        if n == 0 {
            proof {
                assert(!append_ok(self@.blocks, self@.difficulty, new_block@));
            }
            return false;
        }
        let last = &self.chain[n - 1];
        let consecutive = last.index < u128::MAX && new_block.index == last.index + 1;
        if !consecutive {
            return false;
        }
        let recomputed = new_block.calculate_hash();
        if !self.is_block_valid(recomputed.as_str()) {
            return false;
        }
        let last_hash = self.chain[n - 1].calculate_hash();
        if !(new_block.previous_hash == last_hash) {
            return false;
        }
        if !(new_block.hash == recomputed) {
            return false;
        }
        proof {
            assert(self@.blocks.last() == self@.blocks[n - 1]);
            assert(append_ok(self@.blocks, self@.difficulty, new_block@));
        }
        let ghost oldblocks = self@.blocks;
        self.chain.push(new_block);
        proof {
            assert(self@.blocks =~= oldblocks.push(new_block@));
            if chain_wf(oldblocks, self@.difficulty) {
                let c = self@.blocks;
                let d = self@.difficulty;
                assert forall|i: int| 0 <= i < c.len() implies (#[trigger] c[i]).index
                    == i as u128 by {
                    if i < c.len() - 1 {
                        assert(c[i] == oldblocks[i]);
                    }
                }
                assert forall|i: int| 0 <= i < c.len() implies (#[trigger] c[i]).hash
                    == block_hash_chars(c[i]) by {
                    if i < c.len() - 1 {
                        assert(c[i] == oldblocks[i]);
                    }
                }
                assert forall|i: int| 1 <= i < c.len() implies (#[trigger] c[i]).previous_hash
                    == block_hash_chars(c[i - 1]) by {
                    if i < c.len() - 1 {
                        assert(c[i] == oldblocks[i]);
                        assert(c[i - 1] == oldblocks[i - 1]);
                    } else {
                        assert(c[i - 1] == oldblocks[i - 1]);
                    }
                }
                assert forall|i: int| 1 <= i < c.len() implies meets_difficulty(
                    block_hash_chars(#[trigger] c[i]),
                    d,
                ) by {
                    if i < c.len() - 1 {
                        assert(c[i] == oldblocks[i]);
                    }
                }
            }
        }
        true
    }

    /// Finds the first transaction in chain order whose signature equals the
    /// given transaction's; `TransactionNotFound` exactly when no block
    /// holds one.
    #[verifier::rlimit(60)]
    fn find_block(&self, transaction: &Transaction) -> (r: Result<
        (usize, usize),
        BlockchainError,
    >)
        ensures
            match r {
                Ok(bt) => {
                    &&& tx_located_at(
                        self@.blocks,
                        transaction@.signature,
                        bt.0 as int,
                        bt.1 as int,
                    )
                    &&& forall|b: int, t: int|
                        0 <= b < bt.0 ==> !tx_located_at(self@.blocks, transaction@.signature, b, t)
                    &&& forall|t: int|
                        0 <= t < bt.1 ==> self@.blocks[bt.0 as int].data[t].signature
                            != transaction@.signature
                },
                Err(e) => e == BlockchainError::TransactionNotFound && !tx_in_chain(
                    self@.blocks,
                    transaction@.signature,
                ),
            },
    {
        let nb = self.chain.len();
        let mut bi: usize = 0;
        while bi < nb
            invariant
                nb == self@.blocks.len(),
                bi <= nb,
                forall|b: int, t: int|
                    0 <= b < bi ==> !tx_located_at(self@.blocks, transaction@.signature, b, t),
            decreases nb - bi,
        {
            let block = &self.chain[bi];
            let nt = block.data.len();
            proof {
                assert(block@ == self@.blocks[bi as int]);
                assert(nt == self@.blocks[bi as int].data.len());
            }
            let mut ti: usize = 0;
            while ti < nt
                invariant
                    nb == self@.blocks.len(),
                    bi < nb,
                    block@ == self@.blocks[bi as int],
                    nt == self@.blocks[bi as int].data.len(),
                    ti <= nt,
                    forall|b: int, t: int|
                        0 <= b < bi ==> !tx_located_at(self@.blocks, transaction@.signature, b, t),
                    forall|t: int|
                        0 <= t < ti ==> self@.blocks[bi as int].data[t].signature
                            != transaction@.signature,
                decreases nt - ti,
            {
                if bytes_equal(block.data[ti].get_signature(), transaction.get_signature()) {
                    proof {
                        assert(block.data.deep_view()[ti as int] == self@.blocks[bi as int].data[ti as int]);
                        assert(tx_located_at(self@.blocks, transaction@.signature, bi as int, ti as int));
                    }
                    return Ok((bi, ti));
                }
                proof {
                    assert(block.data.deep_view()[ti as int] == self@.blocks[bi as int].data[ti as int]);
                }
                ti = ti + 1;
            }
            proof {
                assert forall|t: int| true implies !tx_located_at(
                    self@.blocks,
                    transaction@.signature,
                    bi as int,
                    t,
                ) by {
                    if 0 <= t < self@.blocks[bi as int].data.len() {
                        assert(self@.blocks[bi as int].data[t].signature != transaction@.signature);
                    }
                }
            }
            bi = bi + 1;
        }
        proof {
            assert forall|b: int, t: int| true implies !tx_located_at(
                self@.blocks,
                transaction@.signature,
                b,
                t,
            ) by {
                if 0 <= b < self@.blocks.len() {
                    assert(!tx_located_at(self@.blocks, transaction@.signature, b, t));
                }
            }
        }
        Err(BlockchainError::TransactionNotFound)
    }

    /// Rebuilds the Merkle tree of the block at `block_index` and checks the
    /// inclusion proof for the given transaction's leaf hash at `tx_index`.
    fn merkle_transaction_proof(
        &self,
        transaction: &Transaction,
        block_index: usize,
        tx_index: usize,
    ) -> (r: Result<bool, BlockchainError>)
        ensures
            block_index >= self@.blocks.len() ==> (r matches Err(e) && (
            e matches BlockchainError::MerkleProofError(m) && m@ == "Block index out of bounds."@)),
            block_index < self@.blocks.len() && self@.blocks[block_index as int].data.len() == 0
                ==> (r matches Err(e) && (e matches BlockchainError::MerkleProofError(m) && m@
                == "Couldn't get the Merkle root."@)),
            block_index < self@.blocks.len() && self@.blocks[block_index as int].data.len() > 0
                && tx_index < self@.blocks[block_index as int].data.len() ==> r == Ok::<
                bool,
                BlockchainError,
            >(
                proof_verifies(
                    root_of(leaf_hashes_of(self@.blocks[block_index as int].data)),
                    leaf_hash_of(transaction@),
                    tx_index as int,
                    proof_of(
                        leaf_hashes_of(self@.blocks[block_index as int].data),
                        tx_index as int,
                    ),
                    self@.blocks[block_index as int].data.len() as int,
                ),
            ),
            block_index < self@.blocks.len() && self@.blocks[block_index as int].data.len() > 0
                && tx_index >= self@.blocks[block_index as int].data.len() ==> r == Ok::<
                bool,
                BlockchainError,
            >(false),
    {
        if block_index >= self.chain.len() {
            return Err(
                BlockchainError::MerkleProofError("Block index out of bounds.".to_owned()),
            );
        }
        let block = &self.chain[block_index];
        proof {
            assert(block@ == self@.blocks[block_index as int]);
        }
        if block.data.len() == 0 {
            return Err(
                BlockchainError::MerkleProofError("Couldn't get the Merkle root.".to_owned()),
            );
        }
        let leaves = build_leaves(&block.data);
        let root = merkle_root(&leaves);
        let leaf = transaction.leaf_hash();
        if tx_index >= block.data.len() {
            let total = leaves.len();
            let empty_path: Vec<Vec<u8>> = Vec::new();
            let out = verify_proof(&root, &leaf, tx_index, &empty_path, total);
            proof {
                assert(!proof_verifies(
                    root@,
                    leaf@,
                    tx_index as int,
                    empty_path.deep_view(),
                    total as int,
                ));
            }
            return Ok(out);
        }
        let path = build_proof(&leaves, tx_index);
        let total = leaves.len();
        Ok(verify_proof(&root, &leaf, tx_index, &path, total))
    }

    /// Locates the first transaction in chain order whose signature equals
    /// the given one and checks its Merkle inclusion proof against the
    /// containing block's rebuilt tree. `TransactionNotFound` exactly when
    /// no block holds the signature; success is owed whenever one does, and
    /// when the first-matching record also carries the same content, the
    /// proof checks out.
    pub fn check_transaction_validity(&mut self, transaction: &Transaction) -> (r: Result<
        bool,
        BlockchainError,
    >)
        ensures
            final(self)@ == old(self)@,
            !tx_in_chain(old(self)@.blocks, transaction@.signature) <==> r == Err::<
                bool,
                BlockchainError,
            >(BlockchainError::TransactionNotFound),
            tx_in_chain(old(self)@.blocks, transaction@.signature) ==> r is Ok,
            r matches Ok(v) ==> exists|b: int, t: int|
                {
                    &&& #[trigger] tx_located_at(old(self)@.blocks, transaction@.signature, b, t)
                    &&& (forall|bb: int, tt: int|
                        0 <= bb < b ==> !tx_located_at(
                            old(self)@.blocks,
                            transaction@.signature,
                            bb,
                            tt,
                        ))
                    &&& (forall|tt: int|
                        0 <= tt < t ==> old(self)@.blocks[b].data[tt].signature
                            != transaction@.signature)
                    &&& v == proof_verifies(
                        root_of(leaf_hashes_of(old(self)@.blocks[b].data)),
                        leaf_hash_of(transaction@),
                        t,
                        proof_of(leaf_hashes_of(old(self)@.blocks[b].data), t),
                        old(self)@.blocks[b].data.len() as int,
                    )
                    &&& (leaf_hash_of(transaction@) == leaf_hash_of(old(self)@.blocks[b].data[t])
                        ==> v == true)
                },
    {
        let located = self.find_block(transaction);
        match located {
            Ok(bt) => {
                let (block_index, tx_index) = bt;
                let ghost c = self@.blocks;
                let ghost b = block_index as int;
                let ghost t = tx_index as int;
                proof {
                    assert(tx_located_at(c, transaction@.signature, b, t));
                    let leaves = leaf_hashes_of(c[b].data);
                    assert(leaves[t] == leaf_hash_of(c[b].data[t]));
                    crate::merkle::lemma_proof_of_verifies(leaves, t);
                }
                let out = self.merkle_transaction_proof(transaction, block_index, tx_index);
                proof {
                    assert(out is Ok);
                    assert(out matches Ok(v) ==> v == proof_verifies(
                        root_of(leaf_hashes_of(c[b].data)),
                        leaf_hash_of(transaction@),
                        t,
                        proof_of(leaf_hashes_of(c[b].data), t),
                        c[b].data.len() as int,
                    ));
                }
                out
            },
            Err(e) => Err(e),
        }
    }

    /// The whole chain, oldest block first.
    pub fn get_chain(&self) -> (r: &Vec<Block>)
        ensures
            r.deep_view() == self@.blocks,
    {
        &self.chain
    }

    /// How many blocks the chain holds.
    pub fn get_chain_length(&self) -> (r: usize)
        ensures
            r == self@.blocks.len(),
    {
        self.chain.len()
    }

    /// The difficulty target: leading zero hex digits a hash must show.
    pub fn get_difficulty(&self) -> (r: usize)
        ensures
            r == self@.difficulty,
    {
        self.difficulty
    }
}

/// A mining assignment taken while holding the chain: the successor index,
/// the tail block's stored hash, the batch's Merkle root, and the difficulty
/// target, computed once and then shared read-only by every worker.
pub struct MiningJob {
    next_index: u128,
    previous_hash: String,
    merkle_root: Vec<u8>,
    difficulty: usize,
}

/// The mathematical content of a mining assignment.
pub struct JobView {
    pub next_index: u128,
    pub previous_hash: Seq<char>,
    pub merkle_root: Seq<u8>,
    pub difficulty: int,
}

impl View for MiningJob {
    type V = JobView;

    closed spec fn view(&self) -> JobView {
        JobView {
            next_index: self.next_index,
            previous_hash: self.previous_hash@,
            merkle_root: self.merkle_root@,
            difficulty: self.difficulty as int,
        }
    }
}

impl Clone for MiningJob {
    fn clone(&self) -> (r: Self)
        ensures
            r@ == self@,
    {
        MiningJob {
            next_index: self.next_index,
            previous_hash: self.previous_hash.clone(),
            merkle_root: clone_bytes(self.merkle_root.as_slice()),
            difficulty: self.difficulty,
        }
    }
}

/// The candidate block a worker assembles from an assignment, a batch, a
/// timestamp, and a nonce, with its hash already recomputed.
pub open spec fn candidate_view(
    job: JobView,
    data: Seq<TxView>,
    timestamp: u64,
    nonce: u64,
) -> BlockView {
    BlockView {
        index: job.next_index,
        timestamp,
        merkle_root: job.merkle_root,
        data,
        previous_hash: job.previous_hash,
        hash: header_hash_chars(job.next_index, timestamp, job.merkle_root, job.previous_hash, nonce),
        nonce,
    }
}

/// An independent copy of a list of blocks.
fn clone_blocks(v: &Vec<Block>) -> (r: Vec<Block>)
    ensures
        r.deep_view() == v.deep_view(),
        r@.len() == v@.len(),
{
    let mut r: Vec<Block> = Vec::new();
    let n: usize = v.len();
    let mut i: usize = 0;
    proof {
        assert(r.deep_view() =~= v.deep_view().take(0));
    }
    while i < n
        invariant
            n == v@.len(),
            i <= n,
            r@.len() == i,
            r.deep_view() == v.deep_view().take(i as int),
        decreases n - i,
    {
        let c = v[i].clone();
        proof {
            assert(c.deep_view() == v.deep_view()[i as int]);
        }
        r.push(c);
        proof {
            assert(r.deep_view() =~= v.deep_view().take(i + 1));
        }
        i = i + 1;
    }
    proof {
        assert(v.deep_view().take(n as int) =~= v.deep_view());
    }
    r
}

impl Clone for Blockchain {
    fn clone(&self) -> (r: Self)
        ensures
            r@ == self@,
    {
        Blockchain { chain: clone_blocks(&self.chain), difficulty: self.difficulty }
    }
}

impl Blockchain {
    /// A fresh chain holding only the genesis block, at the given difficulty.
    pub fn with_difficulty(difficulty: usize) -> (bc: Blockchain)
        ensures
            bc.wf(),
            bc@.blocks.len() == 1,
            bc@.difficulty == difficulty,
            bc@.blocks[0].index == 0,
            bc@.blocks[0].nonce == 0,
            bc@.blocks[0].previous_hash == "0"@,
            bc@.blocks[0].data.len() == 1,
            bc@.blocks[0].data[0].sender == "me"@,
            bc@.blocks[0].data[0].receiver == "me"@,
            bc@.blocks[0].data[0].amount == 10,
            bc@.blocks[0].data[0].signature == encode_utf8("coinbase"@),
            bc@.blocks[0].merkle_root == root_of(leaf_hashes_of(bc@.blocks[0].data)),
    {
        let genesis = Self::create_genesis_block();
        let mut chain: Vec<Block> = Vec::new();
        chain.push(genesis);
        let bc = Blockchain { chain, difficulty };
        proof {
            assert(bc@.blocks.len() == 1);
            assert(chain_wf(bc@.blocks, bc@.difficulty));
        }
        bc
    }

    /// Reads off everything a mining run needs from the current tail: the
    /// successor index, the tail's stored hash, the batch's Merkle root, and
    /// the difficulty. Fails on an empty chain, an empty batch, or an index
    /// that cannot grow further.
    pub fn mining_snapshot(&self, data: &Vec<Transaction>) -> (r: Result<MiningJob, BlockchainError>)
        ensures
            self@.blocks.len() == 0 ==> r == Err::<MiningJob, BlockchainError>(
                BlockchainError::ChainInvalid,
            ),
            self@.blocks.len() >= 1 && data@.len() == 0 ==> (r matches Err(e) && (
            e matches BlockchainError::MerkleRootError(m) && m@
                == "couldn't get the merkle root"@)),
            self@.blocks.len() >= 1 && data@.len() >= 1 && self@.blocks.last().index == u128::MAX
                ==> (r matches Err(e) && (e matches BlockchainError::BlockInvalid(m) && m@
                == "Block index overflow"@)),
            self@.blocks.len() >= 1 && data@.len() >= 1 && self@.blocks.last().index < u128::MAX
                ==> (r matches Ok(job) && {
                &&& job@.next_index == self@.blocks.last().index + 1
                &&& job@.previous_hash == self@.blocks.last().hash
                &&& job@.merkle_root == root_of(leaf_hashes_of(data.deep_view()))
                &&& job@.difficulty == self@.difficulty
            }),
    {
        let n = self.chain.len();
        if n == 0 {
            return Err(BlockchainError::ChainInvalid);
        }
        let root = match Self::calculate_merkle_root(data) {
            Ok(root) => root,
            Err(e) => {
                return Err(e);
            },
        };
        proof {
            assert(self@.blocks[n - 1] == self.chain@[n - 1]@);
            assert(self@.blocks.last() == self@.blocks[n - 1]);
        }
        let last = &self.chain[n - 1];
        if last.index == u128::MAX {
            return Err(BlockchainError::BlockInvalid("Block index overflow".to_owned()));
        }
        Ok(
            MiningJob {
                next_index: last.index + 1,
                previous_hash: last.hash.clone(),
                merkle_root: root,
                difficulty: self.difficulty,
            },
        )
    }

    /// Assembles the candidate block for one nonce and keeps it only when
    /// its recomputed hash clears the assignment's difficulty target.
    pub fn try_nonce(job: &MiningJob, data: &Vec<Transaction>, timestamp: u64, nonce: u64) -> (r:
        Option<Block>)
        ensures
            match r {
                Some(b) => {
                    &&& b@ == candidate_view(job@, data.deep_view(), timestamp, nonce)
                    &&& b@.hash == block_hash_chars(b@)
                    &&& meets_difficulty(block_hash_chars(b@), job@.difficulty)
                },
                None => !meets_difficulty(
                    block_hash_chars(candidate_view(job@, data.deep_view(), timestamp, nonce)),
                    job@.difficulty,
                ),
            },
    {
        let h = header_hash(
            job.next_index,
            timestamp,
            &job.merkle_root,
            job.previous_hash.as_str(),
            nonce,
        );
        if hash_meets(h.as_str(), job.difficulty) {
            let candidate = Block {
                index: job.next_index,
                timestamp,
                merkle_root: clone_bytes(job.merkle_root.as_slice()),
                data: clone_transactions(data),
                previous_hash: job.previous_hash.clone(),
                hash: h,
                nonce,
            };
            proof {
                assert(block_hash_chars(candidate@) == header_hash_chars(
                    job@.next_index,
                    timestamp,
                    job@.merkle_root,
                    job@.previous_hash,
                    nonce,
                ));
                assert(candidate@ == candidate_view(job@, data.deep_view(), timestamp, nonce));
            }
            Some(candidate)
        } else {
            proof {
                assert(block_hash_chars(candidate_view(job@, data.deep_view(), timestamp, nonce))
                    == header_hash_chars(
                    job@.next_index,
                    timestamp,
                    job@.merkle_root,
                    job@.previous_hash,
                    nonce,
                ));
            }
            None
        }
    }

    /// Mines one block in the calling thread: takes a snapshot of the tail,
    /// then searches nonces from zero upward, refreshing the timestamp from
    /// time to time, and appends the first candidate whose hash clears the
    /// difficulty target. Returns whether the chain grew; at difficulty zero
    /// on a well-formed chain it always does.
    pub fn mine_block_singlethread(&mut self, data: &Vec<Transaction>) -> (r: bool)
        ensures
            old(self).wf() ==> final(self).wf(),
            final(self)@.difficulty == old(self)@.difficulty,
            !r ==> final(self)@ == old(self)@,
            r ==> final(self)@.blocks == old(self)@.blocks.push(final(self)@.blocks.last()),
            r ==> final(self)@.blocks.last().data == data.deep_view(),
            r ==> final(self)@.blocks.last().merkle_root == root_of(
                leaf_hashes_of(data.deep_view()),
            ),
            r ==> final(self)@.blocks.last().index == old(self)@.blocks.last().index + 1,
            r ==> final(self)@.blocks.last().previous_hash == block_hash_chars(
                old(self)@.blocks.last(),
            ),
            data@.len() == 0 ==> !r,
            old(self).wf() && old(self)@.difficulty == 0 && data@.len() >= 1 && old(
                self,
            )@.blocks.last().index < u128::MAX ==> r,
    {
        let job = match self.mining_snapshot(data) {
            Ok(job) => job,
            Err(_) => {
                return false;
            },
        };
        let mut timestamp = now_unix_seconds();
        let mut nonce: u64 = 0;
        loop
            invariant
                self@ == old(self)@,
                self@.blocks.len() >= 1,
                data@.len() >= 1,
                self@.blocks.last().index < u128::MAX,
                job@.next_index == self@.blocks.last().index + 1,
                job@.previous_hash == self@.blocks.last().hash,
                job@.merkle_root == root_of(leaf_hashes_of(data.deep_view())),
                job@.difficulty == self@.difficulty,
                nonce > 0 ==> !(old(self).wf() && old(self)@.difficulty == 0),
            decreases u64::MAX - nonce,
        {
            match Self::try_nonce(&job, data, timestamp, nonce) {
                Some(candidate) => {
                    proof {
                        if old(self).wf() {
                            let c = self@.blocks;
                            assert(c[c.len() - 1].hash == block_hash_chars(c[c.len() - 1]));
                            assert(self@.blocks.last().hash == block_hash_chars(
                                self@.blocks.last(),
                            ));
                        }
                    }
                    let grew = self.add_block(candidate);
                    return grew;
                },
                None => {},
            }
            proof {
                if old(self).wf() && old(self)@.difficulty == 0 {
                    assert(meets_difficulty(
                        block_hash_chars(candidate_view(job@, data.deep_view(), timestamp, nonce)),
                        job@.difficulty,
                    ));
                }
            }
            if nonce == u64::MAX {
                return false;
            }
            nonce = nonce + 1;
            if nonce % 100000 == 0 {
                timestamp = now_unix_seconds();
            }
        }
    }
}

} // verus!

