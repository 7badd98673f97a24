//! One ledger entry: a block carrying its own digest and the digest of
//! the block it claims to succeed.

use vstd::prelude::*;
use vstd::utf8::encode_utf8;
use vstd::string::StrSliceExecFns;
use crate::block_chain::BlockChain;
use crate::digest::{dec_rep, dec_rep_signed, digest_of, push_dec_i64, push_dec_u64, sha256_hex};

verus! {

/// A point in time: seconds since the Unix epoch, and nanoseconds within
/// that second. Used only as digest input and as an equality field.
#[derive(Clone, Copy, PartialEq, Eq, Structural)]
pub struct Timestamp {
    pub secs: i64,
    pub nanos: u32,
}

/// Relies on chrono's `Utc::now`, read out with `DateTime::timestamp` and
/// `DateTime::timestamp_subsec_nanos`; chrono keeps the nanosecond part
/// below 2_000_000_000 (values of 1_000_000_000 and above stand for a
/// leap second).
#[verifier::external_body]
fn now_timestamp() -> (t: Timestamp)
    ensures
        t.nanos < 2000000000,
{
    let now = chrono::Utc::now();
    Timestamp { secs: now.timestamp(), nanos: now.timestamp_subsec_nanos() }
}

pub struct Block {
    pub index: u64,
    pub timestamp: Timestamp,
    pub data: [u8; 256],
    pub hash: String,
    pub previous_hash: String,
}

/// The canonical byte string that is digested for a block: the index in
/// decimal, the timestamp as `secs.nanos`, the raw payload bytes and the
/// predecessor's hash, separated by `'|'` (byte 124; the `'.'` is byte 46).
pub open spec fn hash_input(index: u64, ts: Timestamp, data: Seq<u8>, previous_hash: Seq<char>) -> Seq<u8> {
    dec_rep(index as nat) + seq![124u8] + dec_rep_signed(ts.secs as int) + seq![46u8]
        + dec_rep(ts.nanos as nat) + seq![124u8] + data + seq![124u8] + encode_utf8(previous_hash)
}

/// The hash a block with these fields must carry: the hexadecimal SHA-256
/// digest of the canonical byte string.
pub open spec fn hash_of(index: u64, ts: Timestamp, data: Seq<u8>, previous_hash: Seq<char>) -> Seq<char> {
    digest_of(hash_input(index, ts, data, previous_hash))
}

/// The stored hash equals the digest recomputed from the block's own fields.
pub open spec fn hash_is_valid(b: Block) -> bool {
    b.hash@ == hash_of(b.index, b.timestamp, b.data@, b.previous_hash@)
}

/// `b` is a valid successor of `prev`: its index is one greater, its
/// `previous_hash` is `prev`'s hash, and its own hash is self-consistent.
pub open spec fn is_successor(b: Block, prev: Block) -> bool {
    &&& prev.index + 1 == b.index
    &&& prev.hash@ == b.previous_hash@
    &&& hash_is_valid(b)
}

/// Block equality: byte-identical payloads and identical `index`,
/// `timestamp`, `hash` and `previous_hash`.
pub open spec fn blocks_equal(a: Block, b: Block) -> bool {
    &&& a.index == b.index
    &&& a.timestamp == b.timestamp
    &&& a.data@ == b.data@
    &&& a.hash@ == b.hash@
    &&& a.previous_hash@ == b.previous_hash@
}

/// The reserved predecessor-hash sentinel of the genesis block.
pub open spec fn genesis_previous_hash() -> Seq<char> {
    seq!['0']
}

/// The all-zero payload the genesis block carries.
pub open spec fn zero_payload() -> Seq<u8> {
    Seq::new(256, |i: int| 0u8)
}

impl PartialEq for Block {
    fn eq(&self, other: &Block) -> (r: bool) {
        let mut i: usize = 0;
        while i < 256
            invariant
                i <= 256,
                forall|j: int| 0 <= j < i as int ==> self.data@[j] == other.data@[j],
            decreases 256 - i,
        {
            if self.data[i] != other.data[i] {
                assert(self.data@ != other.data@);
                return false;
            }
            i += 1;
        }
        assert(self.data@ =~= other.data@);
        self.index == other.index && self.timestamp == other.timestamp
            && self.hash == other.hash && self.previous_hash == other.previous_hash
    }
}

impl vstd::std_specs::cmp::PartialEqSpecImpl for Block {
    open spec fn obeys_eq_spec() -> bool {
        true
    }

    open spec fn eq_spec(&self, other: &Block) -> bool {
        blocks_equal(*self, *other)
    }
}

impl Clone for Block {
    fn clone(&self) -> (r: Self)
        ensures
            r == *self,
    {
        Block {
            index: self.index,
            timestamp: self.timestamp,
            data: self.data,
            hash: self.hash.clone(),
            previous_hash: self.previous_hash.clone(),
        }
    }
}

impl Block {
    /// Builds the next block of `block_chain`: index one past the latest
    /// block's, a fresh timestamp, the given payload, and a hash digest
    /// binding all of that to the latest block's hash.
    pub fn new(block_chain: &BlockChain, block_data: [u8; 256]) -> (b: Block)
        requires
            block_chain@.len() >= 1,
            block_chain@.last().index < u64::MAX,
        ensures
            b.index == block_chain@.last().index + 1,
            b.data@ == block_data@,
            b.previous_hash@ == block_chain@.last().hash@,
            hash_is_valid(b),
            is_successor(b, block_chain@.last()),
    {
        let previous = block_chain.retrieve_latest_block();
        let index: u64 = previous.index + 1;
        let timestamp = now_timestamp();

        let hash = compute_hash(index, &timestamp, &block_data, previous.hash.as_str());
        Block {
            index,
            timestamp,
            data: block_data,
            hash,
            previous_hash: previous.hash.clone(),
        }
    }

    /// Recomputes the digest from the stored fields and compares it to the
    /// stored hash; false on any mismatch.
    pub fn has_valid_hash(&self) -> (r: bool)
        ensures
            r == hash_is_valid(*self),
    {
        let hash = compute_hash(self.index, &self.timestamp, &self.data, self.previous_hash.as_str());
        hash == self.hash
    }

    /// The single authoritative link-validity check: index continuity,
    /// hash-link continuity, and self-hash correctness at once.
    pub fn is_valid_successor_of(&self, previous_block: &Block) -> (r: bool)
        ensures
            r == is_successor(*self, *previous_block),
    {
        self.index >= 1 && previous_block.index == self.index - 1
            && previous_block.hash == self.previous_hash && self.has_valid_hash()
    }
}

/// The fixed first block of every chain: index 0, an all-zero payload, the
/// sentinel predecessor hash, and a self-consistent digest.
pub fn genesis_block() -> (b: Block)
    ensures
        b.index == 0,
        b.data@ == zero_payload(),
        b.previous_hash@ == genesis_previous_hash(),
        hash_is_valid(b),
{
    let timestamp = now_timestamp();
    let data = [0u8; 256];
    let hash = compute_hash(0, &timestamp, &data, "0");
    proof {
        reveal_strlit("0");
        assert("0"@ =~= genesis_previous_hash());
        assert(data@ =~= zero_payload());
    }
    Block {
        index: 0,
        timestamp,
        data,
        hash,
        previous_hash: "0".to_owned(),
    }
}

/// Renders `(index, timestamp, block_data, previous_hash)` into the
/// canonical byte string and digests it.
pub fn compute_hash(index: u64, timestamp: &Timestamp, block_data: &[u8; 256], previous_hash: &str) -> (r: String)
    ensures
        r@ == hash_of(index, *timestamp, block_data@, previous_hash@),
{
    let mut message: Vec<u8> = Vec::new();
    push_dec_u64(index, &mut message);
    message.push(124);
    push_dec_i64(timestamp.secs, &mut message);
    message.push(46);
    push_dec_u64(timestamp.nanos as u64, &mut message);
    message.push(124);
    let mut data_bytes = vstd::slice::slice_to_vec(block_data.as_slice());
    message.append(&mut data_bytes);
    message.push(124);
    let mut previous_bytes = previous_hash.as_bytes_vec();
    message.append(&mut previous_bytes);
    proof {
        assert(message@ =~= hash_input(index, *timestamp, block_data@, previous_hash@));
    }
    sha256_hex(&message)
}

/// The digest is deterministic: identical `(index, timestamp, data,
/// previous_hash)` always yield the identical hash string.
pub proof fn lemma_hash_deterministic(
    index1: u64, ts1: Timestamp, data1: Seq<u8>, prev1: Seq<char>, h1: Seq<char>,
    index2: u64, ts2: Timestamp, data2: Seq<u8>, prev2: Seq<char>, h2: Seq<char>,
)
    requires
        h1 == hash_of(index1, ts1, data1, prev1),
        h2 == hash_of(index2, ts2, data2, prev2),
        index1 == index2,
        ts1 == ts2,
        data1 == data2,
        prev1 == prev2,
    ensures
        h1 == h2,
{
}

/// The canonical rendering is injective: distinct `(index, timestamp,
/// data, previous_hash)` always feed distinct byte strings to SHA-256,
/// so nothing short of a digest collision can mask a tampered field.
pub proof fn lemma_hash_input_injective(
    index1: u64, ts1: Timestamp, data1: Seq<u8>, prev1: Seq<char>,
    index2: u64, ts2: Timestamp, data2: Seq<u8>, prev2: Seq<char>,
)
    requires
        data1.len() == 256,
        data2.len() == 256,
        hash_input(index1, ts1, data1, prev1) == hash_input(index2, ts2, data2, prev2),
    ensures
        index1 == index2,
        ts1 == ts2,
        data1 == data2,
        prev1 == prev2,
{
    let rest1a = dec_rep_signed(ts1.secs as int) + seq![46u8] + dec_rep(ts1.nanos as nat)
        + seq![124u8] + data1 + seq![124u8] + encode_utf8(prev1);
    let rest2a = dec_rep_signed(ts2.secs as int) + seq![46u8] + dec_rep(ts2.nanos as nat)
        + seq![124u8] + data2 + seq![124u8] + encode_utf8(prev2);
    assert(hash_input(index1, ts1, data1, prev1) =~= dec_rep(index1 as nat) + seq![124u8]
        + rest1a);
    assert(hash_input(index2, ts2, data2, prev2) =~= dec_rep(index2 as nat) + seq![124u8]
        + rest2a);
    crate::digest::lemma_dec_rep_digits(index1 as nat);
    crate::digest::lemma_dec_rep_digits(index2 as nat);
    crate::digest::lemma_separator_split(
        dec_rep(index1 as nat), rest1a, dec_rep(index2 as nat), rest2a, 124,
    );
    crate::digest::lemma_dec_rep_injective(index1 as nat, index2 as nat);

    let rest1b = dec_rep(ts1.nanos as nat) + seq![124u8] + data1 + seq![124u8]
        + encode_utf8(prev1);
    let rest2b = dec_rep(ts2.nanos as nat) + seq![124u8] + data2 + seq![124u8]
        + encode_utf8(prev2);
    assert(rest1a =~= dec_rep_signed(ts1.secs as int) + seq![46u8] + rest1b);
    assert(rest2a =~= dec_rep_signed(ts2.secs as int) + seq![46u8] + rest2b);
    crate::digest::lemma_dec_rep_signed_digits(ts1.secs as int);
    crate::digest::lemma_dec_rep_signed_digits(ts2.secs as int);
    crate::digest::lemma_separator_split(
        dec_rep_signed(ts1.secs as int), rest1b, dec_rep_signed(ts2.secs as int), rest2b, 46,
    );
    crate::digest::lemma_dec_rep_signed_injective(ts1.secs as int, ts2.secs as int);

    let rest1c = data1 + seq![124u8] + encode_utf8(prev1);
    let rest2c = data2 + seq![124u8] + encode_utf8(prev2);
    assert(rest1b =~= dec_rep(ts1.nanos as nat) + seq![124u8] + rest1c);
    assert(rest2b =~= dec_rep(ts2.nanos as nat) + seq![124u8] + rest2c);
    crate::digest::lemma_dec_rep_digits(ts1.nanos as nat);
    crate::digest::lemma_dec_rep_digits(ts2.nanos as nat);
    crate::digest::lemma_separator_split(
        dec_rep(ts1.nanos as nat), rest1c, dec_rep(ts2.nanos as nat), rest2c, 124,
    );
    crate::digest::lemma_dec_rep_injective(ts1.nanos as nat, ts2.nanos as nat);

    assert(data1 =~= rest1c.subrange(0, 256));
    assert(data2 =~= rest2c.subrange(0, 256));
    assert(encode_utf8(prev1) =~= rest1c.subrange(257, rest1c.len() as int));
    assert(encode_utf8(prev2) =~= rest2c.subrange(257, rest2c.len() as int));
    vstd::utf8::encode_utf8_decode_utf8(prev1);
    vstd::utf8::encode_utf8_decode_utf8(prev2);
}

/// Tampering with any hashed field of a block (its index, timestamp,
/// payload or predecessor hash) changes the byte string that its digest
/// is recomputed from; only a SHA-256 collision could leave the
/// recomputed hash unchanged.
pub proof fn lemma_tampered_block_changes_digest_input(a: Block, b: Block)
    requires
        !(a.index == b.index && a.timestamp == b.timestamp && a.data@ == b.data@
            && a.previous_hash@ == b.previous_hash@),
    ensures
        hash_input(a.index, a.timestamp, a.data@, a.previous_hash@) != hash_input(
            b.index,
            b.timestamp,
            b.data@,
            b.previous_hash@,
        ),
{
    if hash_input(a.index, a.timestamp, a.data@, a.previous_hash@) == hash_input(
        b.index,
        b.timestamp,
        b.data@,
        b.previous_hash@,
    ) {
        lemma_hash_input_injective(
            a.index, a.timestamp, a.data@, a.previous_hash@,
            b.index, b.timestamp, b.data@, b.previous_hash@,
        );
    }
}

/// Two blocks whose timestamps differ are never equal, whatever their
/// other fields hold, and their hashes are digests of different byte
/// strings even when index, payload and predecessor hash all agree.
pub proof fn lemma_distinct_timestamps_unequal(a: Block, b: Block)
    requires
        a.timestamp != b.timestamp,
    ensures
        !blocks_equal(a, b),
        hash_input(a.index, a.timestamp, a.data@, a.previous_hash@) != hash_input(
            b.index,
            b.timestamp,
            b.data@,
            b.previous_hash@,
        ),
{
    lemma_tampered_block_changes_digest_input(a, b);
}

} // verus!
