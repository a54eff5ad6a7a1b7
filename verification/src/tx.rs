//! Model of a decoded transaction as the event subsystem sees it: a type
//! discriminant plus the digest of the transaction payload, and the header
//! hash that identifies the transaction on the wire.

use vstd::prelude::*;

use crate::render::{bytes_to_hex, hex_of, lemma_hex_of_len};
use sha2::Digest;

verus! {

/// The type discriminant of a decoded transaction.
#[derive(Clone, Copy, Debug, PartialEq, Eq, Structural)]
pub enum TxType {
    /// A bare payload, the form a transaction has when a client first
    /// builds it.
    Raw,
    /// An encrypted payload wrapped for inclusion in a block, awaiting
    /// decryption.
    Wrapper,
    /// A payload that was decrypted and executed during block
    /// finalization.
    Decrypted,
    /// A payload originated by the protocol itself.
    Protocol,
}

/// The header of a transaction: its type discriminant together with the
/// digest of its payload.
pub struct Header {
    /// The type discriminant.
    pub tx_type: TxType,
    /// Digest of the transaction payload, produced upstream.
    pub data_hash: Vec<u8>,
}

/// A decoded transaction, reduced to the header that identifies it.
pub struct Tx {
    /// The outer header.
    pub header: Header,
}

/// Byte tag under which a type discriminant is encoded.
pub open spec fn type_tag(t: TxType) -> u8 {
    match t {
        TxType::Raw => 0,
        TxType::Wrapper => 1,
        TxType::Decrypted => 2,
        TxType::Protocol => 3,
    }
}

/// Little-endian bytes of a 64-bit length.
pub open spec fn u64_le_bytes(n: u64) -> Seq<u8> {
    seq![
        (n & 0xff) as u8,
        ((n >> 8) & 0xff) as u8,
        ((n >> 16) & 0xff) as u8,
        ((n >> 24) & 0xff) as u8,
        ((n >> 32) & 0xff) as u8,
        ((n >> 40) & 0xff) as u8,
        ((n >> 48) & 0xff) as u8,
        ((n >> 56) & 0xff) as u8,
    ]
}

/// Canonical byte encoding of a header: the type tag, then the
/// length-prefixed payload digest.
pub open spec fn header_bytes(t: TxType, data_hash: Seq<u8>) -> Seq<u8> {
    seq![type_tag(t)] + u64_le_bytes(data_hash.len() as u64) + data_hash
}

/// SHA-256 digest of a byte string; a function of the input alone.
pub uninterp spec fn sha256_of(bytes: Seq<u8>) -> Seq<u8>;

/// Relies on sha2::Sha256 (the Digest trait): returns the SHA-256 digest
/// of the input, 32 bytes long and a function of the input alone.
#[verifier::external_body]
fn sha256(bytes: &Vec<u8>) -> (r: Vec<u8>)
    ensures
        r@ == sha256_of(bytes@),
        r@.len() == 32,
{
    sha2::Sha256::digest(bytes.as_slice()).to_vec()
}

/// The header hash as rendered on the wire: the upper-case hexadecimal
/// form of the SHA-256 digest of the canonical header encoding.
pub open spec fn header_hash_of(t: TxType, data_hash: Seq<u8>) -> Seq<char> {
    hex_of(sha256_of(header_bytes(t, data_hash)))
}

proof fn lemma_byte_masks(n: u64)
    ensures
        n & 0xff < 256,
        (n >> 8) & 0xff < 256,
        (n >> 16) & 0xff < 256,
        (n >> 24) & 0xff < 256,
        (n >> 32) & 0xff < 256,
        (n >> 40) & 0xff < 256,
        (n >> 48) & 0xff < 256,
        (n >> 56) & 0xff < 256,
{
    assert(n & 0xff < 256) by (bit_vector);
    assert((n >> 8) & 0xff < 256) by (bit_vector);
    assert((n >> 16) & 0xff < 256) by (bit_vector);
    assert((n >> 24) & 0xff < 256) by (bit_vector);
    assert((n >> 32) & 0xff < 256) by (bit_vector);
    assert((n >> 40) & 0xff < 256) by (bit_vector);
    assert((n >> 48) & 0xff < 256) by (bit_vector);
    assert((n >> 56) & 0xff < 256) by (bit_vector);
}

fn type_tag_exec(t: TxType) -> (r: u8)
    ensures
        r == type_tag(t),
{
    match t {
        TxType::Raw => 0,
        TxType::Wrapper => 1,
        TxType::Decrypted => 2,
        TxType::Protocol => 3,
    }
}

/// Canonical byte encoding of a header.
fn encode_header(t: TxType, data_hash: &Vec<u8>) -> (r: Vec<u8>)
    ensures
        r@ == header_bytes(t, data_hash@),
{
    let mut out: Vec<u8> = Vec::new();
    out.push(type_tag_exec(t));
    let n: u64 = data_hash.len() as u64;
    proof {
        lemma_byte_masks(n);
    }
    out.push((n & 0xff) as u8);
    out.push(((n >> 8) & 0xff) as u8);
    out.push(((n >> 16) & 0xff) as u8);
    out.push(((n >> 24) & 0xff) as u8);
    out.push(((n >> 32) & 0xff) as u8);
    out.push(((n >> 40) & 0xff) as u8);
    out.push(((n >> 48) & 0xff) as u8);
    out.push(((n >> 56) & 0xff) as u8);
    let ghost prefix: Seq<u8> = out@;
    proof {
        assert(prefix =~= seq![type_tag(t)] + u64_le_bytes(n));
    }
    let len: usize = data_hash.len();
    let mut i: usize = 0;
    while i < len
        invariant
            len == data_hash@.len(),
            i <= len,
            out@ == prefix + data_hash@.subrange(0, i as int),
        decreases len - i,
    {
        out.push(data_hash[i]);
        proof {
            assert(prefix + data_hash@.subrange(0, i + 1) =~= (prefix + data_hash@.subrange(
                0,
                i as int,
            )).push(data_hash@[i as int]));
        }
        i = i + 1;
    }
    proof {
        assert(data_hash@.subrange(0, len as int) =~= data_hash@);
        assert(prefix + data_hash@ =~= header_bytes(t, data_hash@));
    }
    out
}

impl Tx {
    /// A transaction with the given discriminant and payload digest.
    pub fn new(tx_type: TxType, data_hash: Vec<u8>) -> (r: Tx)
        ensures
            r.header.tx_type == tx_type,
            r.header.data_hash == data_hash,
    {
        Tx { header: Header { tx_type, data_hash } }
    }

    /// The type discriminant of the outer header.
    pub fn header(&self) -> (r: TxType)
        ensures
            r == self.header.tx_type,
    {
        self.header.tx_type
    }

    /// The same transaction under a replaced header type; the payload
    /// digest is kept.
    pub fn update_header(self, tx_type: TxType) -> (r: Tx)
        ensures
            r.header.tx_type == tx_type,
            r.header.data_hash == self.header.data_hash,
    {
        Tx { header: Header { tx_type, data_hash: self.header.data_hash } }
    }

    /// The hash of the outer header, rendered as an upper-case
    /// hexadecimal string of 64 digits.
    pub fn header_hash(&self) -> (r: String)
        ensures
            r@ == header_hash_of(self.header.tx_type, self.header.data_hash@),
            r@.len() == 64,
    {
        let encoded = encode_header(self.header.tx_type, &self.header.data_hash);
        let digest = sha256(&encoded);
        proof {
            lemma_hex_of_len(digest@);
        }
        bytes_to_hex(&digest)
    }
}

impl Clone for Tx {
    /// An identical transaction.
    fn clone(&self) -> (r: Self)
        ensures
            r.header.tx_type == self.header.tx_type,
            r.header.data_hash@ == self.header.data_hash@,
    {
        Tx {
            header: Header {
                tx_type: self.header.tx_type,
                data_hash: self.header.data_hash.clone(),
            },
        }
    }
}

} // verus!
