//! Identifiers of the client core.
//!
//! Operation ids, transaction ids and federation ids are opaque 32-byte
//! values; they are held as four 64-bit words so that equality is plain field
//! equality. Module instances are tagged with a 16-bit integer; one reserved
//! value denotes the transaction-submission module.

use vstd::prelude::*;
use crate::codec::{push_u64_be, u64_be_bytes, u64_from_be, u64_from_be_spec};

verus! {

/// Integer tag of a configured module instance.
pub type ModuleInstanceId = u16;

/// Reserved instance id of the transaction-submission state machines.
pub const TRANSACTION_SUBMISSION_MODULE_INSTANCE: ModuleInstanceId = 0xffff;

/// Opaque 32-byte identifier of a logical operation, chosen by the caller.
#[derive(Clone, Copy, PartialEq, Eq, Structural, Hash, Debug)]
pub struct OperationId {
    pub w0: u64,
    pub w1: u64,
    pub w2: u64,
    pub w3: u64,
}

impl OperationId {
    /// Builds an operation id out of its four 64-bit words.
    pub fn from_words(w0: u64, w1: u64, w2: u64, w3: u64) -> (r: OperationId)
        ensures
            r == (OperationId { w0, w1, w2, w3 }),
    {
        OperationId { w0, w1, w2, w3 }
    }
}

/// Content-addressed identifier of a finalized transaction: the digest of the
/// canonical encoding of its inputs and outputs, without witnesses.
#[derive(Clone, Copy, PartialEq, Eq, Structural, Hash, Debug)]
pub struct TransactionId {
    pub w0: u64,
    pub w1: u64,
    pub w2: u64,
    pub w3: u64,
}

/// The transaction id whose words are read big-endian from a 32-byte digest.
pub open spec fn txid_from_digest_spec(digest: Seq<u8>) -> TransactionId {
    TransactionId {
        w0: u64_from_be_spec(digest, 0),
        w1: u64_from_be_spec(digest, 8),
        w2: u64_from_be_spec(digest, 16),
        w3: u64_from_be_spec(digest, 24),
    }
}

/// Packs a 32-byte digest into a transaction id.
pub fn txid_from_digest(digest: &Vec<u8>) -> (r: TransactionId)
    requires
        digest@.len() == 32,
    ensures
        r == txid_from_digest_spec(digest@),
{
    TransactionId {
        w0: u64_from_be(digest, 0),
        w1: u64_from_be(digest, 8),
        w2: u64_from_be(digest, 16),
        w3: u64_from_be(digest, 24),
    }
}

/// Identifier of the federation this client talks to.
#[derive(Clone, Copy, PartialEq, Eq, Structural, Hash, Debug)]
pub struct FederationId {
    pub w0: u64,
    pub w1: u64,
    pub w2: u64,
    pub w3: u64,
}

/// The 32 big-endian bytes of a federation id.
pub open spec fn federation_id_bytes_spec(id: FederationId) -> Seq<u8> {
    u64_be_bytes(id.w0) + u64_be_bytes(id.w1) + u64_be_bytes(id.w2) + u64_be_bytes(id.w3)
}

impl FederationId {
    /// Serializes the federation id to its 32 canonical bytes.
    pub fn to_bytes(&self) -> (r: Vec<u8>)
        ensures
            r@ == federation_id_bytes_spec(*self),
            r@.len() == 32,
    {
        let mut out: Vec<u8> = Vec::new();
        push_u64_be(&mut out, self.w0);
        push_u64_be(&mut out, self.w1);
        push_u64_be(&mut out, self.w2);
        push_u64_be(&mut out, self.w3);
        proof {
            assert(out@ =~= federation_id_bytes_spec(*self));
        }
        out
    }
}

/// A position in a finalized transaction's output list.
#[derive(Clone, Copy, PartialEq, Eq, Structural, Hash, Debug)]
pub struct OutPoint {
    pub txid: TransactionId,
    pub out_idx: u64,
}

} // verus!
