//! The client root secret and its storage.
//!
//! The root secret is the caller-supplied or freshly drawn key material from
//! which a client derives its module secrets. The core stores it as opaque
//! bytes; the derivation scheme itself is the concern of the key-derivation
//! collaborator, not of this crate.

use vstd::prelude::*;
use crate::client::ClientDb;
use crate::crypto::random_secret_bytes;
use crate::sm::clone_bytes;

verus! {

/// Secret input key material from which the client's root secret is seeded.
pub struct ClientSecret {
    /// The wrapped key material.
    pub bytes: Vec<u8>,
}

impl View for ClientSecret {
    type V = Seq<u8>;

    open spec fn view(&self) -> Seq<u8> {
        self.bytes@
    }
}

impl ClientSecret {
    /// Wraps caller-supplied key material.
    pub fn new(key: Vec<u8>) -> (r: ClientSecret)
        ensures
            r@ == key@,
    {
        ClientSecret { bytes: key }
    }

    /// The canonical encoding of the secret: its bytes, unchanged.
    pub fn consensus_encode(&self) -> (r: Vec<u8>)
        ensures
            r@ == self@,
    {
        clone_bytes(&self.bytes)
    }
}

/// Fetches the client secret encoding from the database, or draws and stores
/// a fresh one if none is present.
pub fn get_client_root_secret_encoding(db: &mut ClientDb) -> (r: Vec<u8>)
    ensures
        old(db).root_secret matches Some(s) ==> r@ == s@ && *final(db) == *old(db),
        old(db).root_secret is None ==> r@.len() == 32,
        final(db).root_secret matches Some(s) && r@ == s@,
        final(db).active_states == old(db).active_states,
        final(db).inactive_states == old(db).inactive_states,
        final(db).log_entries == old(db).log_entries,
{
    match &db.root_secret {
        Some(s) => clone_bytes(s),
        None => {
            let secret = random_secret_bytes();
            let copy = clone_bytes(&secret);
            db.root_secret = Some(secret);
            copy
        },
    }
}

/// Stores the client secret, returning whether an old one was overwritten.
pub fn set_client_root_secret(db: &mut ClientDb, secret: &ClientSecret) -> (r: bool)
    ensures
        r == (old(db).root_secret is Some),
        final(db).root_secret matches Some(s) && s@ == secret@,
        final(db).active_states == old(db).active_states,
        final(db).inactive_states == old(db).inactive_states,
        final(db).log_entries == old(db).log_entries,
{
    let had = db.root_secret.is_some();
    db.root_secret = Some(secret.consensus_encode());
    had
}

/// Fetches the client root secret from the database, or draws and stores a
/// fresh one if none is present. Deriving per-module secrets from it is the
/// key-derivation collaborator's work; the core hands the bytes on.
pub fn get_client_root_secret(db: &mut ClientDb) -> (r: Vec<u8>)
    ensures
        old(db).root_secret matches Some(s) ==> r@ == s@ && *final(db) == *old(db),
        final(db).root_secret matches Some(s) && r@ == s@,
        final(db).active_states == old(db).active_states,
        final(db).inactive_states == old(db).inactive_states,
        final(db).log_entries == old(db).log_entries,
{
    get_client_root_secret_encoding(db)
}

} // verus!
