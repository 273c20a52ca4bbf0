//! Identifier types: peers, revisions and object ids.
//!
//! A peer is named by its Ed25519 public key (32 bytes); a resource (URN)
//! by the content hash of its initial identity document (32 bytes); an
//! object in the store by its content hash (20 bytes).  Equality of each
//! is byte equality, and that is all the logic ever reads of them.

use vstd::prelude::*;

use crate::bytes::{bytes_eq, clone_bytes};

verus! {

/// An Ed25519 public key naming a participant.  Equality is byte equality
/// of the 32-byte key.
pub struct PeerId {
    pub key: Vec<u8>,
}

impl View for PeerId {
    type V = Seq<u8>;

    open spec fn view(&self) -> Seq<u8> {
        self.key@
    }
}

impl PeerId {
    /// The key has the length of an Ed25519 public key.
    pub open spec fn wf(&self) -> bool {
        self@.len() == 32
    }

    pub fn new(key: Vec<u8>) -> (r: PeerId)
        requires
            key@.len() == 32,
        ensures
            r@ == key@,
            r.wf(),
    {
        PeerId { key }
    }

    pub fn eq_peer(&self, other: &PeerId) -> (r: bool)
        ensures
            r <==> self@ == other@,
    {
        bytes_eq(&self.key, &other.key)
    }

    pub fn dup(&self) -> (r: PeerId)
        ensures
            r@ == self@,
    {
        PeerId { key: clone_bytes(&self.key) }
    }
}

/// The content hash of an initial identity document: the stable id of a
/// URN.
pub struct Revision {
    pub hash: Vec<u8>,
}

impl View for Revision {
    type V = Seq<u8>;

    open spec fn view(&self) -> Seq<u8> {
        self.hash@
    }
}

impl Revision {
    /// The hash has the length of the content-addressing function's output.
    pub open spec fn wf(&self) -> bool {
        self@.len() == 32
    }

    pub fn new(hash: Vec<u8>) -> (r: Revision)
        requires
            hash@.len() == 32,
        ensures
            r@ == hash@,
            r.wf(),
    {
        Revision { hash }
    }

    pub fn eq_rev(&self, other: &Revision) -> (r: bool)
        ensures
            r <==> self@ == other@,
    {
        bytes_eq(&self.hash, &other.hash)
    }

    pub fn dup(&self) -> (r: Revision)
        ensures
            r@ == self@,
    {
        Revision { hash: clone_bytes(&self.hash) }
    }
}

/// The id of an object in the local store or in a remote advertisement.
pub struct Oid {
    pub bytes: Vec<u8>,
}

impl View for Oid {
    type V = Seq<u8>;

    open spec fn view(&self) -> Seq<u8> {
        self.bytes@
    }
}

impl Oid {
    /// The id has the length of the store's object hash.
    pub open spec fn wf(&self) -> bool {
        self@.len() == 20
    }

    pub fn new(bytes: Vec<u8>) -> (r: Oid)
        requires
            bytes@.len() == 20,
        ensures
            r@ == bytes@,
            r.wf(),
    {
        Oid { bytes }
    }

    pub fn eq_oid(&self, other: &Oid) -> (r: bool)
        ensures
            r <==> self@ == other@,
    {
        bytes_eq(&self.bytes, &other.bytes)
    }

    pub fn dup(&self) -> (r: Oid)
        ensures
            r@ == self@,
    {
        Oid { bytes: clone_bytes(&self.bytes) }
    }
}

} // verus!
