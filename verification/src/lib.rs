//! Transactional storage and integration layer for a local node of an
//! agent-centric DHT: a buffered key-value store that overlays uncommitted
//! writes atop a persisted table, the operation-integration workflow that
//! turns queued operations into content-addressed records and metadata
//! indexes, and the chain-root gatekeeper that serializes appends to one
//! source chain.

use vstd::prelude::*;

pub mod cas;
pub mod cascade;
pub mod db;
pub mod dht_op;
pub mod entry;
pub mod gatekeep;
pub mod key_encoding;
pub mod kv_int;
pub mod laws;
pub mod metadata;
pub mod table;
pub mod transforms;
pub mod workflow;

verus! {

/// A content address: the hash of a value's canonical form.
#[derive(Clone, Copy, Debug, PartialEq, Eq, Structural)]
pub struct Address(pub u64);

/// An agent's public key.
#[derive(Clone, Copy, Debug, PartialEq, Eq, Structural)]
pub struct PublicKey(pub u64);

/// A chain timestamp.
#[derive(Clone, Copy, Debug, PartialEq, Eq, Structural)]
pub struct Timestamp(pub u64);

/// A detached signature over a value.
#[derive(Clone, Copy, Debug, PartialEq, Eq, Structural)]
pub struct Signature(pub u64);

/// A value paired with the signature of its author.
#[derive(Clone, Copy, Debug, PartialEq, Eq, Structural)]
pub struct Signed<T> {
    pub data: T,
    pub signature: Signature,
}

impl<T> Signed<T> {
    pub fn into_inner(self) -> (r: T)
        ensures
            r == self.data,
    {
        self.data
    }
}

/// The namespace id and tag a link is indexed under.
#[derive(Clone, Copy, Debug, PartialEq, Eq, Structural)]
pub struct LinkData {
    pub zome_id: u64,
    pub tag: u64,
}

/// The genesis payload of a chain.
#[derive(Clone, Copy, Debug, PartialEq, Eq, Structural)]
pub struct Dna(pub u64);

/// One mixing round of the content hash: rotate the accumulator and fold in
/// one word.
pub open spec fn spec_mix(h: u64, x: u64) -> u64 {
    ((h << 5u64) | (h >> 59u64)) ^ x
}

pub fn hash_mix(h: u64, x: u64) -> (r: u64)
    ensures
        r == spec_mix(h, x),
{
    ((h << 5u64) | (h >> 59u64)) ^ x
}

/// The accumulator every content hash starts from.
pub open spec fn spec_hash_seed() -> u64 {
    0xcbf29ce484222325u64
}

/// Content hash of a public key.
pub open spec fn spec_hash_public_key(k: PublicKey) -> u64 {
    spec_mix(spec_mix(spec_hash_seed(), 11), k.0)
}

/// Content hash of a header: a deterministic function of the variant and of
/// every field, so identical content always yields the same address.
pub open spec fn spec_hash_header(h: crate::entry::Header) -> u64 {
    match h {
        crate::entry::Header::Dna(m) => spec_mix(
            spec_mix(spec_mix(spec_mix(spec_hash_seed(), 1), m.entry.0), m.author.0),
            m.timestamp.0,
        ),
        crate::entry::Header::Create(n) => spec_hash_normal(2, n),
        crate::entry::Header::Update(u) => spec_mix(
            spec_mix(
                spec_mix(
                    spec_mix(spec_mix(spec_hash_seed(), 3), u.prev_header.0),
                    u.entry.0,
                ),
                u.author.0,
            ),
            spec_mix(u.timestamp.0, u.replaces.0),
        ),
        crate::entry::Header::Delete(n) => spec_hash_normal(4, n),
        crate::entry::Header::AddLink(n) => spec_hash_normal(5, n),
        crate::entry::Header::RemoveLink(n) => spec_hash_normal(6, n),
    }
}

pub open spec fn spec_hash_normal(tag: u64, n: crate::entry::NormalHeader) -> u64 {
    spec_mix(
        spec_mix(
            spec_mix(spec_mix(spec_mix(spec_hash_seed(), tag), n.prev_header.0), n.entry.0),
            n.author.0,
        ),
        n.timestamp.0,
    )
}

/// Content hash of an entry.
pub open spec fn spec_hash_entry(e: crate::entry::Entry) -> u64 {
    match e {
        crate::entry::Entry::BigE(b) => match b {
            crate::entry::BigEEntry::App(a) => spec_mix(spec_mix(spec_hash_seed(), 7), a.0),
            crate::entry::BigEEntry::AgentKey(k) => spec_mix(spec_mix(spec_hash_seed(), 8), k.0),
        },
        crate::entry::Entry::Header(h) => spec_mix(
            spec_mix(spec_hash_seed(), 9),
            spec_hash_header(h),
        ),
        crate::entry::Entry::Delete(d) => spec_mix(spec_mix(spec_hash_seed(), 10), d.deletes.0),
        crate::entry::Entry::AddLink(a) => spec_mix(
            spec_mix(
                spec_mix(spec_mix(spec_hash_seed(), 12), a.base.0),
                a.target.0,
            ),
            spec_mix(a.data.zome_id, a.data.tag),
        ),
        crate::entry::Entry::RemoveLink(r) => spec_mix(
            spec_mix(spec_mix(spec_hash_seed(), 13), r.base.0),
            r.removes.0,
        ),
    }
}

/// Hash a public key to the address its activity is indexed under.
pub fn hash_public_key(k: &PublicKey) -> (r: Address)
    ensures
        r.0 == spec_hash_public_key(*k),
{
    let seed = 0xcbf29ce484222325u64;
    Address(hash_mix(hash_mix(seed, 11), k.0))
}

/// Hash a header to its content address.
pub fn hash_header(h: &crate::entry::Header) -> (r: Address)
    ensures
        r.0 == spec_hash_header(*h),
{
    let seed = 0xcbf29ce484222325u64;
    match h {
        crate::entry::Header::Dna(m) => Address(
            hash_mix(hash_mix(hash_mix(hash_mix(seed, 1), m.entry.0), m.author.0), m.timestamp.0),
        ),
        crate::entry::Header::Create(n) => hash_normal(2, n),
        crate::entry::Header::Update(u) => Address(
            hash_mix(
                hash_mix(hash_mix(hash_mix(hash_mix(seed, 3), u.prev_header.0), u.entry.0), u.author.0),
                hash_mix(u.timestamp.0, u.replaces.0),
            ),
        ),
        crate::entry::Header::Delete(n) => hash_normal(4, n),
        crate::entry::Header::AddLink(n) => hash_normal(5, n),
        crate::entry::Header::RemoveLink(n) => hash_normal(6, n),
    }
}

fn hash_normal(tag: u64, n: &crate::entry::NormalHeader) -> (r: Address)
    ensures
        r.0 == spec_hash_normal(tag, *n),
{
    let seed = 0xcbf29ce484222325u64;
    Address(
        hash_mix(
            hash_mix(hash_mix(hash_mix(hash_mix(seed, tag), n.prev_header.0), n.entry.0), n.author.0),
            n.timestamp.0,
        ),
    )
}

/// Hash an entry to its content address.
pub fn hash_entry(e: &crate::entry::Entry) -> (r: Address)
    ensures
        r.0 == spec_hash_entry(*e),
{
    let seed = 0xcbf29ce484222325u64;
    match e {
        crate::entry::Entry::BigE(b) => match b {
            crate::entry::BigEEntry::App(a) => Address(hash_mix(hash_mix(seed, 7), a.0)),
            crate::entry::BigEEntry::AgentKey(k) => Address(hash_mix(hash_mix(seed, 8), k.0)),
        },
        crate::entry::Entry::Header(h) => {
            let inner = hash_header(h);
            Address(hash_mix(hash_mix(seed, 9), inner.0))
        },
        crate::entry::Entry::Delete(d) => Address(hash_mix(hash_mix(seed, 10), d.deletes.0)),
        crate::entry::Entry::AddLink(a) => Address(
            hash_mix(hash_mix(hash_mix(hash_mix(seed, 12), a.base.0), a.target.0), hash_mix(a.data.zome_id, a.data.tag)),
        ),
        crate::entry::Entry::RemoveLink(r) => Address(hash_mix(hash_mix(hash_mix(seed, 13), r.base.0), r.removes.0)),
    }
}

} // verus!
