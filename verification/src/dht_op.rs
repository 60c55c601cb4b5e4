//! The units of DHT propagation and integration: full operations as they sit
//! in the integration queue, and their light forms (dependency hashes only)
//! as the integrated store keeps them.

use vstd::prelude::*;
use crate::Address;
use crate::Signature;
use crate::Timestamp;
use crate::entry::AddLinkEntry;
use crate::entry::BigEEntry;
use crate::entry::DeleteEntry;
use crate::entry::Entry;
use crate::entry::Header;
use crate::entry::NormalHeader;
use crate::entry::RemoveLinkEntry;
use crate::entry::UpdateHeader;
use crate::spec_hash_entry;
use crate::spec_hash_header;
use crate::spec_hash_public_key;
use crate::spec_hash_seed;
use crate::spec_mix;

verus! {

/// The verdict validation attached to an operation before it was queued.
/// Only `Valid` operations have their effects applied; the others are kept
/// for audit.
#[derive(Clone, Copy, Debug, PartialEq, Eq, Structural)]
pub enum ValidationStatus {
    Valid,
    Rejected,
    Abandoned,
}

/// Whether a replacement aims at the original header or at its entry.
#[derive(Clone, Copy, Debug, PartialEq, Eq, Structural)]
pub enum IntendedFor {
    Header,
    Entry,
}

/// A header that carries a new entry: the only kinds a StoreEntry operation
/// can package.
#[derive(Clone, Copy, Debug, PartialEq, Eq, Structural)]
pub enum NewEntryHeader {
    Create(NormalHeader),
    Update(UpdateHeader),
}

impl NewEntryHeader {
    /// The same header under the general header enum.
    pub open spec fn spec_header(self) -> Header {
        match self {
            NewEntryHeader::Create(n) => Header::Create(n),
            NewEntryHeader::Update(u) => Header::Update(u),
        }
    }

    pub fn into_header(self) -> (r: Header)
        ensures
            r == self.spec_header(),
    {
        match self {
            NewEntryHeader::Create(n) => Header::Create(n),
            NewEntryHeader::Update(u) => Header::Update(u),
        }
    }
}

/// One distributable operation, carrying its signature and the minimal data
/// needed to apply its effect independently.
#[derive(Clone, Copy, Debug, PartialEq, Eq, Structural)]
pub enum DhtOp {
    /// Store a header, and its entry when it carries one.
    StoreElement(Signature, Header, Option<Entry>),
    /// Store a new-entry header together with its entry, and index the
    /// header under the entry's hash.
    StoreEntry(Signature, NewEntryHeader, BigEEntry),
    /// Record the header in its author's activity index.
    RegisterAgentActivity(Signature, Header),
    /// Record that an update replaces an original header or entry.
    RegisterReplacedBy(Signature, UpdateHeader, IntendedFor, Option<BigEEntry>),
    /// Record a delete against the removed header's hash.
    RegisterDeletedBy(Signature, NormalHeader, DeleteEntry),
    /// Record a delete against the removed header's entry hash.
    RegisterDeletedEntryHeader(Signature, NormalHeader, DeleteEntry),
    /// Record a link from a base entry.
    RegisterAddLink(Signature, NormalHeader, AddLinkEntry),
    /// Remove the link record an earlier add-link operation created.
    RegisterRemoveLink(Signature, NormalHeader, RemoveLinkEntry),
}

impl DhtOp {
    /// The header the operation packages, under the general header enum.
    pub open spec fn spec_header(self) -> Header {
        match self {
            DhtOp::StoreElement(_, h, _) => h,
            DhtOp::StoreEntry(_, neh, _) => neh.spec_header(),
            DhtOp::RegisterAgentActivity(_, h) => h,
            DhtOp::RegisterReplacedBy(_, u, _, _) => Header::Update(u),
            DhtOp::RegisterDeletedBy(_, n, _) => Header::Delete(n),
            DhtOp::RegisterDeletedEntryHeader(_, n, _) => Header::Delete(n),
            DhtOp::RegisterAddLink(_, n, _) => Header::AddLink(n),
            DhtOp::RegisterRemoveLink(_, n, _) => Header::RemoveLink(n),
        }
    }

    /// The variant's place in the operation hash.
    pub open spec fn spec_tag(self) -> u64 {
        match self {
            DhtOp::StoreElement(..) => 21,
            DhtOp::StoreEntry(..) => 22,
            DhtOp::RegisterAgentActivity(..) => 23,
            DhtOp::RegisterReplacedBy(..) => 24,
            DhtOp::RegisterDeletedBy(..) => 25,
            DhtOp::RegisterDeletedEntryHeader(..) => 26,
            DhtOp::RegisterAddLink(..) => 27,
            DhtOp::RegisterRemoveLink(..) => 28,
        }
    }

    /// The signature the operation carries.
    pub open spec fn spec_signature(self) -> Signature {
        match self {
            DhtOp::StoreElement(s, _, _) => s,
            DhtOp::StoreEntry(s, _, _) => s,
            DhtOp::RegisterAgentActivity(s, _) => s,
            DhtOp::RegisterReplacedBy(s, _, _, _) => s,
            DhtOp::RegisterDeletedBy(s, _, _) => s,
            DhtOp::RegisterDeletedEntryHeader(s, _, _) => s,
            DhtOp::RegisterAddLink(s, _, _) => s,
            DhtOp::RegisterRemoveLink(s, _, _) => s,
        }
    }
}

/// Content hash of an operation: a function of its variant, signature and
/// packaged header, so the same operation always lands on the same key.
pub open spec fn spec_op_hash(op: DhtOp) -> u64 {
    spec_mix(
        spec_mix(spec_mix(spec_hash_seed(), op.spec_tag()), op.spec_signature().0),
        spec_hash_header(op.spec_header()),
    )
}

/// Hash an operation to the key its queue and integrated records use.
pub fn dht_op_hash(op: &DhtOp) -> (r: Address)
    ensures
        r.0 == spec_op_hash(*op),
{
    let seed = 0xcbf29ce484222325u64;
    let tag: u64 = match op {
        DhtOp::StoreElement(..) => 21,
        DhtOp::StoreEntry(..) => 22,
        DhtOp::RegisterAgentActivity(..) => 23,
        DhtOp::RegisterReplacedBy(..) => 24,
        DhtOp::RegisterDeletedBy(..) => 25,
        DhtOp::RegisterDeletedEntryHeader(..) => 26,
        DhtOp::RegisterAddLink(..) => 27,
        DhtOp::RegisterRemoveLink(..) => 28,
    };
    let sig = match op {
        DhtOp::StoreElement(s, _, _) => *s,
        DhtOp::StoreEntry(s, _, _) => *s,
        DhtOp::RegisterAgentActivity(s, _) => *s,
        DhtOp::RegisterReplacedBy(s, _, _, _) => *s,
        DhtOp::RegisterDeletedBy(s, _, _) => *s,
        DhtOp::RegisterDeletedEntryHeader(s, _, _) => *s,
        DhtOp::RegisterAddLink(s, _, _) => *s,
        DhtOp::RegisterRemoveLink(s, _, _) => *s,
    };
    let header = match op {
        DhtOp::StoreElement(_, h, _) => *h,
        DhtOp::StoreEntry(_, neh, _) => neh.into_header(),
        DhtOp::RegisterAgentActivity(_, h) => *h,
        DhtOp::RegisterReplacedBy(_, u, _, _) => Header::Update(*u),
        DhtOp::RegisterDeletedBy(_, n, _) => Header::Delete(*n),
        DhtOp::RegisterDeletedEntryHeader(_, n, _) => Header::Delete(*n),
        DhtOp::RegisterAddLink(_, n, _) => Header::AddLink(*n),
        DhtOp::RegisterRemoveLink(_, n, _) => Header::RemoveLink(*n),
    };
    let hh = crate::hash_header(&header);
    Address(crate::hash_mix(crate::hash_mix(crate::hash_mix(seed, tag), sig.0), hh.0))
}

/// An operation in light form: its kind, the hash of its header, and the
/// hashes its effect depends on — payloads stripped.
#[derive(Clone, Copy, Debug, PartialEq, Eq, Structural)]
pub enum DhtOpLight {
    /// Header hash, and the entry hash when the operation carried an entry.
    StoreElement(Address, Option<Address>),
    /// Header hash and entry hash.
    StoreEntry(Address, Address),
    /// Header hash.
    RegisterAgentActivity(Address),
    /// Update-header hash and the basis the update is indexed under.
    RegisterReplacedBy(Address, Address),
    /// Delete-header hash and the removed header's hash.
    RegisterDeletedBy(Address, Address),
    /// Delete-header hash and the removed header's entry hash.
    RegisterDeletedEntryHeader(Address, Address),
    /// Add-link-header hash and the base entry's hash.
    RegisterAddLink(Address, Address),
    /// Remove-link-header hash and the base entry's hash.
    RegisterRemoveLink(Address, Address),
}

/// A record of the integration queue: the operation and its validation
/// status, waiting to be applied.
#[derive(Clone, Copy, Debug, PartialEq, Eq, Structural)]
pub struct IntegrationQueueValue {
    pub validation_status: ValidationStatus,
    pub op: DhtOp,
}

/// A record of the integrated store: status, routing basis, and the
/// operation in light form, keyed by the operation's hash.
#[derive(Clone, Copy, Debug, PartialEq, Eq, Structural)]
pub struct IntegratedDhtOpsValue {
    pub validation_status: ValidationStatus,
    pub basis: Address,
    pub op: DhtOpLight,
}

/// The integration queue key: timestamp in the high bits, operation hash in
/// the low ones, so a scan drains in time order.
pub open spec fn spec_queue_key(ts: Timestamp, op_hash: u64) -> u128 {
    ((ts.0 as u128) << 64u128) | (op_hash as u128)
}

/// Build the queue key for an operation queued at `ts`.
pub fn queue_key(ts: Timestamp, op_hash: u64) -> (r: u128)
    ensures
        r == spec_queue_key(ts, op_hash),
{
    ((ts.0 as u128) << 64u128) | (op_hash as u128)
}

/// Content hash of the entry a StoreEntry operation carries.
pub open spec fn spec_store_entry_hash(b: BigEEntry) -> u64 {
    spec_hash_entry(Entry::BigE(b))
}

/// The author-activity basis of a header: its author's key hash.
pub open spec fn spec_activity_basis(h: Header) -> u64 {
    spec_hash_public_key(h.spec_author())
}

} // verus!
