//! The chain data model: headers, entries, and the pairings of the two that
//! form the unit returned by reads (an element).

use vstd::prelude::*;
use crate::Address;
use crate::Dna;
use crate::LinkData;
use crate::PublicKey;
use crate::Timestamp;

verus! {

/// The unit a DHT read returns: a header alone, or a header paired with the
/// entry it references.
#[derive(Clone, Copy, Debug, PartialEq, Eq, Structural)]
pub enum DHTElement {
    Header(Header),
    HeaderWithEntry(HeaderWithEntry),
}

/// A header paired with an entry of the matching kind.
#[derive(Clone, Copy, Debug, PartialEq, Eq, Structural)]
pub enum HeaderWithEntry {
    Create(NormalHeader, BigEEntry),
    Update(UpdateHeader, BigEEntry),
    Delete(NormalHeader, DeleteEntry),
    AddLink(NormalHeader, AddLinkEntry),
    RemoveLink(NormalHeader, RemoveLinkEntry),
}

impl HeaderWithEntry {
    /// The pairing of a header with an entry, defined exactly when their
    /// kinds agree.
    pub open spec fn spec_pair(header: Header, entry: Entry) -> Option<HeaderWithEntry> {
        match (header, entry) {
            (Header::Create(h), Entry::BigE(e)) => Some(HeaderWithEntry::Create(h, e)),
            (Header::Update(h), Entry::BigE(e)) => Some(HeaderWithEntry::Update(h, e)),
            (Header::Delete(h), Entry::Delete(e)) => Some(HeaderWithEntry::Delete(h, e)),
            (Header::AddLink(h), Entry::AddLink(e)) => Some(HeaderWithEntry::AddLink(h, e)),
            (Header::RemoveLink(h), Entry::RemoveLink(e)) => Some(
                HeaderWithEntry::RemoveLink(h, e),
            ),
            _ => None,
        }
    }

    /// Pair a header with an entry, refusing a pair whose kinds disagree.
    pub fn try_from_parts(header: Header, entry: Entry) -> (r: Result<Self, (Header, Entry)>)
        ensures
            match Self::spec_pair(header, entry) {
                Some(hwe) => r == Ok::<Self, (Header, Entry)>(hwe),
                None => r == Err::<Self, (Header, Entry)>((header, entry)),
            },
    {
        match (header, entry) {
            (Header::Create(header), Entry::BigE(entry)) => Ok(Self::Create(header, entry)),
            (Header::Update(header), Entry::BigE(entry)) => Ok(Self::Update(header, entry)),
            (Header::Delete(header), Entry::Delete(entry)) => Ok(Self::Delete(header, entry)),
            (Header::AddLink(header), Entry::AddLink(entry)) => Ok(Self::AddLink(header, entry)),
            (Header::RemoveLink(header), Entry::RemoveLink(entry)) => Ok(
                Self::RemoveLink(header, entry),
            ),
            (header, entry) => Err((header, entry)),
        }
    }

    /// Drop the entry and keep the header, under its header-enum variant.
    pub fn into_header(self) -> (r: Header)
        ensures
            r == self.spec_header(),
    {
        match self {
            HeaderWithEntry::Create(header, _) => Header::Create(header),
            HeaderWithEntry::Update(header, _) => Header::Update(header),
            HeaderWithEntry::Delete(header, _) => Header::Delete(header),
            HeaderWithEntry::AddLink(header, _) => Header::AddLink(header),
            HeaderWithEntry::RemoveLink(header, _) => Header::RemoveLink(header),
        }
    }

    /// The header half of the pair.
    pub open spec fn spec_header(self) -> Header {
        match self {
            HeaderWithEntry::Create(header, _) => Header::Create(header),
            HeaderWithEntry::Update(header, _) => Header::Update(header),
            HeaderWithEntry::Delete(header, _) => Header::Delete(header),
            HeaderWithEntry::AddLink(header, _) => Header::AddLink(header),
            HeaderWithEntry::RemoveLink(header, _) => Header::RemoveLink(header),
        }
    }
}

/// A header paired with an entry as it sits on a source chain, where the
/// genesis record pairs a minimal header with the chain's Dna payload.
#[derive(Clone, Copy, Debug, PartialEq, Eq, Structural)]
pub enum ChainHeaderWithEntry {
    Normal(HeaderWithEntry),
    Dna(MinHeader, Dna),
}

impl ChainHeaderWithEntry {
    /// Pair a header with a chain entry, refusing a pair whose kinds disagree.
    pub fn try_from_parts(header: Header, entry: ChainEntry) -> (r: Result<
        Self,
        (Header, ChainEntry),
    >)
        ensures
            match entry {
                ChainEntry::Dna(e) => match header {
                    Header::Dna(h) => r == Ok::<Self, (Header, ChainEntry)>(
                        ChainHeaderWithEntry::Dna(h, e),
                    ),
                    _ => r == Err::<Self, (Header, ChainEntry)>((header, entry)),
                },
                ChainEntry::Normal(e) => match HeaderWithEntry::spec_pair(header, e) {
                    Some(hwe) => r == Ok::<Self, (Header, ChainEntry)>(
                        ChainHeaderWithEntry::Normal(hwe),
                    ),
                    None => r == Err::<Self, (Header, ChainEntry)>((header, entry)),
                },
            },
    {
        match entry {
            ChainEntry::Dna(entry) => match header {
                Header::Dna(header) => Ok(Self::Dna(header, entry)),
                header => Err((header, ChainEntry::Dna(entry))),
            },
            ChainEntry::Normal(entry) => match HeaderWithEntry::try_from_parts(header, entry) {
                Ok(hwe) => Ok(Self::Normal(hwe)),
                Err((header, entry)) => Err((header, ChainEntry::Normal(entry))),
            },
        }
    }
}

/// An immutable record of a chain event.
#[derive(Clone, Copy, Debug, PartialEq, Eq, Structural)]
pub enum Header {
    Dna(MinHeader),
    Create(NormalHeader),
    Update(UpdateHeader),
    Delete(NormalHeader),
    AddLink(NormalHeader),
    RemoveLink(NormalHeader),
}

impl Header {
    /// The public key of the agent that authored this header.
    pub fn author(&self) -> (r: &PublicKey)
        ensures
            *r == self.spec_author(),
    {
        match &self {
            Header::Dna(min_header) => &min_header.author,
            Header::Create(normal_header) => &normal_header.author,
            Header::Delete(normal_header) => &normal_header.author,
            Header::AddLink(normal_header) => &normal_header.author,
            Header::RemoveLink(normal_header) => &normal_header.author,
            Header::Update(update_header) => &update_header.author,
        }
    }

    pub open spec fn spec_author(self) -> PublicKey {
        match self {
            Header::Dna(min_header) => min_header.author,
            Header::Create(normal_header) => normal_header.author,
            Header::Delete(normal_header) => normal_header.author,
            Header::AddLink(normal_header) => normal_header.author,
            Header::RemoveLink(normal_header) => normal_header.author,
            Header::Update(update_header) => update_header.author,
        }
    }

    /// The hash of the header this one chains onto, absent only on genesis.
    pub open spec fn spec_prev(self) -> Option<Address> {
        match self {
            Header::Dna(_) => None,
            Header::Create(h) => Some(h.prev_header),
            Header::Delete(h) => Some(h.prev_header),
            Header::AddLink(h) => Some(h.prev_header),
            Header::RemoveLink(h) => Some(h.prev_header),
            Header::Update(h) => Some(h.prev_header),
        }
    }

    /// The hash of the entry this header references.
    pub open spec fn spec_entry(self) -> Address {
        match self {
            Header::Dna(h) => h.entry,
            Header::Create(h) => h.entry,
            Header::Delete(h) => h.entry,
            Header::AddLink(h) => h.entry,
            Header::RemoveLink(h) => h.entry,
            Header::Update(h) => h.entry,
        }
    }

    /// The entry hash a header carries, read at run time.
    pub fn entry_address(&self) -> (r: Address)
        ensures
            r == self.spec_entry(),
    {
        match &self {
            Header::Dna(h) => h.entry,
            Header::Create(h) => h.entry,
            Header::Delete(h) => h.entry,
            Header::AddLink(h) => h.entry,
            Header::RemoveLink(h) => h.entry,
            Header::Update(h) => h.entry,
        }
    }
}

/// An entry: the payload half of an element, content-addressed independently
/// of its header.
#[derive(Clone, Copy, Debug, PartialEq, Eq, Structural)]
pub enum Entry {
    BigE(BigEEntry),
    Header(Header),
    Delete(DeleteEntry),
    AddLink(AddLinkEntry),
    RemoveLink(RemoveLinkEntry),
}

/// An entry as it sits on a source chain.
#[derive(Clone, Copy, Debug, PartialEq, Eq, Structural)]
pub enum ChainEntry {
    Dna(Dna),
    Normal(Entry),
}

/// The header written when an entry replaces another.
#[derive(Clone, Copy, Debug, PartialEq, Eq, Structural)]
pub struct UpdateHeader {
    pub replaces: Address,
    pub prev_header: Address,
    pub entry: Address,
    pub author: PublicKey,
    pub timestamp: Timestamp,
}

/// The header written for every non-genesis, non-update chain event.
#[derive(Clone, Copy, Debug, PartialEq, Eq, Structural)]
pub struct NormalHeader {
    pub prev_header: Address,
    pub entry: Address,
    pub author: PublicKey,
    pub timestamp: Timestamp,
}

/// The genesis header: first on the chain, so it has no predecessor.
#[derive(Clone, Copy, Debug, PartialEq, Eq, Structural)]
pub struct MinHeader {
    pub entry: Address,
    pub author: PublicKey,
    pub timestamp: Timestamp,
}

/// An application-defined entry payload, or an agent's key entry.
#[derive(Clone, Copy, Debug, PartialEq, Eq, Structural)]
pub enum BigEEntry {
    App(AppEntry),
    AgentKey(PublicKey),
}

/// An opaque application payload.
#[derive(Clone, Copy, Debug, PartialEq, Eq, Structural)]
pub struct AppEntry(pub u64);

/// The entry recording which header a delete removes.
#[derive(Clone, Copy, Debug, PartialEq, Eq, Structural)]
pub struct DeleteEntry {
    pub deletes: Address,
}

/// The entry recording a link from a base entry to a target entry.
#[derive(Clone, Copy, Debug, PartialEq, Eq, Structural)]
pub struct AddLinkEntry {
    pub base: Address,
    pub target: Address,
    pub data: LinkData,
}

/// The entry recording the removal of an earlier link.
#[derive(Clone, Copy, Debug, PartialEq, Eq, Structural)]
pub struct RemoveLinkEntry {
    pub base: Address,
    /// Hash of the add-link header whose link this removes.
    pub removes: Address,
}

} // verus!
