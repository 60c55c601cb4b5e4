//! Commit-side transforms: the notifications a committed chain record emits
//! for DHT propagation, and the routing neighbourhood (basis hash) each one
//! is addressed to.

use vstd::prelude::*;
use crate::Address;
use crate::Signed;
use crate::entry::AddLinkEntry;
use crate::entry::BigEEntry;
use crate::entry::ChainHeaderWithEntry;
use crate::entry::DeleteEntry;
use crate::entry::Header;
use crate::entry::HeaderWithEntry;
use crate::entry::NormalHeader;
use crate::entry::RemoveLinkEntry;
use crate::entry::UpdateHeader;
use crate::spec_hash_header;
use crate::spec_hash_public_key;

verus! {

/// One announcement a committed record makes to the DHT.
#[derive(Clone, Copy, Debug, PartialEq, Eq, Structural)]
pub enum Notification {
    StoreHeader(Signed<Header>),
    StoreEntry(Signed<NormalHeader>, BigEEntry),
    RegisterAgentActivity(Signed<Header>),
    RegisterUpdatedTo(Signed<UpdateHeader>, BigEEntry),
    RegisterDeletedBy(Signed<NormalHeader>, DeleteEntry),
    RegisterAddLink(Signed<NormalHeader>, AddLinkEntry),
    RegisterRemoveLink(Signed<NormalHeader>, RemoveLinkEntry),
}

/// The routing hash a notification is addressed to.
pub open spec fn spec_hash_hood(notification: Notification) -> Address {
    match notification {
        Notification::StoreHeader(header) => Address(spec_hash_header(header.data)),
        Notification::StoreEntry(header, _) => header.data.entry,
        Notification::RegisterAgentActivity(header) => Address(
            spec_hash_public_key(header.data.spec_author()),
        ),
        Notification::RegisterUpdatedTo(header, _) => header.data.replaces,
        Notification::RegisterDeletedBy(_, entry) => entry.deletes,
        Notification::RegisterAddLink(_, entry) => entry.base,
        Notification::RegisterRemoveLink(_, entry) => entry.base,
    }
}

/// Where in the DHT a notification goes: the neighbourhood of the hash its
/// effect is indexed under.
pub fn hash_hood(notification: Notification) -> (r: Address)
    ensures
        r == spec_hash_hood(notification),
{
    match notification {
        Notification::StoreHeader(header) => crate::hash_header(&header.data),
        Notification::StoreEntry(header, _entry) => header.into_inner().entry,
        Notification::RegisterAgentActivity(header) => crate::hash_public_key(
            header.data.author(),
        ),
        Notification::RegisterUpdatedTo(header, _entry) => header.into_inner().replaces,
        Notification::RegisterDeletedBy(_header, entry) => entry.deletes,
        Notification::RegisterAddLink(_header, entry) => entry.base,
        Notification::RegisterRemoveLink(_header, entry) => entry.base,
    }
}

/// The notifications one committed chain record emits, by header kind.
/// Every record announces its header and its author's activity. A create
/// additionally announces its entry; an update carries its new entry in the
/// replaced-by announcement; delete, add-link and remove-link records
/// announce their register effect. The genesis record announces only header
/// and activity: a Dna is never published on its own.
pub open spec fn spec_produce_notifications(commit: Signed<ChainHeaderWithEntry>) -> Seq<
    Notification,
> {
    let sig = commit.signature;
    match commit.data {
        ChainHeaderWithEntry::Dna(min, _dna) => {
            let header = Signed { data: Header::Dna(min), signature: sig };
            seq![
                Notification::StoreHeader(header),
                Notification::RegisterAgentActivity(header),
            ]
        },
        ChainHeaderWithEntry::Normal(hwe) => {
            let header = Signed { data: hwe.spec_header(), signature: sig };
            match hwe {
                HeaderWithEntry::Create(n, b) => seq![
                    Notification::StoreHeader(header),
                    Notification::StoreEntry(Signed { data: n, signature: sig }, b),
                    Notification::RegisterAgentActivity(header),
                ],
                HeaderWithEntry::Update(u, b) => seq![
                    Notification::StoreHeader(header),
                    Notification::RegisterAgentActivity(header),
                    Notification::RegisterUpdatedTo(Signed { data: u, signature: sig }, b),
                ],
                HeaderWithEntry::Delete(n, d) => seq![
                    Notification::StoreHeader(header),
                    Notification::RegisterAgentActivity(header),
                    Notification::RegisterDeletedBy(Signed { data: n, signature: sig }, d),
                ],
                HeaderWithEntry::AddLink(n, a) => seq![
                    Notification::StoreHeader(header),
                    Notification::RegisterAgentActivity(header),
                    Notification::RegisterAddLink(Signed { data: n, signature: sig }, a),
                ],
                HeaderWithEntry::RemoveLink(n, rl) => seq![
                    Notification::StoreHeader(header),
                    Notification::RegisterAgentActivity(header),
                    Notification::RegisterRemoveLink(Signed { data: n, signature: sig }, rl),
                ],
            }
        },
    }
}

/// Emit the notifications for one committed chain record.
pub fn produce_notifications(commit: Signed<ChainHeaderWithEntry>) -> (r: Vec<Notification>)
    ensures
        r@ == spec_produce_notifications(commit),
{
    let sig = commit.signature;
    let mut out: Vec<Notification> = Vec::new();
    match commit.data {
        ChainHeaderWithEntry::Dna(min, _dna) => {
            let header = Signed { data: Header::Dna(min), signature: sig };
            out.push(Notification::StoreHeader(header));
            out.push(Notification::RegisterAgentActivity(header));
        },
        ChainHeaderWithEntry::Normal(hwe) => {
            let header = Signed { data: hwe.into_header(), signature: sig };
            out.push(Notification::StoreHeader(header));
            match hwe {
                HeaderWithEntry::Create(n, b) => {
                    out.push(Notification::StoreEntry(Signed { data: n, signature: sig }, b));
                    out.push(Notification::RegisterAgentActivity(header));
                    proof {
                        assert(out@ =~= spec_produce_notifications(commit));
                    }
                },
                HeaderWithEntry::Update(u, b) => {
                    out.push(Notification::RegisterAgentActivity(header));
                    out.push(
                        Notification::RegisterUpdatedTo(Signed { data: u, signature: sig }, b),
                    );
                    proof {
                        assert(out@ =~= spec_produce_notifications(commit));
                    }
                },
                HeaderWithEntry::Delete(n, d) => {
                    out.push(Notification::RegisterAgentActivity(header));
                    out.push(
                        Notification::RegisterDeletedBy(Signed { data: n, signature: sig }, d),
                    );
                    proof {
                        assert(out@ =~= spec_produce_notifications(commit));
                    }
                },
                HeaderWithEntry::AddLink(n, a) => {
                    out.push(Notification::RegisterAgentActivity(header));
                    out.push(
                        Notification::RegisterAddLink(Signed { data: n, signature: sig }, a),
                    );
                    proof {
                        assert(out@ =~= spec_produce_notifications(commit));
                    }
                },
                HeaderWithEntry::RemoveLink(n, rl) => {
                    out.push(Notification::RegisterAgentActivity(header));
                    out.push(
                        Notification::RegisterRemoveLink(Signed { data: n, signature: sig }, rl),
                    );
                    proof {
                        assert(out@ =~= spec_produce_notifications(commit));
                    }
                },
            }
        },
    }
    proof {
        assert(out@ =~= spec_produce_notifications(commit));
    }
    out
}

} // verus!
