//! The cascade resolver's read path: answer "do we have X" from the local
//! content-addressed store and metadata first, validate and merge what the
//! network collaborator returns, and surface a hard error when the network
//! answers with a detail kind the requested hash cannot have.

use vstd::prelude::*;
use crate::Address;
use crate::Signed;
use crate::cas::CasBuf;
use crate::db::DbState;
use crate::entry::DHTElement;
use crate::entry::Entry;
use crate::entry::Header;
use crate::entry::HeaderWithEntry;
use crate::kv_int::effective_get;
use crate::metadata::LinkMetaVal;

verus! {

/// What a details query answers: a full element for a header hash, or a
/// bare entry for an entry hash.
#[derive(Clone, Copy, Debug, PartialEq, Eq, Structural)]
pub enum Details {
    Element(Signed<Header>, Option<Entry>),
    Entry(Entry),
}

/// A hard failure of the read path.
#[derive(Clone, Copy, Debug, PartialEq, Eq, Structural)]
pub enum CascadeError {
    /// The network returned a detail kind inconsistent with the hash kind
    /// requested: a protocol or collaborator bug, never absorbed.
    InvalidResponse(Address),
    /// The element a call depends on could not be found.
    ElementDeps(Address),
}

/// The kind of content a hash was asked for.
#[derive(Clone, Copy, Debug, PartialEq, Eq, Structural)]
pub enum HashKind {
    Header,
    Entry,
}

/// The element stored locally under a header hash: the header, paired with
/// its entry when the store holds that too and the kinds agree.
pub open spec fn spec_local_element(
    cas: CasBuf,
    s: crate::db::DbView,
    hash: Address,
) -> Option<DHTElement> {
    match effective_get(cas.headers@, s.cas_headers, hash.0 as u128) {
        None => None,
        Some(sh) => Some(
            match effective_get(
                cas.entries@,
                s.cas_entries,
                sh.data.spec_entry().0 as u128,
            ) {
                None => DHTElement::Header(sh.data),
                Some(e) => match HeaderWithEntry::spec_pair(sh.data, e) {
                    Some(hwe) => DHTElement::HeaderWithEntry(hwe),
                    None => DHTElement::Header(sh.data),
                },
            },
        ),
    }
}

/// Local read of an element by header hash: the store and its overlay
/// only, no network.
pub fn dht_get(cas: &CasBuf, db: &DbState, hash: &Address) -> (r: Option<DHTElement>)
    requires
        cas.wf(),
        db.wf(),
    ensures
        r == spec_local_element(*cas, db@, *hash),
{
    match cas.get_header(db, hash) {
        None => None,
        Some(sh) => {
            let eh = sh.data.entry_address();
            match cas.get_entry(db, &eh) {
                None => Some(DHTElement::Header(sh.into_inner())),
                Some(e) => match HeaderWithEntry::try_from_parts(sh.into_inner(), e) {
                    Ok(hwe) => Some(DHTElement::HeaderWithEntry(hwe)),
                    Err((h, _)) => Some(DHTElement::Header(h)),
                },
            }
        },
    }
}

/// Local read of details by hash kind: an element for a header hash, a
/// bare entry for an entry hash.
pub fn get_details(cas: &CasBuf, db: &DbState, hash: &Address, kind: HashKind) -> (r: Option<
    Details,
>)
    requires
        cas.wf(),
        db.wf(),
    ensures
        match kind {
            HashKind::Header => r == match effective_get(
                cas.headers@,
                db@.cas_headers,
                hash.0 as u128,
            ) {
                Some(sh) => Some(
                    Details::Element(
                        sh,
                        effective_get(
                            cas.entries@,
                            db@.cas_entries,
                            sh.data.spec_entry().0 as u128,
                        ),
                    ),
                ),
                None => None::<Details>,
            },
            HashKind::Entry => r == match effective_get(
                cas.entries@,
                db@.cas_entries,
                hash.0 as u128,
            ) {
                Some(e) => Some(Details::Entry(e)),
                None => None::<Details>,
            },
        },
{
    match kind {
        HashKind::Header => match cas.get_header(db, hash) {
            Some(sh) => {
                let eh = sh.data.entry_address();
                Some(Details::Element(sh, cas.get_entry(db, &eh)))
            },
            None => None,
        },
        HashKind::Entry => match cas.get_entry(db, hash) {
            Some(e) => Some(Details::Entry(e)),
            None => None,
        },
    }
}

/// Resolve the entry hash of an original element from the details a lookup
/// of its header hash produced. A bare-entry answer for a header hash is a
/// collaborator bug (`InvalidResponse`); a missing element, or a header
/// kind that stores no new entry, means the dependency is absent
/// (`ElementDeps`).
pub fn get_original_address(details: Option<Details>, address: Address) -> (r: Result<
    Address,
    CascadeError,
>)
    ensures
        match details {
            None => r == Err::<Address, CascadeError>(CascadeError::ElementDeps(address)),
            Some(Details::Entry(_)) => r == Err::<Address, CascadeError>(
                CascadeError::InvalidResponse(address),
            ),
            Some(Details::Element(sh, _)) => match sh.data {
                Header::Create(n) => r == Ok::<Address, CascadeError>(n.entry),
                Header::Update(u) => r == Ok::<Address, CascadeError>(u.entry),
                _ => r == Err::<Address, CascadeError>(CascadeError::ElementDeps(address)),
            },
        },
{
    match details {
        None => Err(CascadeError::ElementDeps(address)),
        Some(Details::Entry(_)) => Err(CascadeError::InvalidResponse(address)),
        Some(Details::Element(sh, _)) => match sh.data {
            Header::Create(n) => Ok(n.entry),
            Header::Update(u) => Ok(u.entry),
            _ => Err(CascadeError::ElementDeps(address)),
        },
    }
}

/// Merge link records fetched from the network into the local answer:
/// every local record stays, and a fetched record enters unless the answer
/// already covers its add-link header.
pub fn merge_links(local: Vec<LinkMetaVal>, fetched: &Vec<LinkMetaVal>) -> (r: Vec<LinkMetaVal>)
    ensures
        forall|i: int| 0 <= i < local@.len() ==> r@.contains(#[trigger] local@[i]),
        forall|i: int|
            0 <= i < fetched@.len() ==> r@.contains(#[trigger] fetched@[i]) || exists|j: int|
                0 <= j < r@.len() && (#[trigger] r@[j]).link_add_hash
                    == fetched@[i].link_add_hash,
        forall|i: int|
            0 <= i < r@.len() ==> local@.contains(#[trigger] r@[i]) || fetched@.contains(r@[i]),
{
    let mut out = local;
    let ghost local0 = out@;
    let n = fetched.len();
    let mut i: usize = 0;
    while i < n
        invariant
            n == fetched@.len(),
            i <= n,
            local0.len() <= out@.len(),
            forall|j: int| 0 <= j < local0.len() ==> out@[j] == local0[j],
            forall|j: int|
                0 <= j < i ==> out@.contains(#[trigger] fetched@[j]) || exists|w: int|
                    0 <= w < out@.len() && (#[trigger] out@[w]).link_add_hash
                        == fetched@[j].link_add_hash,
            forall|j: int|
                0 <= j < out@.len() ==> local0.contains(#[trigger] out@[j]) || fetched@.contains(
                    out@[j],
                ),
        decreases n - i,
    {
        let ghost out0 = out@;
        let cand = fetched[i];
        let mut covered = false;
        let ln = out.len();
        let mut j: usize = 0;
        while j < ln
            invariant
                ln == out@.len(),
                j <= ln,
                out@ == out0,
                covered ==> exists|w: int|
                    0 <= w < out@.len() && (#[trigger] out@[w]).link_add_hash
                        == cand.link_add_hash,
                !covered ==> forall|w: int|
                    0 <= w < j ==> (#[trigger] out@[w]).link_add_hash != cand.link_add_hash,
            decreases ln - j,
        {
            if out[j].link_add_hash.0 == cand.link_add_hash.0 {
                covered = true;
            }
            j = j + 1;
        }
        if !covered {
            out.push(cand);
            proof {
                assert(out@[out@.len() - 1] == cand);
            }
        }
        proof {
            assert forall|jj: int| 0 <= jj < i + 1 implies out@.contains(#[trigger] fetched@[jj])
                || exists|w: int|
                0 <= w < out@.len() && (#[trigger] out@[w]).link_add_hash
                    == fetched@[jj].link_add_hash by {
                if jj < i {
                    if out0.contains(fetched@[jj]) {
                        let w = choose|w: int|
                            0 <= w < out0.len() && out0[w] == fetched@[jj];
                        assert(out@[w] == fetched@[jj]);
                    } else {
                        let w = choose|w: int|
                            0 <= w < out0.len() && (#[trigger] out0[w]).link_add_hash
                                == fetched@[jj].link_add_hash;
                        assert(out@[w] == out0[w]);
                    }
                } else {
                    if covered {
                        let w = choose|w: int|
                            0 <= w < out0.len() && (#[trigger] out0[w]).link_add_hash
                                == cand.link_add_hash;
                        assert(out@[w] == out0[w]);
                    } else {
                        assert(out@[out@.len() - 1] == fetched@[jj]);
                    }
                }
            }
        }
        i = i + 1;
    }
    proof {
        assert forall|q: int| 0 <= q < local0.len() implies out@.contains(
            #[trigger] local0[q],
        ) by {
            assert(out@[q] == local0[q]);
        }
    }
    out
}

} // verus!
