//! The content-addressed store buffer: signed headers and entries, each
//! keyed by the hash of its content, buffered atop the persisted tables.

use vstd::prelude::*;
use crate::Address;
use crate::Signed;
use crate::db::DbState;
use crate::entry::Entry;
use crate::entry::Header;
use crate::kv_int::KvIntBuffer;
use crate::kv_int::effective_get;
use crate::spec_hash_entry;
use crate::spec_hash_header;

verus! {

/// Buffered access to the two content-addressed tables.
pub struct CasBuf {
    pub headers: KvIntBuffer<Signed<Header>>,
    pub entries: KvIntBuffer<Entry>,
}

impl CasBuf {
    pub open spec fn wf(self) -> bool {
        self.headers.wf() && self.entries.wf()
    }

    /// A buffer with nothing buffered yet.
    pub fn new() -> (r: Self)
        ensures
            r.wf(),
            r.headers@ == Map::<u128, Option<Signed<Header>>>::empty(),
            r.entries@ == Map::<u128, Option<Entry>>::empty(),
    {
        CasBuf { headers: KvIntBuffer::new(), entries: KvIntBuffer::new() }
    }

    /// Buffer a signed header, and its entry when given, each under the
    /// hash of its own content.
    pub fn put(&mut self, signed_header: Signed<Header>, entry: Option<Entry>)
        requires
            old(self).wf(),
        ensures
            final(self).wf(),
            final(self).headers@ == old(self).headers@.insert(
                spec_hash_header(signed_header.data) as u128,
                Some(signed_header),
            ),
            final(self).entries@ == match entry {
                Some(e) => old(self).entries@.insert(spec_hash_entry(e) as u128, Some(e)),
                None => old(self).entries@,
            },
    {
        let hh = crate::hash_header(&signed_header.data);
        self.headers.put(hh.0 as u128, signed_header);
        match entry {
            Some(e) => {
                let eh = crate::hash_entry(&e);
                self.entries.put(eh.0 as u128, e);
            },
            None => {},
        }
    }

    /// Read the signed header stored under `hash`, overlay first.
    pub fn get_header(&self, db: &DbState, hash: &Address) -> (r: Option<Signed<Header>>)
        requires
            self.wf(),
            db.wf(),
        ensures
            r == effective_get(self.headers@, db.cas_headers@, hash.0 as u128),
    {
        self.headers.get(&db.cas_headers, hash.0 as u128)
    }

    /// Read the entry stored under `hash`, overlay first.
    pub fn get_entry(&self, db: &DbState, hash: &Address) -> (r: Option<Entry>)
        requires
            self.wf(),
            db.wf(),
        ensures
            r == effective_get(self.entries@, db.cas_entries@, hash.0 as u128),
    {
        self.entries.get(&db.cas_entries, hash.0 as u128)
    }
}

} // verus!
