//! The metadata store buffer: derived indexes over integrated content —
//! headers by entry, activity by author, updates and deletes by basis, and
//! link records queried by keys of decreasing specificity.

use vstd::prelude::*;
use crate::Address;
use crate::db::DbState;
use crate::db::index_items;
use crate::db::pack_key;
use crate::db::spec_pack;
use crate::entry::AddLinkEntry;
use crate::entry::Header;
use crate::entry::NormalHeader;
use crate::kv_int::KvIntBuffer;
use crate::kv_int::apply_scratch;
use crate::table::Table;
use crate::table::keys_distinct;
use crate::table::kv_map;
use crate::table::lemma_kv_row;

verus! {

/// One link record: the add-link header that created it, the link's target,
/// and the namespace, tag and base it is indexed under.
#[derive(Clone, Copy, Debug, PartialEq, Eq, Structural)]
pub struct LinkMetaVal {
    pub link_add_hash: Address,
    pub target: Address,
    pub zome_id: u64,
    pub tag: u64,
    pub base: Address,
}

/// A link query key, prefix-composable at decreasing specificity: all links
/// of a base, of a base and namespace, of a base, namespace and tag, or one
/// exact link.
#[derive(Clone, Copy, Debug, PartialEq, Eq, Structural)]
pub enum LinkMetaKey {
    Base(Address),
    BaseZome(Address, u64),
    BaseZomeTag(Address, u64, u64),
    Full(Address, u64, u64, Address),
}

impl LinkMetaKey {
    /// Whether a link record falls under this key.
    pub open spec fn spec_matches(self, v: LinkMetaVal) -> bool {
        match self {
            LinkMetaKey::Base(b) => v.base == b,
            LinkMetaKey::BaseZome(b, z) => v.base == b && v.zome_id == z,
            LinkMetaKey::BaseZomeTag(b, z, t) => v.base == b && v.zome_id == z && v.tag == t,
            LinkMetaKey::Full(b, z, t, h) => v.base == b && v.zome_id == z && v.tag == t
                && v.link_add_hash == h,
        }
    }

    pub fn matches(&self, v: &LinkMetaVal) -> (r: bool)
        ensures
            r == self.spec_matches(*v),
    {
        match self {
            LinkMetaKey::Base(b) => v.base.0 == b.0,
            LinkMetaKey::BaseZome(b, z) => v.base.0 == b.0 && v.zome_id == *z,
            LinkMetaKey::BaseZomeTag(b, z, t) => v.base.0 == b.0 && v.zome_id == *z && v.tag
                == *t,
            LinkMetaKey::Full(b, z, t, h) => v.base.0 == b.0 && v.zome_id == *z && v.tag == *t
                && v.link_add_hash.0 == h.0,
        }
    }
}

/// The link records of `m` that fall under `key`.
pub open spec fn links_matching(m: Map<u128, LinkMetaVal>, key: LinkMetaKey) -> Set<
    LinkMetaVal,
> {
    Set::new(|v: LinkMetaVal| (exists|k: u128| #![auto] m.contains_key(k) && m[k] == v) && key.spec_matches(v))
}

/// Buffered access to the five metadata indexes.
pub struct MetadataBuf {
    pub headers_by_entry: KvIntBuffer<(u64, u64)>,
    pub activity: KvIntBuffer<(u64, u64)>,
    pub updates: KvIntBuffer<(u64, u64)>,
    pub deletes: KvIntBuffer<(u64, u64)>,
    pub links: KvIntBuffer<LinkMetaVal>,
}

impl MetadataBuf {
    pub open spec fn wf(self) -> bool {
        &&& self.headers_by_entry.wf()
        &&& self.activity.wf()
        &&& self.updates.wf()
        &&& self.deletes.wf()
        &&& self.links.wf()
    }

    /// A buffer with nothing buffered yet.
    pub fn new() -> (r: Self)
        ensures
            r.wf(),
            r.headers_by_entry@ == Map::<u128, Option<(u64, u64)>>::empty(),
            r.activity@ == Map::<u128, Option<(u64, u64)>>::empty(),
            r.updates@ == Map::<u128, Option<(u64, u64)>>::empty(),
            r.deletes@ == Map::<u128, Option<(u64, u64)>>::empty(),
            r.links@ == Map::<u128, Option<LinkMetaVal>>::empty(),
    {
        MetadataBuf {
            headers_by_entry: KvIntBuffer::new(),
            activity: KvIntBuffer::new(),
            updates: KvIntBuffer::new(),
            deletes: KvIntBuffer::new(),
            links: KvIntBuffer::new(),
        }
    }

    /// Index `header_hash` under the entry it stores.
    pub fn register_header(&mut self, entry_hash: Address, header_hash: Address)
        requires
            old(self).wf(),
        ensures
            final(self).wf(),
            final(self).headers_by_entry@ == old(self).headers_by_entry@.insert(
                spec_pack(entry_hash.0, header_hash.0),
                Some((entry_hash.0, header_hash.0)),
            ),
            final(self).activity@ == old(self).activity@,
            final(self).updates@ == old(self).updates@,
            final(self).deletes@ == old(self).deletes@,
            final(self).links@ == old(self).links@,
    {
        self.headers_by_entry.put(
            pack_key(entry_hash.0, header_hash.0),
            (entry_hash.0, header_hash.0),
        );
    }

    /// Append `header_hash` to its author's activity index.
    pub fn register_activity(&mut self, author_hash: Address, header_hash: Address)
        requires
            old(self).wf(),
        ensures
            final(self).wf(),
            final(self).activity@ == old(self).activity@.insert(
                spec_pack(author_hash.0, header_hash.0),
                Some((author_hash.0, header_hash.0)),
            ),
            final(self).headers_by_entry@ == old(self).headers_by_entry@,
            final(self).updates@ == old(self).updates@,
            final(self).deletes@ == old(self).deletes@,
            final(self).links@ == old(self).links@,
    {
        self.activity.put(
            pack_key(author_hash.0, header_hash.0),
            (author_hash.0, header_hash.0),
        );
    }

    /// Record an update header under the basis it replaces.
    pub fn register_update(&mut self, basis: Address, header_hash: Address)
        requires
            old(self).wf(),
        ensures
            final(self).wf(),
            final(self).updates@ == old(self).updates@.insert(
                spec_pack(basis.0, header_hash.0),
                Some((basis.0, header_hash.0)),
            ),
            final(self).headers_by_entry@ == old(self).headers_by_entry@,
            final(self).activity@ == old(self).activity@,
            final(self).deletes@ == old(self).deletes@,
            final(self).links@ == old(self).links@,
    {
        self.updates.put(pack_key(basis.0, header_hash.0), (basis.0, header_hash.0));
    }

    /// Record a delete header under the basis it removes.
    pub fn register_delete(&mut self, basis: Address, header_hash: Address)
        requires
            old(self).wf(),
        ensures
            final(self).wf(),
            final(self).deletes@ == old(self).deletes@.insert(
                spec_pack(basis.0, header_hash.0),
                Some((basis.0, header_hash.0)),
            ),
            final(self).headers_by_entry@ == old(self).headers_by_entry@,
            final(self).activity@ == old(self).activity@,
            final(self).updates@ == old(self).updates@,
            final(self).links@ == old(self).links@,
    {
        self.deletes.put(pack_key(basis.0, header_hash.0), (basis.0, header_hash.0));
    }

    /// The record an add-link header and its entry produce.
    pub open spec fn spec_link_val(link_add: NormalHeader, entry: AddLinkEntry) -> LinkMetaVal {
        LinkMetaVal {
            link_add_hash: Address(crate::spec_hash_header(Header::AddLink(link_add))),
            target: entry.target,
            zome_id: entry.data.zome_id,
            tag: entry.data.tag,
            base: entry.base,
        }
    }

    /// Insert the link record of an add-link element, keyed by the add-link
    /// header's hash.
    pub fn add_link(&mut self, link_add: NormalHeader, entry: AddLinkEntry)
        requires
            old(self).wf(),
        ensures
            final(self).wf(),
            final(self).links@ == old(self).links@.insert(
                crate::spec_hash_header(Header::AddLink(link_add)) as u128,
                Some(Self::spec_link_val(link_add, entry)),
            ),
            final(self).headers_by_entry@ == old(self).headers_by_entry@,
            final(self).activity@ == old(self).activity@,
            final(self).updates@ == old(self).updates@,
            final(self).deletes@ == old(self).deletes@,
    {
        let hh = crate::hash_header(&Header::AddLink(link_add));
        let val = LinkMetaVal {
            link_add_hash: hh,
            target: entry.target,
            zome_id: entry.data.zome_id,
            tag: entry.data.tag,
            base: entry.base,
        };
        self.links.put(hh.0 as u128, val);
    }

    /// Remove the link record the given add-link header created; a no-op if
    /// none is stored.
    pub fn remove_link(&mut self, link_add_hash: Address)
        requires
            old(self).wf(),
        ensures
            final(self).wf(),
            final(self).links@ == old(self).links@.insert(link_add_hash.0 as u128, None),
            final(self).headers_by_entry@ == old(self).headers_by_entry@,
            final(self).activity@ == old(self).activity@,
            final(self).updates@ == old(self).updates@,
            final(self).deletes@ == old(self).deletes@,
    {
        self.links.delete(link_add_hash.0 as u128);
    }

    /// The hashes of all headers stored for `entry_hash`.
    pub fn get_headers(&self, db: &DbState, entry_hash: Address) -> (r: Vec<u64>)
        requires
            self.wf(),
            db.wf(),
        ensures
            forall|h: u64| #[trigger] r@.contains(h) <==> index_items(
                apply_scratch(self.headers_by_entry@, db.meta_headers_by_entry@),
                entry_hash.0,
            ).contains(h),
    {
        collect_index(&self.headers_by_entry, &db.meta_headers_by_entry, entry_hash.0)
    }

    /// The hashes of all headers in the author's activity index.
    pub fn get_activity(&self, db: &DbState, author_hash: Address) -> (r: Vec<u64>)
        requires
            self.wf(),
            db.wf(),
        ensures
            forall|h: u64| #[trigger] r@.contains(h) <==> index_items(
                apply_scratch(self.activity@, db.meta_activity@),
                author_hash.0,
            ).contains(h),
    {
        collect_index(&self.activity, &db.meta_activity, author_hash.0)
    }

    /// The hashes of all update headers recorded against `basis`.
    pub fn get_updates(&self, db: &DbState, basis: Address) -> (r: Vec<u64>)
        requires
            self.wf(),
            db.wf(),
        ensures
            forall|h: u64| #[trigger] r@.contains(h) <==> index_items(
                apply_scratch(self.updates@, db.meta_updates@),
                basis.0,
            ).contains(h),
    {
        collect_index(&self.updates, &db.meta_updates, basis.0)
    }

    /// The hashes of all delete headers recorded against `basis`.
    pub fn get_deletes(&self, db: &DbState, basis: Address) -> (r: Vec<u64>)
        requires
            self.wf(),
            db.wf(),
        ensures
            forall|h: u64| #[trigger] r@.contains(h) <==> index_items(
                apply_scratch(self.deletes@, db.meta_deletes@),
                basis.0,
            ).contains(h),
    {
        collect_index(&self.deletes, &db.meta_deletes, basis.0)
    }

    /// All link records falling under `key`.
    pub fn get_links(&self, db: &DbState, key: &LinkMetaKey) -> (r: Vec<LinkMetaVal>)
        requires
            self.wf(),
            db.wf(),
        ensures
            forall|v: LinkMetaVal| #[trigger] r@.contains(v) <==> links_matching(
                apply_scratch(self.links@, db.meta_links@),
                *key,
            ).contains(v),
    {
        let merged = self.links.merged_rows(&db.meta_links);
        let ghost eff = apply_scratch(self.links@, db.meta_links@);
        let n = merged.len();
        let mut out: Vec<LinkMetaVal> = Vec::new();
        let mut i: usize = 0;
        while i < n
            invariant
                n == merged@.len(),
                keys_distinct(merged@),
                kv_map(merged@) == eff,
                i <= n,
                forall|v: LinkMetaVal| #[trigger] out@.contains(v) <==> exists|q: int|
                    #![auto]
                    0 <= q < i && merged@[q].1 == v && key.spec_matches(v),
            decreases n - i,
        {
            let ghost out0 = out@;
            let row = merged[i];
            if key.matches(&row.1) {
                out.push(row.1);
            }
            proof {
                assert forall|v: LinkMetaVal| #[trigger] out@.contains(v) implies exists|q: int|
                    #![auto]
                    0 <= q < i + 1 && merged@[q].1 == v && key.spec_matches(v) by {
                    let w = choose|w: int| 0 <= w < out@.len() && out@[w] == v;
                    if w < out0.len() {
                        assert(out0.contains(v));
                    } else {
                        assert(v == merged@[i as int].1);
                    }
                }
                assert forall|v: LinkMetaVal|
                    (exists|q: int| #![auto] 0 <= q < i + 1 && merged@[q].1 == v
                        && key.spec_matches(v)) implies #[trigger] out@.contains(v) by {
                    let q = choose|q: int|
                        #![auto]
                        0 <= q < i + 1 && merged@[q].1 == v && key.spec_matches(v);
                    if q < i {
                        assert(out0.contains(v));
                        let w = choose|w: int| 0 <= w < out0.len() && out0[w] == v;
                        assert(out@[w] == v);
                    } else {
                        assert(out@[out@.len() - 1] == v);
                    }
                }
            }
            i = i + 1;
        }
        proof {
            assert forall|v: LinkMetaVal| #[trigger] out@.contains(v) implies links_matching(
                eff,
                *key,
            ).contains(v) by {
                let q = choose|q: int| #![auto] 0 <= q < n && merged@[q].1 == v
                    && key.spec_matches(v);
                lemma_kv_row(merged@, q);
                assert(eff.contains_key(merged@[q].0) && eff[merged@[q].0] == v);
            }
            assert forall|v: LinkMetaVal| links_matching(eff, *key).contains(
                v,
            ) implies #[trigger] out@.contains(v) by {
                let k = choose|k: u128| #![auto] eff.contains_key(k) && eff[k] == v;
                let q = choose|q: int| 0 <= q < merged@.len() && (#[trigger] merged@[q]).0 == k;
                lemma_kv_row(merged@, q);
                assert(merged@[q].1 == v && key.spec_matches(v));
            }
        }
        out
    }
}

/// Collect the items an index holds under `basis`, overlay included.
fn collect_index(buf: &KvIntBuffer<(u64, u64)>, table: &Table<(u64, u64)>, basis: u64) -> (r:
    Vec<u64>)
    requires
        buf.wf(),
        table.wf(),
    ensures
        forall|h: u64| #[trigger] r@.contains(h) <==> index_items(
            apply_scratch(buf@, table@),
            basis,
        ).contains(h),
{
    let merged = buf.merged_rows(table);
    let ghost eff = apply_scratch(buf@, table@);
    let n = merged.len();
    let mut out: Vec<u64> = Vec::new();
    let mut i: usize = 0;
    while i < n
        invariant
            n == merged@.len(),
            keys_distinct(merged@),
            kv_map(merged@) == eff,
            i <= n,
            forall|h: u64| #[trigger] out@.contains(h) <==> exists|q: int|
                #![auto]
                0 <= q < i && merged@[q].1 == (basis, h),
        decreases n - i,
    {
        let ghost out0 = out@;
        let row = merged[i];
        if row.1.0 == basis {
            out.push(row.1.1);
        }
        proof {
            assert forall|h: u64| #[trigger] out@.contains(h) implies exists|q: int|
                #![auto]
                0 <= q < i + 1 && merged@[q].1 == (basis, h) by {
                let w = choose|w: int| 0 <= w < out@.len() && out@[w] == h;
                if w < out0.len() {
                    assert(out0.contains(h));
                } else {
                    assert(merged@[i as int].1 == (basis, h));
                }
            }
            assert forall|h: u64|
                (exists|q: int| #![auto] 0 <= q < i + 1 && merged@[q].1 == (basis, h))
                implies #[trigger] out@.contains(h) by {
                let q = choose|q: int| #![auto] 0 <= q < i + 1 && merged@[q].1 == (basis, h);
                if q < i {
                    assert(out0.contains(h));
                    let w = choose|w: int| 0 <= w < out0.len() && out0[w] == h;
                    assert(out@[w] == h);
                } else {
                    assert(out@[out@.len() - 1] == h);
                }
            }
        }
        i = i + 1;
    }
    proof {
        assert forall|h: u64| #[trigger] out@.contains(h) implies index_items(eff, basis).contains(
            h,
        ) by {
            let q = choose|q: int| #![auto] 0 <= q < n && merged@[q].1 == (basis, h);
            lemma_kv_row(merged@, q);
            assert(eff.contains_key(merged@[q].0) && eff[merged@[q].0] == (basis, h));
        }
        assert forall|h: u64| index_items(eff, basis).contains(h) implies #[trigger] out@.contains(
            h,
        ) by {
            let k = choose|k: u128| #![auto] eff.contains_key(k) && eff[k] == (basis, h);
            let q = choose|q: int| 0 <= q < merged@.len() && (#[trigger] merged@[q]).0 == k;
            lemma_kv_row(merged@, q);
            assert(merged@[q].1 == (basis, h));
        }
    }
    out
}

} // verus!
