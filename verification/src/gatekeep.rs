//! The chain-root gatekeeper: exclusive write access to one source chain's
//! persisted storage. Requests are processed strictly one at a time; a
//! request built against a stale head is rebased onto the new head when the
//! caller allows it, and refused with `HeadMoved` otherwise. A task that
//! owns the gatekeeper and drains a request mailbox gives concurrent callers
//! a total order of appends without a held lock.

use vstd::prelude::*;
use crate::Address;
use crate::Signed;
use crate::entry::Header;
use crate::spec_hash_header;
use crate::table::Table;

verus! {

/// Why an append was refused.
#[derive(Clone, Copy, Debug, PartialEq, Eq, Structural)]
pub enum TransactError {
    /// The chain head moved since the transaction was built, and the
    /// transaction was not rebasable. The chain is unchanged; the caller
    /// may re-read the head and retry.
    HeadMoved,
}

/// A read handle on the chain storage: a consistent snapshot of the head.
#[derive(Clone, Copy, Debug, PartialEq, Eq, Structural)]
pub struct LmdbRead {
    pub head: Address,
}

/// The hash of the most recently committed header, as a read handle shows
/// it.
pub fn get_source_chain_root_hash(lmdb: &LmdbRead) -> (r: Address)
    ensures
        r == lmdb.head,
{
    lmdb.head
}

/// The chain's headers, each to append onto the hash of the one before it,
/// the first onto `base`.
pub open spec fn chained(base: Address, hs: Seq<Signed<Header>>) -> bool {
    forall|i: int|
        0 <= i < hs.len() ==> (#[trigger] hs[i]).data.spec_prev() == Some(
            if i == 0 {
                base
            } else {
                Address(spec_hash_header(hs[i - 1].data))
            },
        )
}

/// The head after appending `hs` onto `base`.
pub open spec fn spec_new_head(base: Address, hs: Seq<Signed<Header>>) -> Address {
    if hs.len() == 0 {
        base
    } else {
        Address(spec_hash_header(hs.last().data))
    }
}

/// The header store after writing every header of `hs` under its hash.
pub open spec fn insert_headers(m: Map<u128, Signed<Header>>, hs: Seq<Signed<Header>>) -> Map<
    u128,
    Signed<Header>,
>
    decreases hs.len(),
{
    if hs.len() == 0 {
        m
    } else {
        insert_headers(
            m.insert(spec_hash_header(hs.first().data) as u128, hs.first()),
            hs.drop_first(),
        )
    }
}

/// A pending chain append: signed headers chained onto the head the
/// transaction was built against.
pub struct LmdbTransaction {
    /// The head the transaction expects.
    pub base: Address,
    /// The headers to append, in chain order.
    pub headers: Vec<Signed<Header>>,
}

impl LmdbTransaction {
    /// Each header's previous-header reference points at its predecessor's
    /// hash, the first at the base.
    pub open spec fn wf(self) -> bool {
        chained(self.base, self.headers@)
    }
}

/// The write side of the chain storage: the persisted headers and the head
/// pointer. Exactly one of these exists per chain; owning it is owning the
/// sole right to write.
pub struct LmdbUnique {
    /// key = header hash → the signed header.
    pub headers: Table<Signed<Header>>,
    /// The hash of the most recently committed header.
    pub head: Address,
}

impl LmdbUnique {
    pub open spec fn wf(self) -> bool {
        self.headers.wf()
    }

    /// A chain store with the given genesis head and nothing else.
    pub fn new(head: Address) -> (r: Self)
        ensures
            r.wf(),
            r.head == head,
            r.headers@ == Map::<u128, Signed<Header>>::empty(),
    {
        LmdbUnique { headers: Table::new(), head }
    }

    /// A read handle over the current state.
    pub fn downgrade(&self) -> (r: LmdbRead)
        ensures
            r.head == self.head,
    {
        LmdbRead { head: self.head }
    }

    /// Append the transaction's headers: each is stored under its hash, and
    /// the last one's hash becomes the head.
    #[verifier::loop_isolation(false)]
    pub fn apply(&mut self, transaction: LmdbTransaction)
        requires
            old(self).wf(),
            transaction.base == old(self).head,
        ensures
            final(self).wf(),
            final(self).headers@ == insert_headers(old(self).headers@, transaction.headers@),
            final(self).head == spec_new_head(old(self).head, transaction.headers@),
    {
        let ghost all = transaction.headers@;
        proof {
            assert(all.skip(0) =~= all);
        }
        let n = transaction.headers.len();
        let mut i: usize = 0;
        while i < n
            invariant
                self.wf(),
                self.head == old(self).head,
                n == all.len(),
                i <= n,
                insert_headers(old(self).headers@, all) == insert_headers(
                    self.headers@,
                    all.skip(i as int),
                ),
            decreases n - i,
        {
            let ghost rest = all.skip(i as int);
            let sh = transaction.headers[i];
            let hh = crate::hash_header(&sh.data);
            self.headers.insert(hh.0 as u128, sh);
            proof {
                assert(rest.first() == all[i as int]);
                assert(rest.drop_first() =~= all.skip(i as int + 1));
            }
            i = i + 1;
        }
        proof {
            assert(all.skip(n as int) =~= Seq::<Signed<Header>>::empty());
        }
        if n > 0 {
            let last = transaction.headers[n - 1];
            let hh = crate::hash_header(&last.data);
            self.head = hh;
            proof {
                assert(all.last() == all[n - 1]);
            }
        }
    }
}

/// A signed header with its previous-header reference set to `p`; a genesis
/// header, which has none, is unchanged.
pub open spec fn spec_set_prev(sh: Signed<Header>, p: Address) -> Signed<Header> {
    let data = match sh.data {
        Header::Dna(m) => Header::Dna(m),
        Header::Create(n) => Header::Create(crate::entry::NormalHeader { prev_header: p, ..n }),
        Header::Update(u) => Header::Update(crate::entry::UpdateHeader { prev_header: p, ..u }),
        Header::Delete(n) => Header::Delete(crate::entry::NormalHeader { prev_header: p, ..n }),
        Header::AddLink(n) => Header::AddLink(crate::entry::NormalHeader { prev_header: p, ..n }),
        Header::RemoveLink(n) => Header::RemoveLink(
            crate::entry::NormalHeader { prev_header: p, ..n },
        ),
    };
    Signed { data, signature: sh.signature }
}

fn set_prev(sh: Signed<Header>, p: Address) -> (r: Signed<Header>)
    ensures
        r == spec_set_prev(sh, p),
{
    let data = match sh.data {
        Header::Dna(m) => Header::Dna(m),
        Header::Create(n) => Header::Create(crate::entry::NormalHeader { prev_header: p, ..n }),
        Header::Update(u) => Header::Update(crate::entry::UpdateHeader { prev_header: p, ..u }),
        Header::Delete(n) => Header::Delete(crate::entry::NormalHeader { prev_header: p, ..n }),
        Header::AddLink(n) => Header::AddLink(crate::entry::NormalHeader { prev_header: p, ..n }),
        Header::RemoveLink(n) => Header::RemoveLink(
            crate::entry::NormalHeader { prev_header: p, ..n },
        ),
    };
    Signed { data, signature: sh.signature }
}

/// The transaction's headers grafted onto `base`: the first one's previous
/// reference becomes `base`, and because each header's hash covers its
/// content, every later reference is recomputed in turn.
pub open spec fn rebase_seq(base: Address, hs: Seq<Signed<Header>>) -> Seq<Signed<Header>>
    decreases hs.len(),
{
    if hs.len() == 0 {
        Seq::empty()
    } else {
        let h0 = spec_set_prev(hs.first(), base);
        seq![h0] + rebase_seq(Address(spec_hash_header(h0.data)), hs.drop_first())
    }
}

/// Graft a pending append onto a head that moved: rewrite the first
/// header's previous reference to the new head and recompute every
/// downstream hash, so the content-addressing of the chain is preserved.
#[verifier::loop_isolation(false)]
pub fn rebase_headers(transaction: &mut LmdbTransaction, new_base: &Address, old_base: &Address)
    requires
        old(transaction).base == *old_base,
    ensures
        final(transaction).base == *new_base,
        final(transaction).headers@ == rebase_seq(*new_base, old(transaction).headers@),
{
    let ghost all = old(transaction).headers@;
    proof {
        assert(all.skip(0) =~= all);
    }
    let n = transaction.headers.len();
    let mut out: Vec<Signed<Header>> = Vec::new();
    let mut cur = *new_base;
    let mut i: usize = 0;
    while i < n
        invariant
            n == all.len(),
            transaction.headers@ == all,
            i <= n,
            out@.len() == i,
            rebase_seq(*new_base, all) == out@ + rebase_seq(cur, all.skip(i as int)),
        decreases n - i,
    {
        let ghost rest = all.skip(i as int);
        let ghost out0 = out@;
        let sh = set_prev(transaction.headers[i], cur);
        let hh = crate::hash_header(&sh.data);
        out.push(sh);
        proof {
            assert(rest.first() == all[i as int]);
            assert(rest.drop_first() =~= all.skip(i as int + 1));
            let tail = rebase_seq(hh, all.skip(i as int + 1));
            assert(rebase_seq(cur, rest) == seq![sh] + tail);
            assert(out@ =~= out0 + seq![sh]);
            assert((out0 + seq![sh]) + tail =~= out0 + (seq![sh] + tail));
        }
        cur = hh;
        i = i + 1;
    }
    proof {
        assert(all.skip(n as int) =~= Seq::<Signed<Header>>::empty());
        assert(rebase_seq(cur, all.skip(n as int)) =~= Seq::<Signed<Header>>::empty());
        assert(out@ + Seq::<Signed<Header>>::empty() =~= out@);
    }
    transaction.headers = out;
    transaction.base = *new_base;
}

/// A rebased transaction is chained onto its new base.
pub proof fn lemma_rebase_chained(base: Address, hs: Seq<Signed<Header>>)
    requires
        forall|i: int| 0 <= i < hs.len() ==> !((#[trigger] hs[i]).data is Dna),
    ensures
        chained(base, rebase_seq(base, hs)),
        rebase_seq(base, hs).len() == hs.len(),
    decreases hs.len(),
{
    if hs.len() > 0 {
        let h0 = spec_set_prev(hs.first(), base);
        let tail_base = Address(spec_hash_header(h0.data));
        assert forall|i: int| 0 <= i < hs.drop_first().len() implies !((
        #[trigger] hs.drop_first()[i]).data is Dna) by {
            assert(hs.drop_first()[i] == hs[i + 1]);
        }
        lemma_rebase_chained(tail_base, hs.drop_first());
        let r = rebase_seq(base, hs);
        let rt = rebase_seq(tail_base, hs.drop_first());
        assert(r == seq![h0] + rt);
        assert(r[0] == h0);
        assert(h0.data.spec_prev() == Some(base));
        assert forall|i: int| 0 <= i < r.len() implies (#[trigger] r[i]).data.spec_prev() == Some(
            if i == 0 {
                base
            } else {
                Address(spec_hash_header(r[i - 1].data))
            },
        ) by {
            if i > 0 {
                assert(r[i] == rt[i - 1]);
                if i == 1 {
                    assert(rt[0].data.spec_prev() == Some(tail_base));
                    assert(r[0] == h0);
                } else {
                    assert(rt[i - 2] == r[i - 1]);
                }
            }
        }
    }
}

/// The single-consumer task state behind a chain-root handle: it owns the
/// chain's write side and processes one append request at a time, so no two
/// requests ever interleave.
pub struct ChainRootGatekeeper {
    pub db: LmdbUnique,
}

impl ChainRootGatekeeper {
    pub open spec fn wf(self) -> bool {
        self.db.wf()
    }

    pub fn new(db: LmdbUnique) -> (r: Self)
        requires
            db.wf(),
        ensures
            r.wf(),
            r.db == db,
    {
        ChainRootGatekeeper { db }
    }

    /// Process one append request. If the head still equals the head the
    /// transaction was built against, apply it directly. If the head moved:
    /// rebase the transaction onto the new head when the caller allows it,
    /// else refuse with `HeadMoved` and touch nothing.
    pub fn gatekeep(
        &mut self,
        next_write: LmdbTransaction,
        as_at: Address,
        rebasable: bool,
    ) -> (r: Result<(), TransactError>)
        requires
            old(self).wf(),
            next_write.base == as_at,
        ensures
            final(self).wf(),
            ({
                let head0 = old(self).db.head;
                let stored0 = old(self).db.headers@;
                if head0 == as_at {
                    &&& r == Ok::<(), TransactError>(())
                    &&& final(self).db.headers@ == insert_headers(stored0, next_write.headers@)
                    &&& final(self).db.head == spec_new_head(head0, next_write.headers@)
                } else if rebasable {
                    let grafted = rebase_seq(head0, next_write.headers@);
                    &&& r == Ok::<(), TransactError>(())
                    &&& final(self).db.headers@ == insert_headers(stored0, grafted)
                    &&& final(self).db.head == spec_new_head(head0, grafted)
                } else {
                    &&& r == Err::<(), TransactError>(TransactError::HeadMoved)
                    &&& final(self).db.headers@ == stored0
                    &&& final(self).db.head == head0
                }
            }),
    {
        let mut next_write = next_write;
        let chain_root_hash = get_source_chain_root_hash(&self.db.downgrade());
        if chain_root_hash.0 != as_at.0 {
            if rebasable {
                rebase_headers(&mut next_write, &chain_root_hash, &as_at);
            } else {
                return Err(TransactError::HeadMoved);
            }
        }
        proof {
            if old(self).db.head == as_at {
                assert(chain_root_hash == as_at);
            }
        }
        self.db.apply(next_write);
        Ok(())
    }
}

} // verus!
