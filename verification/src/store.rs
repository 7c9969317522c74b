//! The record store: an append-only, content-addressed log of records and
//! index links, as observed by one peer. Every write is validated by the
//! engine in [`crate::validation`] before it is accepted, so a well-formed
//! store only ever holds records that every peer would also accept.

use vstd::prelude::*;

use crate::types::{AgentKey, DeleteInfo, EntryTypes, Link, LinkBase, LinkTarget, LinkTypes,
    Record, RecordHash};
use crate::validation::{spec_validate_create_entry, spec_validate_create_link,
    spec_validate_delete_entry, spec_validate_update_entry, validate_create_entry,
    validate_create_link, validate_delete_entry, validate_update_entry};
use crate::Error;
use vstd::string::StringSliceAdditionalSpecFns;
use vstd::utf8::encode_utf8;

verus! {

/// A stored record together with the delete actions registered against it.
pub struct Slot {
    pub record: Record,
    pub deletes: Vec<DeleteInfo>,
}

/// A stored link together with the delete actions registered against it.
pub struct LinkSlot {
    pub link: Link,
    pub deletes: Vec<DeleteInfo>,
}

/// Lowercasing of one byte: ASCII letters fold to lower case, all other
/// bytes pass through.
pub open spec fn lower_byte(b: u8) -> u8 {
    if 65 <= b <= 90 {
        (b + 32) as u8
    } else {
        b
    }
}

/// ASCII case folding of a byte string, the canonical form used to derive
/// anchor identifiers from well-known names.
pub open spec fn spec_lower(bytes: Seq<u8>) -> Seq<u8> {
    bytes.map_values(|b: u8| lower_byte(b))
}

/// The canonical anchor bytes of a name.
pub open spec fn anchor_bytes(name: Seq<char>) -> Seq<u8> {
    spec_lower(encode_utf8(name))
}

/// ASCII case folding of a name, used to derive its anchor.
pub fn lower_bytes(name: &str) -> (r: Vec<u8>)
    ensures
        r@ == spec_lower(name.spec_bytes()),
{
    let bytes: &[u8] = name.as_bytes();
    let mut out: Vec<u8> = Vec::new();
    let mut i: usize = 0;
    while i < bytes.len()
        invariant
            i <= bytes@.len(),
            out@ == spec_lower(bytes@.take(i as int)),
        decreases bytes@.len() - i,
    {
        let b = bytes[i];
        let lowered: u8 = if 65 <= b && b <= 90 {
            b + 32
        } else {
            b
        };
        out.push(lowered);
        proof {
            assert(bytes@.take(i + 1).drop_last() =~= bytes@.take(i as int));
            assert(spec_lower(bytes@.take(i + 1)) =~= spec_lower(bytes@.take(i as int)).push(
                lower_byte(bytes@[i as int]),
            ));
        }
        i += 1;
    }
    proof {
        assert(bytes@.take(bytes@.len() as int) =~= bytes@);
    }
    out
}

fn bytes_eq(a: &Vec<u8>, b: &Vec<u8>) -> (r: bool)
    ensures
        r == (a@ == b@),
{
    if a.len() != b.len() {
        proof {
            assert(a@.len() != b@.len());
        }
        return false;
    }
    let mut i: usize = 0;
    while i < a.len()
        invariant
            i <= a@.len(),
            a@.len() == b@.len(),
            forall|j: int| 0 <= j < i ==> a@[j] == b@[j],
        decreases a@.len() - i,
    {
        if a[i] != b[i] {
            return false;
        }
        i += 1;
    }
    proof {
        assert(a@ =~= b@);
    }
    true
}

/// One peer's store: the records it holds, the index links hanging between
/// them, and the interned anchor names used as discovery roots.
pub struct Store {
    pub records: Vec<Slot>,
    pub links: Vec<LinkSlot>,
    pub anchors: Vec<Vec<u8>>,
}

/// Whether a record at position `i` of the log is acceptable: its hash is
/// its position, and its payload passed the validation engine — against
/// nothing for creation records, against the record it supersedes for
/// update records.
pub open spec fn record_wf_at(recs: Seq<Record>, i: int) -> bool {
    let r = recs[i];
    &&& r.hash == i
    &&& match r.prev {
        Option::None => spec_validate_create_entry(r.author, r.timestamp as int, r.entry) is Ok,
        Option::Some(p) => {
            &&& p < i
            &&& spec_validate_update_entry(r.author, r.entry, recs[p as int].entry) is Ok
        },
    }
}

/// Whether a link at position `i` is acceptable: its identifier is its
/// position, its shape passed the validation engine, and everything it
/// refers to exists.
pub open spec fn link_wf_at(lnks: Seq<Link>, i: int, n_recs: int, n_anchors: int) -> bool {
    let l = lnks[i];
    &&& l.create_hash == i
    &&& spec_validate_create_link(l) is Ok
    &&& match l.base {
        LinkBase::Record(h) => h < n_recs,
        LinkBase::Anchor(a) => a < n_anchors,
        LinkBase::Agent(_) => true,
    }
    &&& match l.target {
        LinkTarget::Record(h) => h < n_recs,
        LinkTarget::Agent(_) => true,
    }
}

impl Store {
    /// The sequence of records, in commit order. A record's hash is its
    /// position here.
    pub open spec fn recs(self) -> Seq<Record> {
        self.records@.map_values(|s: Slot| s.record)
    }

    /// The sequence of links, in commit order.
    pub open spec fn lnks(self) -> Seq<Link> {
        self.links@.map_values(|s: LinkSlot| s.link)
    }

    /// The interned anchor byte strings.
    pub open spec fn anchor_views(self) -> Seq<Seq<u8>> {
        self.anchors@.map_values(|v: Vec<u8>| v@)
    }

    /// Whether the record exists and no delete has been registered on it.
    pub open spec fn rec_live(self, h: int) -> bool {
        &&& 0 <= h < self.records@.len()
        &&& self.records@[h].deletes@.len() == 0
    }

    /// Whether the link exists and no delete has been registered on it.
    pub open spec fn link_live(self, i: int) -> bool {
        &&& 0 <= i < self.links@.len()
        &&& self.links@[i].deletes@.len() == 0
    }

    /// Well-formedness: every record and link passed validation, all
    /// references point inside the store, and anchor names are interned at
    /// most once.
    pub open spec fn wf(self) -> bool {
        &&& forall|i: int|
            0 <= i < self.recs().len() ==> #[trigger] record_wf_at(self.recs(), i)
        &&& forall|i: int|
            0 <= i < self.lnks().len() ==> #[trigger] link_wf_at(
                self.lnks(),
                i,
                self.recs().len() as int,
                self.anchor_views().len() as int,
            )
        &&& forall|i: int, j: int|
            0 <= i < j < self.anchor_views().len() ==> #[trigger] self.anchor_views()[i]
                != #[trigger] self.anchor_views()[j]
    }

    /// An empty store.
    pub fn new() -> (s: Store)
        ensures
            s.wf(),
            s.recs().len() == 0,
            s.lnks().len() == 0,
            s.anchor_views().len() == 0,
    {
        Store { records: Vec::new(), links: Vec::new(), anchors: Vec::new() }
    }

    /// Look up the anchor for a name without creating it.
    pub fn find_anchor(&self, name: &str) -> (r: Option<usize>)
        ensures
            match r {
                Option::Some(id) => {
                    &&& id < self.anchor_views().len()
                    &&& self.anchor_views()[id as int] == anchor_bytes(name@)
                },
                Option::None => forall|i: int|
                    0 <= i < self.anchor_views().len() ==> #[trigger] self.anchor_views()[i]
                        != anchor_bytes(name@),
            },
    {
        let wanted = lower_bytes(name);
        let mut i: usize = 0;
        while i < self.anchors.len()
            invariant
                i <= self.anchors@.len(),
                wanted@ == anchor_bytes(name@),
                forall|j: int|
                    0 <= j < i ==> #[trigger] self.anchor_views()[j] != anchor_bytes(name@),
            decreases self.anchors@.len() - i,
        {
            if bytes_eq(&self.anchors[i], &wanted) {
                return Some(i);
            }
            i += 1;
        }
        None
    }

    /// The deterministic anchor for a well-known name, interned on first
    /// use. Names are ASCII case folded, so two names differing only in the
    /// case of ASCII letters share one anchor.
    pub fn anchor_for(&mut self, name: &str) -> (id: usize)
        requires
            old(self).wf(),
        ensures
            final(self).wf(),
            final(self).records@ == old(self).records@,
            final(self).links@ == old(self).links@,
            id < final(self).anchor_views().len(),
            final(self).anchor_views()[id as int] == anchor_bytes(name@),
            old(self).anchor_views().len() <= final(self).anchor_views().len() <= old(self).anchor_views().len() + 1,
            forall|i: int|
                0 <= i < old(self).anchor_views().len() ==> #[trigger] final(self).anchor_views()[i]
                    == old(self).anchor_views()[i],
    {
        match self.find_anchor(name) {
            Option::Some(id) => id,
            Option::None => {
                let id = self.anchors.len();
                let wanted = lower_bytes(name);
                self.anchors.push(wanted);
                proof {
                    let oldv = old(self).anchor_views();
                    let newv = self.anchor_views();
                    assert(newv =~= oldv.push(anchor_bytes(name@)));
                    assert forall|i: int| 0 <= i < self.recs().len() implies record_wf_at(
                        self.recs(),
                        i,
                    ) by {
                        assert(record_wf_at(old(self).recs(), i));
                        assert(self.recs() =~= old(self).recs());
                    }
                    assert forall|i: int| 0 <= i < self.lnks().len() implies link_wf_at(
                        self.lnks(),
                        i,
                        self.recs().len() as int,
                        self.anchor_views().len() as int,
                    ) by {
                        assert(link_wf_at(
                            old(self).lnks(),
                            i,
                            old(self).recs().len() as int,
                            oldv.len() as int,
                        ));
                        assert(self.lnks() =~= old(self).lnks());
                        assert(self.recs() =~= old(self).recs());
                    }
                }
                id
            },
        }
    }

    /// Fetch a live record. Deleted records are invisible here; their
    /// history stays reachable through [`Store::get_record`].
    pub fn get(&self, h: RecordHash) -> (r: Option<&Record>)
        ensures
            match r {
                Option::Some(rec) => self.rec_live(h as int) && *rec == self.recs()[h as int],
                Option::None => !self.rec_live(h as int),
            },
    {
        if h < self.records.len() {
            let slot = &self.records[h];
            if slot.deletes.len() == 0 {
                Some(&slot.record)
            } else {
                None
            }
        } else {
            None
        }
    }

    /// Fetch a record whether or not it has been deleted.
    pub fn get_record(&self, h: RecordHash) -> (r: Option<&Record>)
        ensures
            match r {
                Option::Some(rec) => h < self.recs().len() && *rec == self.recs()[h as int],
                Option::None => h >= self.recs().len(),
            },
    {
        if h < self.records.len() {
            Some(&self.records[h].record)
        } else {
            None
        }
    }

    /// The delete actions registered against a record, oldest first.
    pub fn get_deletes(&self, h: RecordHash) -> (r: Option<&Vec<DeleteInfo>>)
        ensures
            match r {
                Option::Some(ds) => h < self.records@.len() && ds@ == self.records@[h as int].deletes@,
                Option::None => h >= self.records@.len(),
            },
    {
        if h < self.records.len() {
            Some(&self.records[h].deletes)
        } else {
            None
        }
    }

    /// Everything but the record log is untouched.
    pub open spec fn same_links_anchors(self, other: Store) -> bool {
        &&& self.links@ == other.links@
        &&& self.anchors@ == other.anchors@
    }

    /// Everything but the link log is untouched.
    pub open spec fn same_records_anchors(self, other: Store) -> bool {
        &&& self.records@ == other.records@
        &&& self.anchors@ == other.anchors@
    }

    proof fn lemma_push_record_wf(self, other: Store, rec: Record)
        requires
            self.wf(),
            other.records@.len() == self.records@.len() + 1,
            forall|i: int|
                0 <= i < self.records@.len() ==> #[trigger] other.records@[i]
                    == self.records@[i],
            other.records@.last().record == rec,
            other.links@ == self.links@,
            other.anchors@ == self.anchors@,
            record_wf_at(self.recs().push(rec), self.recs().len() as int),
        ensures
            other.wf(),
            other.recs() == self.recs().push(rec),
    {
        assert(other.recs() =~= self.recs().push(rec));
        assert forall|i: int| 0 <= i < other.recs().len() implies record_wf_at(
            other.recs(),
            i,
        ) by {
            if i < self.recs().len() {
                assert(record_wf_at(self.recs(), i));
            } else {
                assert(other.recs() == self.recs().push(rec));
            }
        }
        assert(other.lnks() =~= self.lnks());
        assert(other.anchor_views() =~= self.anchor_views());
        assert forall|i: int| 0 <= i < other.lnks().len() implies link_wf_at(
            other.lnks(),
            i,
            other.recs().len() as int,
            other.anchor_views().len() as int,
        ) by {
            assert(link_wf_at(
                self.lnks(),
                i,
                self.recs().len() as int,
                self.anchor_views().len() as int,
            ));
        }
    }

    /// Commit a creation record. The write is validated first; a rejected
    /// write leaves the store untouched. On success the record's hash — its
    /// stable, permanent identifier — is returned.
    pub fn create_entry(&mut self, author: AgentKey, now: i64, entry: EntryTypes) -> (r: Result<
        RecordHash,
        Error,
    >)
        requires
            old(self).wf(),
        ensures
            final(self).wf(),
            match r {
                Result::Ok(h) => {
                    &&& spec_validate_create_entry(author, now as int, entry) is Ok
                    &&& h == old(self).recs().len()
                    &&& final(self).recs() == old(self).recs().push(
                        Record {
                            hash: h as usize,
                            author,
                            timestamp: now,
                            prev: Option::None,
                            entry,
                        },
                    )
                    &&& final(self).rec_live(h as int)
                    &&& forall|i: int|
                        0 <= i < old(self).records@.len() ==> #[trigger] final(self).records@[i]
                            == old(self).records@[i]
                    &&& final(self).same_links_anchors(*old(self))
                },
                Result::Err(e) => {
                    &&& *final(self) == *old(self)
                    &&& spec_validate_create_entry(author, now as int, entry) == Result::<
                        (),
                        Error,
                    >::Err(e)
                },
            },
    {
        if let Err(e) = validate_create_entry(author, now, &entry) {
            return Err(e);
        }
        let h = self.records.len();
        let rec = Record { hash: h, author, timestamp: now, prev: None, entry };
        let ghost recg = rec;
        self.records.push(Slot { record: rec, deletes: Vec::new() });
        proof {
            assert(record_wf_at(old(self).recs().push(recg), old(self).recs().len() as int));
            old(self).lemma_push_record_wf(*self, recg);
        }
        Ok(h)
    }

    /// Commit an update record superseding `prev`. The write is validated
    /// against the superseded record first; a rejected write leaves the
    /// store untouched.
    pub fn update_entry(
        &mut self,
        prev: RecordHash,
        author: AgentKey,
        now: i64,
        entry: EntryTypes,
    ) -> (r: Result<RecordHash, Error>)
        requires
            old(self).wf(),
        ensures
            final(self).wf(),
            match r {
                Result::Ok(h) => {
                    &&& prev < old(self).recs().len()
                    &&& spec_validate_update_entry(
                        author,
                        entry,
                        old(self).recs()[prev as int].entry,
                    ) is Ok
                    &&& h == old(self).recs().len()
                    &&& final(self).recs() == old(self).recs().push(
                        Record {
                            hash: h as usize,
                            author,
                            timestamp: now,
                            prev: Option::Some(prev),
                            entry,
                        },
                    )
                    &&& final(self).rec_live(h as int)
                    &&& forall|i: int|
                        0 <= i < old(self).records@.len() ==> #[trigger] final(self).records@[i]
                            == old(self).records@[i]
                    &&& final(self).same_links_anchors(*old(self))
                },
                Result::Err(e) => {
                    &&& *final(self) == *old(self)
                    &&& if prev >= old(self).recs().len() {
                        e == Error::NotFound
                    } else {
                        spec_validate_update_entry(
                            author,
                            entry,
                            old(self).recs()[prev as int].entry,
                        ) == Result::<(), Error>::Err(e)
                    }
                },
            },
    {
        if prev >= self.records.len() {
            return Err(Error::NotFound);
        }
        if let Err(e) = validate_update_entry(author, &entry, &self.records[prev].record.entry) {
            return Err(e);
        }
        let h = self.records.len();
        let rec = Record { hash: h, author, timestamp: now, prev: Some(prev), entry };
        let ghost recg = rec;
        self.records.push(Slot { record: rec, deletes: Vec::new() });
        proof {
            assert(record_wf_at(old(self).recs().push(recg), old(self).recs().len() as int));
            old(self).lemma_push_record_wf(*self, recg);
        }
        Ok(h)
    }

    /// Register a delete against a record. The delete is validated against
    /// the record it removes; the record's history stays in the store, but
    /// [`Store::get`] no longer serves it.
    pub fn delete_entry(&mut self, h: RecordHash, author: AgentKey, now: i64) -> (r: Result<
        (),
        Error,
    >)
        requires
            old(self).wf(),
        ensures
            final(self).wf(),
            match r {
                Result::Ok(_) => {
                    &&& h < old(self).recs().len()
                    &&& spec_validate_delete_entry(author, old(self).recs()[h as int].entry) is Ok
                    &&& final(self).recs() == old(self).recs()
                    &&& final(self).records@.len() == old(self).records@.len()
                    &&& forall|i: int|
                        0 <= i < old(self).records@.len() && i != h ==> #[trigger] final(self).records@[i] == old(self).records@[i]
                    &&& final(self).records@[h as int].deletes@ == old(self).records@[h as int].deletes@.push(DeleteInfo { author, timestamp: now })
                    &&& final(self).same_links_anchors(*old(self))
                },
                Result::Err(e) => {
                    &&& *final(self) == *old(self)
                    &&& if h >= old(self).recs().len() {
                        e == Error::NotFound
                    } else {
                        spec_validate_delete_entry(author, old(self).recs()[h as int].entry)
                            == Result::<(), Error>::Err(e)
                    }
                },
            },
    {
        if h >= self.records.len() {
            return Err(Error::NotFound);
        }
        if let Err(e) = validate_delete_entry(author, &self.records[h].record.entry) {
            return Err(e);
        }
        let slot = &mut self.records[h];
        slot.deletes.push(DeleteInfo { author, timestamp: now });
        proof {
            assert(self.recs() =~= old(self).recs());
            assert(self.lnks() =~= old(self).lnks());
            assert(self.anchor_views() =~= old(self).anchor_views());
            assert forall|i: int| 0 <= i < self.recs().len() implies record_wf_at(
                self.recs(),
                i,
            ) by {
                assert(record_wf_at(old(self).recs(), i));
            }
            assert forall|i: int| 0 <= i < self.lnks().len() implies link_wf_at(
                self.lnks(),
                i,
                self.recs().len() as int,
                self.anchor_views().len() as int,
            ) by {
                assert(link_wf_at(
                    old(self).lnks(),
                    i,
                    old(self).recs().len() as int,
                    old(self).anchor_views().len() as int,
                ));
            }
        }
        Ok(())
    }

    /// Commit an index link. The base and target must exist in this store
    /// and the link's shape is validated; a rejected write leaves the store
    /// untouched. Returns the link's own stable identifier.
    pub fn create_link(
        &mut self,
        author: AgentKey,
        base: LinkBase,
        target: LinkTarget,
        link_type: LinkTypes,
        now: i64,
    ) -> (r: Result<usize, Error>)
        requires
            old(self).wf(),
        ensures
            final(self).wf(),
            match r {
                Result::Ok(id) => {
                    &&& id == old(self).lnks().len()
                    &&& final(self).lnks() == old(self).lnks().push(
                        Link {
                            create_hash: id as usize,
                            author,
                            base,
                            target,
                            link_type,
                            timestamp: now,
                        },
                    )
                    &&& final(self).link_live(id as int)
                    &&& forall|i: int|
                        0 <= i < old(self).links@.len() ==> #[trigger] final(self).links@[i] == old(self).links@[i]
                    &&& final(self).same_records_anchors(*old(self))
                    &&& spec_validate_create_link(final(self).lnks()[id as int]) is Ok
                    &&& forall|b: LinkBase, t: LinkTypes|
                        #[trigger] final(self).spec_get_links(b, t) == if b == base && t
                            == link_type {
                            old(self).spec_get_links(b, t).push(
                                Link {
                                    create_hash: id as usize,
                                    author,
                                    base,
                                    target,
                                    link_type,
                                    timestamp: now,
                                },
                            )
                        } else {
                            old(self).spec_get_links(b, t)
                        }
                },
                Result::Err(e) => *final(self) == *old(self),
            },
            r is Ok <==> {
                &&& (base matches LinkBase::Record(bh) ==> bh < old(self).recs().len())
                &&& (base matches LinkBase::Anchor(a) ==> a < old(self).anchor_views().len())
                &&& (target matches LinkTarget::Record(th) ==> th < old(self).recs().len())
                &&& spec_validate_create_link(
                    Link {
                        create_hash: old(self).lnks().len() as usize,
                        author,
                        base,
                        target,
                        link_type,
                        timestamp: now,
                    },
                ) is Ok
            },
    {
        match base {
            LinkBase::Record(bh) => if bh >= self.records.len() {
                return Err(Error::NotFound);
            },
            LinkBase::Anchor(a) => if a >= self.anchors.len() {
                return Err(Error::NotFound);
            },
            LinkBase::Agent(_) => {},
        }
        if let LinkTarget::Record(th) = target {
            if th >= self.records.len() {
                return Err(Error::NotFound);
            }
        }
        let id = self.links.len();
        let link = Link { create_hash: id, author, base, target, link_type, timestamp: now };
        if let Err(e) = validate_create_link(&link) {
            return Err(e);
        }
        let slot = LinkSlot { link, deletes: Vec::new() };
        let ghost pushed_slot = slot;
        self.links.push(slot);
        proof {
            assert(self.links@ == old(self).links@.push(pushed_slot));
            assert forall|b: LinkBase, t: LinkTypes| #[trigger] self.spec_get_links(b, t) == if b
                == base && t == link_type {
                old(self).spec_get_links(b, t).push(link)
            } else {
                old(self).spec_get_links(b, t)
            } by {
                lemma_links_matching_push(old(self).links@, pushed_slot, b, t);
            }
            assert(self.lnks() =~= old(self).lnks().push(link));
            assert(self.recs() =~= old(self).recs());
            assert(self.anchor_views() =~= old(self).anchor_views());
            assert forall|i: int| 0 <= i < self.recs().len() implies record_wf_at(
                self.recs(),
                i,
            ) by {
                assert(record_wf_at(old(self).recs(), i));
            }
            assert forall|i: int| 0 <= i < self.lnks().len() implies link_wf_at(
                self.lnks(),
                i,
                self.recs().len() as int,
                self.anchor_views().len() as int,
            ) by {
                if i < old(self).lnks().len() {
                    assert(link_wf_at(
                        old(self).lnks(),
                        i,
                        old(self).recs().len() as int,
                        old(self).anchor_views().len() as int,
                    ));
                }
            }
        }
        Ok(id)
    }

    /// Register a delete against a link. Only the link's own author may
    /// remove it.
    pub fn delete_link(&mut self, create_hash: usize, author: AgentKey, now: i64) -> (r: Result<
        (),
        Error,
    >)
        requires
            old(self).wf(),
        ensures
            final(self).wf(),
            match r {
                Result::Ok(_) => {
                    &&& create_hash < old(self).lnks().len()
                    &&& author == old(self).lnks()[create_hash as int].author
                    &&& final(self).lnks() == old(self).lnks()
                    &&& final(self).links@.len() == old(self).links@.len()
                    &&& forall|i: int|
                        0 <= i < old(self).links@.len() && i != create_hash ==> #[trigger] final(self).links@[i] == old(self).links@[i]
                    &&& final(self).links@[create_hash as int].deletes@ == old(self).links@[create_hash as int].deletes@.push(
                        DeleteInfo { author, timestamp: now },
                    )
                    &&& final(self).same_records_anchors(*old(self))
                },
                Result::Err(e) => {
                    &&& *final(self) == *old(self)
                    &&& if create_hash >= old(self).lnks().len() {
                        e == Error::NotFound
                    } else {
                        e == Error::Unauthorized && author != old(self).lnks()[create_hash as int].author
                    }
                },
            },
    {
        if create_hash >= self.links.len() {
            return Err(Error::NotFound);
        }
        if !(self.links[create_hash].link.author == author) {
            return Err(Error::Unauthorized);
        }
        let slot = &mut self.links[create_hash];
        slot.deletes.push(DeleteInfo { author, timestamp: now });
        proof {
            assert(self.recs() =~= old(self).recs());
            assert(self.lnks() =~= old(self).lnks());
            assert(self.anchor_views() =~= old(self).anchor_views());
            assert forall|i: int| 0 <= i < self.recs().len() implies record_wf_at(
                self.recs(),
                i,
            ) by {
                assert(record_wf_at(old(self).recs(), i));
            }
            assert forall|i: int| 0 <= i < self.lnks().len() implies link_wf_at(
                self.lnks(),
                i,
                self.recs().len() as int,
                self.anchor_views().len() as int,
            ) by {
                assert(link_wf_at(
                    old(self).lnks(),
                    i,
                    old(self).recs().len() as int,
                    old(self).anchor_views().len() as int,
                ));
            }
        }
        Ok(())
    }
}

/// The live links with the given base and type, in commit order: the
/// traversal that every discovery query and the revision index are built on.
pub open spec fn links_matching(
    links: Seq<LinkSlot>,
    base: LinkBase,
    link_type: LinkTypes,
) -> Seq<Link>
    decreases links.len(),
{
    if links.len() == 0 {
        Seq::empty()
    } else {
        let rest = links_matching(links.drop_last(), base, link_type);
        let s = links.last();
        if s.deletes@.len() == 0 && s.link.base == base && s.link.link_type == link_type {
            rest.push(s.link)
        } else {
            rest
        }
    }
}

/// Whether a link has this base and type and targets the record `h`.
pub open spec fn link_matches(l: Link, base: LinkBase, link_type: LinkTypes, h: RecordHash) -> bool {
    &&& l.base == base
    &&& l.link_type == link_type
    &&& l.target == LinkTarget::Record(h)
}

/// The deleted links with the given base and type, in commit order.
pub open spec fn deleted_links_matching(
    links: Seq<LinkSlot>,
    base: LinkBase,
    link_type: LinkTypes,
) -> Seq<Link>
    decreases links.len(),
{
    if links.len() == 0 {
        Seq::empty()
    } else {
        let rest = deleted_links_matching(links.drop_last(), base, link_type);
        let s = links.last();
        if s.deletes@.len() > 0 && s.link.base == base && s.link.link_type == link_type {
            rest.push(s.link)
        } else {
            rest
        }
    }
}

/// Appending a stored link extends exactly the one selection that matches
/// it and leaves every other selection unchanged.
pub proof fn lemma_links_matching_push(
    links: Seq<LinkSlot>,
    slot: LinkSlot,
    base: LinkBase,
    link_type: LinkTypes,
)
    ensures
        links_matching(links.push(slot), base, link_type) == if slot.deletes@.len() == 0
            && slot.link.base == base && slot.link.link_type == link_type {
            links_matching(links, base, link_type).push(slot.link)
        } else {
            links_matching(links, base, link_type)
        },
{
    assert(links.push(slot).drop_last() =~= links);
    assert(links.push(slot).last() == slot);
}

/// Conversely, every live stored link with the requested base and type is
/// selected by [`links_matching`].
pub proof fn lemma_links_matching_complete(
    links: Seq<LinkSlot>,
    base: LinkBase,
    link_type: LinkTypes,
    k: int,
)
    requires
        0 <= k < links.len(),
        links[k].deletes@.len() == 0,
        links[k].link.base == base,
        links[k].link.link_type == link_type,
    ensures
        exists|j: int|
            0 <= j < links_matching(links, base, link_type).len() && #[trigger] links_matching(
                links,
                base,
                link_type,
            )[j] == links[k].link,
    decreases links.len(),
{
    let out = links_matching(links, base, link_type);
    if k == links.len() - 1 {
        assert(out[out.len() - 1] == links[k].link);
    } else {
        lemma_links_matching_complete(links.drop_last(), base, link_type, k);
        let rest = links_matching(links.drop_last(), base, link_type);
        let j = choose|j: int| 0 <= j < rest.len() && #[trigger] rest[j] == links.drop_last()[k].link;
        assert(out[j] == links[k].link);
    }
}

/// Every link selected by [`links_matching`] is a live stored link with the
/// requested base and type.
pub proof fn lemma_links_matching_member(
    links: Seq<LinkSlot>,
    base: LinkBase,
    link_type: LinkTypes,
    i: int,
)
    requires
        0 <= i < links_matching(links, base, link_type).len(),
    ensures
        ({
            let l = links_matching(links, base, link_type)[i];
            &&& l.base == base
            &&& l.link_type == link_type
            &&& exists|k: int|
                0 <= k < links.len() && #[trigger] links[k].link == l && links[k].deletes@.len()
                    == 0
        }),
    decreases links.len(),
{
    let out = links_matching(links, base, link_type);
    if links.len() > 0 {
        let rest = links_matching(links.drop_last(), base, link_type);
        if i < rest.len() {
            lemma_links_matching_member(links.drop_last(), base, link_type, i);
            let l = rest[i];
            let k = choose|k: int|
                0 <= k < links.drop_last().len() && #[trigger] links.drop_last()[k].link == l
                    && links.drop_last()[k].deletes@.len() == 0;
            assert(links[k].link == l && links[k].deletes@.len() == 0);
        } else {
            assert(links[links.len() - 1].link == out[i] && links[links.len()
                - 1].deletes@.len() == 0);
        }
    }
}

impl Store {
    /// The live links with the given base and type, in commit order.
    pub open spec fn spec_get_links(self, base: LinkBase, link_type: LinkTypes) -> Seq<Link> {
        links_matching(self.links@, base, link_type)
    }

    /// In a well-formed store, everything a live matching link refers to
    /// exists, and its base and type are the requested ones.
    pub proof fn lemma_get_links_wf(self, base: LinkBase, link_type: LinkTypes, i: int)
        requires
            self.wf(),
            0 <= i < self.spec_get_links(base, link_type).len(),
        ensures
            ({
                let l = self.spec_get_links(base, link_type)[i];
                &&& l.base == base
                &&& l.link_type == link_type
                &&& match l.base {
                    LinkBase::Record(h) => h < self.recs().len(),
                    LinkBase::Anchor(a) => a < self.anchor_views().len(),
                    LinkBase::Agent(_) => true,
                }
                &&& match l.target {
                    LinkTarget::Record(h) => h < self.recs().len(),
                    LinkTarget::Agent(_) => true,
                }
            }),
    {
        lemma_links_matching_member(self.links@, base, link_type, i);
        let l = self.spec_get_links(base, link_type)[i];
        let k = choose|k: int|
            0 <= k < self.links@.len() && #[trigger] self.links@[k].link == l
                && self.links@[k].deletes@.len() == 0;
        assert(self.lnks()[k] == l);
        assert(link_wf_at(
            self.lnks(),
            k,
            self.recs().len() as int,
            self.anchor_views().len() as int,
        ));
    }

    /// Traverse the index: all live links hanging from `base` with the
    /// given type, in commit order.
    pub fn get_links(&self, base: LinkBase, link_type: LinkTypes) -> (r: Vec<Link>)
        ensures
            r@ == self.spec_get_links(base, link_type),
    {
        let mut out: Vec<Link> = Vec::new();
        let mut i: usize = 0;
        while i < self.links.len()
            invariant
                i <= self.links@.len(),
                out@ == links_matching(self.links@.take(i as int), base, link_type),
            decreases self.links@.len() - i,
        {
            let slot = &self.links[i];
            proof {
                assert(self.links@.take(i + 1).drop_last() =~= self.links@.take(i as int));
                assert(self.links@.take(i + 1).last() == self.links@[i as int]);
            }
            if slot.deletes.len() == 0 && slot.link.base == base && slot.link.link_type
                == link_type {
                out.push(slot.link);
            }
            i += 1;
        }
        proof {
            assert(self.links@.take(self.links@.len() as int) =~= self.links@);
        }
        out
    }

    /// A base that does not exist yet has no links hanging from it.
    pub proof fn lemma_fresh_base_no_links(self, base: LinkBase, link_type: LinkTypes)
        requires
            self.wf(),
            match base {
                LinkBase::Record(h) => h >= self.recs().len(),
                LinkBase::Anchor(a) => a >= self.anchor_views().len(),
                LinkBase::Agent(_) => false,
            },
        ensures
            self.spec_get_links(base, link_type).len() == 0,
    {
        if self.spec_get_links(base, link_type).len() > 0 {
            self.lemma_get_links_wf(base, link_type, 0);
        }
    }

    /// The interned identifier of the anchor with these bytes, if any. In a
    /// well-formed store it is unique.
    pub open spec fn spec_anchor_id(self, bytes: Seq<u8>) -> Option<int> {
        if exists|i: int| 0 <= i < self.anchor_views().len() && self.anchor_views()[i] == bytes {
            Option::Some(
                choose|i: int|
                    0 <= i < self.anchor_views().len() && self.anchor_views()[i] == bytes,
            )
        } else {
            Option::None
        }
    }

    /// The live links of the given type hanging from the anchor with these
    /// bytes; empty while no such anchor has been interned.
    pub open spec fn spec_anchor_links(self, bytes: Seq<u8>, link_type: LinkTypes) -> Seq<Link> {
        match self.spec_anchor_id(bytes) {
            Option::Some(a) => self.spec_get_links(LinkBase::Anchor(a as usize), link_type),
            Option::None => Seq::empty(),
        }
    }

    /// Traverse the index rooted at a named anchor: all live links of the
    /// given type hanging from the anchor for `name`.
    pub fn links_from_anchor(&self, name: &str, link_type: LinkTypes) -> (r: Vec<Link>)
        requires
            self.wf(),
        ensures
            r@ == self.spec_anchor_links(anchor_bytes(name@), link_type),
    {
        match self.find_anchor(name) {
            Option::Some(id) => {
                proof {
                    let bytes = anchor_bytes(name@);
                    let j = self.spec_anchor_id(bytes)->Some_0;
                    if j != id {
                        assert(self.anchor_views()[j] == self.anchor_views()[id as int]);
                    }
                }
                self.get_links(LinkBase::Anchor(id), link_type)
            },
            Option::None => {
                Vec::new()
            },
        }
    }

    /// Remove every live link with this base and type that targets the
    /// record `h`. Callers establish beforehand that the caller authored
    /// all of them, since only a link's author may remove it.
    pub fn delete_links_matching(
        &mut self,
        caller: AgentKey,
        now: i64,
        base: LinkBase,
        link_type: LinkTypes,
        h: RecordHash,
    )
        requires
            old(self).wf(),
            forall|k: int|
                0 <= k < old(self).lnks().len() && old(self).link_live(k)
                    && #[trigger] link_matches(old(self).lnks()[k], base, link_type, h) ==> old(self).lnks()[k].author == caller,
        ensures
            final(self).wf(),
            final(self).lnks() == old(self).lnks(),
            final(self).records@ == old(self).records@,
            final(self).anchors@ == old(self).anchors@,
            forall|k: int|
                0 <= k < old(self).links@.len() && old(self).link_live(k)
                    && #[trigger] link_matches(old(self).lnks()[k], base, link_type, h) ==> !final(self).link_live(k),
            forall|k: int|
                #![trigger final(self).links@[k]]
                0 <= k < old(self).links@.len() ==> (final(self).links@[k] == old(self).links@[k] || (old(self).link_live(k) && link_matches(
                    old(self).lnks()[k],
                    base,
                    link_type,
                    h,
                ))),
    {
        let links = self.get_links(base, link_type);
        let ghost vecv = links@;
        let mut j: usize = 0;
        while j < links.len()
            invariant
                j <= vecv.len(),
                links@ == vecv,
                vecv == old(self).spec_get_links(base, link_type),
                self.wf(),
                self.lnks() == old(self).lnks(),
                self.links@.len() == old(self).links@.len(),
                self.records@ == old(self).records@,
                self.anchors@ == old(self).anchors@,
                old(self).wf(),
                forall|k: int|
                    0 <= k < old(self).lnks().len() && old(self).link_live(k)
                        && #[trigger] link_matches(old(self).lnks()[k], base, link_type, h)
                        ==> old(self).lnks()[k].author == caller,
                forall|jj: int|
                    0 <= jj < j && (#[trigger] vecv[jj]).target == LinkTarget::Record(h)
                        ==> !self.link_live(vecv[jj].create_hash as int),
                forall|k: int|
                    #![trigger self.links@[k]]
                    0 <= k < old(self).links@.len() ==> (self.links@[k] == old(self).links@[k]
                        || exists|jj: int|
                        0 <= jj < j && (#[trigger] vecv[jj]).create_hash == k && vecv[jj].target
                            == LinkTarget::Record(h)),
            decreases vecv.len() - j,
        {
            let ghost pre = *self;
            let l = links[j];
            let matches_target = match l.target {
                LinkTarget::Record(t) => t == h,
                LinkTarget::Agent(_) => false,
            };
            if matches_target {
                proof {
                    lemma_links_matching_member(old(self).links@, base, link_type, j as int);
                    let k = choose|k: int|
                        0 <= k < old(self).links@.len() && #[trigger] old(self).links@[k].link == l
                            && old(self).links@[k].deletes@.len() == 0;
                    assert(old(self).lnks()[k] == l);
                    assert(link_wf_at(
                        old(self).lnks(),
                        k,
                        old(self).recs().len() as int,
                        old(self).anchor_views().len() as int,
                    ));
                    assert(l.create_hash == k);
                    assert(link_matches(old(self).lnks()[k], base, link_type, h));
                    assert(self.lnks()[l.create_hash as int].author == caller);
                }
                let res = self.delete_link(l.create_hash, caller, now);
                proof {
                    assert(res is Ok);
                }
            }
            proof {
                assert forall|jj: int|
                    0 <= jj < j + 1 && (#[trigger] vecv[jj]).target == LinkTarget::Record(h)
                        implies !self.link_live(vecv[jj].create_hash as int) by {
                    let k = vecv[jj].create_hash as int;
                    if jj < j {
                        assert(!pre.link_live(k));
                        if 0 <= k < pre.links@.len() {
                            if matches_target && k == l.create_hash as int {
                                assert(self.links@[k].deletes@.len() > 0);
                            } else {
                                assert(self.links@[k] == pre.links@[k]);
                            }
                        }
                    } else {
                        assert(vecv[jj] == l);
                        assert(self.links@[k].deletes@.len() > 0);
                    }
                }
                assert forall|k: int|
                    #![trigger self.links@[k]]
                    0 <= k < old(self).links@.len() implies (self.links@[k] == old(self).links@[k]
                        || exists|jj: int|
                        0 <= jj < j + 1 && (#[trigger] vecv[jj]).create_hash == k && vecv[jj].target
                            == LinkTarget::Record(h)) by {
                    if self.links@[k] != old(self).links@[k] {
                        if pre.links@[k] != old(self).links@[k] {
                            assert(exists|jj: int|
                                0 <= jj < j && (#[trigger] vecv[jj]).create_hash == k
                                    && vecv[jj].target == LinkTarget::Record(h));
                        } else {
                            assert(matches_target && k == l.create_hash as int);
                            assert(vecv[j as int] == l);
                            assert((vecv[j as int]).create_hash == k && vecv[j as int].target
                                == LinkTarget::Record(h));
                        }
                    }
                }
            }
            j += 1;
        }
        proof {
            assert forall|k: int|
                0 <= k < old(self).links@.len() && old(self).link_live(k)
                    && #[trigger] link_matches(old(self).lnks()[k], base, link_type, h)
                    implies !self.link_live(k) by {
                lemma_links_matching_complete(old(self).links@, base, link_type, k);
                let jj = choose|jj: int|
                    0 <= jj < vecv.len() && #[trigger] vecv[jj] == old(self).links@[k].link;
                assert(link_wf_at(
                    old(self).lnks(),
                    k,
                    old(self).recs().len() as int,
                    old(self).anchor_views().len() as int,
                ));
                assert(vecv[jj].create_hash == k);
                assert(vecv[jj].target == LinkTarget::Record(h));
            }
            assert forall|k: int|
                #![trigger self.links@[k]]
                0 <= k < old(self).links@.len() implies (self.links@[k] == old(self).links@[k]
                || (old(self).link_live(k) && link_matches(
                    old(self).lnks()[k],
                    base,
                    link_type,
                    h,
                ))) by {
                if self.links@[k] != old(self).links@[k] {
                    let jj = choose|jj: int|
                        0 <= jj < vecv.len() && (#[trigger] vecv[jj]).create_hash == k
                            && vecv[jj].target == LinkTarget::Record(h);
                    lemma_links_matching_member(old(self).links@, base, link_type, jj);
                    let kk = choose|kk: int|
                        0 <= kk < old(self).links@.len() && #[trigger] old(self).links@[kk].link
                            == vecv[jj] && old(self).links@[kk].deletes@.len() == 0;
                    assert(link_wf_at(
                        old(self).lnks(),
                        kk,
                        old(self).recs().len() as int,
                        old(self).anchor_views().len() as int,
                    ));
                    assert(kk == k);
                    assert(old(self).link_live(k));
                    assert(link_matches(old(self).lnks()[k], base, link_type, h));
                }
            }
        }
    }


    /// The deleted links hanging from `base` with the given type.
    pub fn get_deleted_links(&self, base: LinkBase, link_type: LinkTypes) -> (r: Vec<Link>)
        ensures
            r@ == deleted_links_matching(self.links@, base, link_type),
    {
        let mut out: Vec<Link> = Vec::new();
        let mut i: usize = 0;
        while i < self.links.len()
            invariant
                i <= self.links@.len(),
                out@ == deleted_links_matching(self.links@.take(i as int), base, link_type),
            decreases self.links@.len() - i,
        {
            let slot = &self.links[i];
            proof {
                assert(self.links@.take(i + 1).drop_last() =~= self.links@.take(i as int));
                assert(self.links@.take(i + 1).last() == self.links@[i as int]);
            }
            if slot.deletes.len() > 0 && slot.link.base == base && slot.link.link_type
                == link_type {
                out.push(slot.link);
            }
            i += 1;
        }
        proof {
            assert(self.links@.take(self.links@.len() as int) =~= self.links@);
        }
        out
    }
}

} // verus!
