//! The entity revision model: a mutable logical entity is an original
//! immutable record plus update records reachable through index links from
//! the original's hash. "Latest" resolution is last-writer-wins by link
//! creation time: concurrent updates are not merged, one is shadowed for any
//! given reader.

use vstd::prelude::*;

use crate::store::Store;
use crate::types::{Link, LinkBase, LinkTarget, LinkTypes, Record, RecordHash};
use crate::Error;

verus! {

/// The link with the greatest creation timestamp, ties resolved towards the
/// later link in commit order — the deterministic per-peer tie break.
pub open spec fn pick_latest(ls: Seq<Link>) -> Option<Link>
    decreases ls.len(),
{
    if ls.len() == 0 {
        Option::None
    } else {
        match pick_latest(ls.drop_last()) {
            Option::None => Option::Some(ls.last()),
            Option::Some(m) => if ls.last().timestamp >= m.timestamp {
                Option::Some(ls.last())
            } else {
                Option::Some(m)
            },
        }
    }
}

/// What [`pick_latest`] returns is an element of the sequence, and no
/// element has a later timestamp.
pub proof fn lemma_pick_latest_member(ls: Seq<Link>)
    requires
        ls.len() > 0,
    ensures
        pick_latest(ls) is Some,
        ({
            let l = pick_latest(ls)->Some_0;
            &&& exists|k: int| 0 <= k < ls.len() && ls[k] == l
            &&& forall|k: int| 0 <= k < ls.len() ==> #[trigger] ls[k].timestamp <= l.timestamp
        }),
    decreases ls.len(),
{
    if ls.len() > 1 {
        lemma_pick_latest_member(ls.drop_last());
        let m = pick_latest(ls.drop_last())->Some_0;
        let k = choose|k: int| 0 <= k < ls.drop_last().len() && ls.drop_last()[k] == m;
        assert(ls[k] == m);
        assert(forall|j: int|
            0 <= j < ls.len() - 1 ==> ls.drop_last()[j] == #[trigger] ls[j]);
    } else {
        assert(ls[0] == ls.last());
    }
}

fn pick_latest_link(links: &Vec<Link>) -> (r: Option<Link>)
    ensures
        r == pick_latest(links@),
{
    let mut cur: Option<Link> = None;
    let mut i: usize = 0;
    while i < links.len()
        invariant
            i <= links@.len(),
            cur == pick_latest(links@.take(i as int)),
        decreases links@.len() - i,
    {
        proof {
            assert(links@.take(i + 1).drop_last() =~= links@.take(i as int));
            assert(links@.take(i + 1).last() == links@[i as int]);
        }
        let l = links[i];
        cur = match cur {
            None => Some(l),
            Some(m) => if l.timestamp >= m.timestamp {
                Some(l)
            } else {
                Some(m)
            },
        };
        i += 1;
    }
    proof {
        assert(links@.take(links@.len() as int) =~= links@);
    }
    cur
}

/// A live record as served by [`Store::get`].
pub open spec fn spec_get(s: Store, h: int) -> Option<Record> {
    if s.rec_live(h) {
        Option::Some(s.recs()[h])
    } else {
        Option::None
    }
}

/// What latest-version resolution returns: with no update links, the
/// original record; otherwise the record at the target of the update link
/// with the greatest creation timestamp. A link target that is not a record
/// hash is malformed.
pub open spec fn spec_resolve_latest(s: Store, orig: int, link_type: LinkTypes) -> Result<
    Option<Record>,
    Error,
> {
    match pick_latest(s.spec_get_links(LinkBase::Record(orig as usize), link_type)) {
        Option::None => Result::Ok(spec_get(s, orig)),
        Option::Some(l) => match l.target {
            LinkTarget::Record(t) => Result::Ok(spec_get(s, t as int)),
            LinkTarget::Agent(_) => Result::Err(Error::MalformedData),
        },
    }
}


/// Resolve the current state of the entity rooted at `original_hash`: fetch
/// its update links of the given type, select the one with the maximum link
/// creation timestamp (ties broken deterministically towards the later
/// commit), and return the record at its target; with no updates, the
/// original record itself.
pub fn resolve_latest(store: &Store, original_hash: RecordHash, link_type: LinkTypes) -> (r:
    Result<Option<Record>, Error>)
    ensures
        r == spec_resolve_latest(*store, original_hash as int, link_type),
{
    let links = store.get_links(LinkBase::Record(original_hash), link_type);
    match pick_latest_link(&links) {
        None => {
            match store.get(original_hash) {
                Some(rec) => Ok(Some(rec.clone())),
                None => Ok(None),
            }
        },
        Some(l) => {
            match l.target {
                LinkTarget::Record(t) => {
                    match store.get(t) {
                        Some(rec) => Ok(Some(rec.clone())),
                        None => Ok(None),
                    }
                },
                LinkTarget::Agent(_) => Err(Error::MalformedData),
            }
        },
    }
}

/// In a well-formed store, a record served by latest-resolution is a live
/// stored record whose hash names its own position, and the entity's
/// original hash is in range.
pub proof fn lemma_resolve_latest_live(s: Store, orig: int, link_type: LinkTypes)
    requires
        s.wf(),
        0 <= orig <= usize::MAX,
        spec_resolve_latest(s, orig, link_type) matches Result::Ok(Option::Some(_)),
    ensures
        ({
            let rec = spec_resolve_latest(s, orig, link_type)->Ok_0->Some_0;
            &&& 0 <= rec.hash < s.recs().len()
            &&& s.rec_live(rec.hash as int)
            &&& s.recs()[rec.hash as int] == rec
            &&& orig < s.recs().len()
        }),
{
    let ls = s.spec_get_links(LinkBase::Record(orig as usize), link_type);
    let rec = spec_resolve_latest(s, orig, link_type)->Ok_0->Some_0;
    match pick_latest(ls) {
        Option::None => {
            assert(s.rec_live(orig));
            assert(crate::store::record_wf_at(s.recs(), orig));
        },
        Option::Some(l) => {
            lemma_pick_latest_member(ls);
            let k = choose|k: int| 0 <= k < ls.len() && ls[k] == l;
            s.lemma_get_links_wf(LinkBase::Record(orig as usize), link_type, k);
            let t = l.target->Record_0;
            assert(s.rec_live(t as int));
            assert(crate::store::record_wf_at(s.recs(), t as int));
        },
    }
}

/// What original-record resolution returns: the creation record, whether or
/// not the entity has since been updated or deleted.
pub open spec fn spec_resolve_original(s: Store, orig: int) -> Option<Record> {
    if 0 <= orig < s.recs().len() {
        Option::Some(s.recs()[orig])
    } else {
        Option::None
    }
}

/// Fetch the entity's creation record. The original hash is the entity's
/// one stable identifier, so this never depends on how often the entity was
/// updated.
pub fn resolve_original(store: &Store, original_hash: RecordHash) -> (r: Option<Record>)
    ensures
        r == spec_resolve_original(*store, original_hash as int),
{
    match store.get_record(original_hash) {
        Some(rec) => Some(rec.clone()),
        None => None,
    }
}

/// Whether every link in the sequence points at a record.
pub open spec fn all_targets_records(ls: Seq<Link>) -> bool {
    forall|j: int| 0 <= j < ls.len() ==> #[trigger] ls[j].target is Record
}

/// The live records at the targets of the given links, in link order.
/// Targets whose records fail to resolve are filtered out.
pub open spec fn live_target_records(s: Store, ls: Seq<Link>) -> Seq<Record>
    decreases ls.len(),
{
    if ls.len() == 0 {
        Seq::empty()
    } else {
        let rest = live_target_records(s, ls.drop_last());
        match ls.last().target {
            LinkTarget::Record(t) => if s.rec_live(t as int) {
                rest.push(s.recs()[t as int])
            } else {
                rest
            },
            LinkTarget::Agent(_) => rest,
        }
    }
}

/// Fetch the full audit history of an entity: the original record first,
/// then every update record in link order. An absent original yields an
/// empty history; an update link whose target is not a record hash is
/// malformed.
pub fn resolve_all_revisions(store: &Store, original_hash: RecordHash, link_type: LinkTypes) -> (r:
    Result<Vec<Record>, Error>)
    ensures
        ({
            let ls = store.spec_get_links(LinkBase::Record(original_hash), link_type);
            if original_hash >= store.recs().len() {
                r matches Result::Ok(v) && v@ == Seq::<Record>::empty()
            } else if !all_targets_records(ls) {
                r == Result::<Vec<Record>, Error>::Err(Error::MalformedData)
            } else {
                r matches Result::Ok(v) && v@ == seq![store.recs()[original_hash as int]]
                    + live_target_records(*store, ls)
            }
        }),
{
    let original = match store.get_record(original_hash) {
        Some(rec) => rec.clone(),
        None => {
            return Ok(Vec::new());
        },
    };
    let links = store.get_links(LinkBase::Record(original_hash), link_type);
    let ghost ls = links@;
    let mut out: Vec<Record> = Vec::new();
    out.push(original);
    let mut i: usize = 0;
    while i < links.len()
        invariant
            i <= ls.len(),
            links@ == ls,
            ls == store.spec_get_links(LinkBase::Record(original_hash), link_type),
            original_hash < store.recs().len(),
            out@ == seq![store.recs()[original_hash as int]] + live_target_records(
                *store,
                ls.take(i as int),
            ),
            forall|j: int| 0 <= j < i ==> #[trigger] ls[j].target is Record,
        decreases ls.len() - i,
    {
        proof {
            assert(ls.take(i + 1).drop_last() =~= ls.take(i as int));
            assert(ls.take(i + 1).last() == ls[i as int]);
        }
        let l = links[i];
        match l.target {
            LinkTarget::Record(t) => {
                match store.get(t) {
                    Some(rec) => {
                        out.push(rec.clone());
                    },
                    None => {},
                }
            },
            LinkTarget::Agent(_) => {
                proof {
                    assert(!(ls[i as int].target is Record));
                    assert(!all_targets_records(ls));
                }
                return Err(Error::MalformedData);
            },
        }
        i += 1;
    }
    proof {
        assert(ls.take(ls.len() as int) =~= ls);
    }
    Ok(out)
}

/// Batch-fetch the live records at the targets of the given links, in link
/// order. Targets that are not record hashes or fail to resolve are
/// filtered out: discovery code tolerates dangling index entries.
pub fn records_at_links(store: &Store, links: &Vec<Link>) -> (r: Vec<Record>)
    ensures
        r@ == live_target_records(*store, links@),
{
    let mut out: Vec<Record> = Vec::new();
    let mut i: usize = 0;
    while i < links.len()
        invariant
            i <= links@.len(),
            out@ == live_target_records(*store, links@.take(i as int)),
        decreases links@.len() - i,
    {
        proof {
            assert(links@.take(i + 1).drop_last() =~= links@.take(i as int));
            assert(links@.take(i + 1).last() == links@[i as int]);
        }
        let l = links[i];
        if let LinkTarget::Record(t) = l.target {
            match store.get(t) {
                Some(rec) => {
                    out.push(rec.clone());
                },
                None => {},
            }
        }
        i += 1;
    }
    proof {
        assert(links@.take(links@.len() as int) =~= links@);
    }
    out
}

use crate::types::DeleteInfo;

/// The delete with the smallest timestamp, ties resolved towards the
/// earlier delete in commit order.
pub open spec fn pick_oldest(ds: Seq<DeleteInfo>) -> Option<DeleteInfo>
    decreases ds.len(),
{
    if ds.len() == 0 {
        Option::None
    } else {
        match pick_oldest(ds.drop_last()) {
            Option::None => Option::Some(ds.last()),
            Option::Some(m) => if ds.last().timestamp < m.timestamp {
                Option::Some(ds.last())
            } else {
                Option::Some(m)
            },
        }
    }
}

/// All delete actions registered against a record, in commit order; `None`
/// when the record does not exist.
pub fn deletes_for(store: &Store, original_hash: RecordHash) -> (r: Option<Vec<DeleteInfo>>)
    ensures
        match r {
            Option::Some(ds) => original_hash < store.records@.len() && ds@
                == store.records@[original_hash as int].deletes@,
            Option::None => original_hash >= store.records@.len(),
        },
{
    match store.get_deletes(original_hash) {
        Option::Some(ds) => {
            let mut out: Vec<DeleteInfo> = Vec::new();
            let mut i: usize = 0;
            while i < ds.len()
                invariant
                    i <= ds@.len(),
                    out@ == ds@.take(i as int),
                decreases ds@.len() - i,
            {
                out.push(ds[i]);
                proof {
                    assert(ds@.take(i + 1) =~= ds@.take(i as int).push(ds@[i as int]));
                }
                i += 1;
            }
            proof {
                assert(ds@.take(ds@.len() as int) =~= ds@);
            }
            Some(out)
        },
        Option::None => None,
    }
}

/// The oldest delete registered against a record; `None` when the record
/// does not exist or nothing deleted it.
pub fn oldest_delete_for(store: &Store, original_hash: RecordHash) -> (r: Option<DeleteInfo>)
    ensures
        if original_hash < store.records@.len() {
            r == pick_oldest(store.records@[original_hash as int].deletes@)
        } else {
            r is None
        },
{
    match store.get_deletes(original_hash) {
        Option::Some(ds) => {
            let ghost dsg = ds@;
            let mut cur: Option<DeleteInfo> = None;
            let mut i: usize = 0;
            while i < ds.len()
                invariant
                    i <= dsg.len(),
                    ds@ == dsg,
                    cur == pick_oldest(dsg.take(i as int)),
                decreases dsg.len() - i,
            {
                proof {
                    assert(dsg.take(i + 1).drop_last() =~= dsg.take(i as int));
                    assert(dsg.take(i + 1).last() == dsg[i as int]);
                }
                let d = ds[i];
                cur = match cur {
                    None => Some(d),
                    Some(m) => if d.timestamp < m.timestamp {
                        Some(d)
                    } else {
                        Some(m)
                    },
                };
                i += 1;
            }
            proof {
                assert(dsg.take(dsg.len() as int) =~= dsg);
            }
            cur
        },
        Option::None => None,
    }
}

} // verus!
