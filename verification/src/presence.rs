//! Presence: short-lived heartbeat records under a shared anchor, and the
//! read-time staleness filter that derives the online set. There is no
//! explicit expiry — stale heartbeats are simply ignored when reading.

use vstd::prelude::*;

use crate::store::{anchor_bytes, Store};
use crate::types::{AgentKey, EntryTypes, Link, LinkBase, LinkTarget, LinkTypes, Presence,
    RecordHash};
use crate::Error;
use vstd::pervasive::unreached;

verus! {

/// The name of the shared presence anchor.
pub open spec fn presence_anchor() -> Seq<u8> {
    anchor_bytes("presence"@)
}

/// How long a heartbeat counts as "online", in milliseconds.
pub const ONLINE_WINDOW_MILLIS: u64 = 30_000;

/// The millisecond heartbeat value derived from a microsecond clock
/// reading, truncated towards zero as the clock source does.
pub open spec fn spec_heartbeat_millis(now: int) -> int {
    if now >= 0 {
        now / 1000
    } else {
        -((-now) / 1000)
    }
}

/// Publish a heartbeat: commit a presence record stamped with the current
/// millisecond time and hang it from the shared presence anchor. A clock
/// before the epoch cannot be published.
pub fn publish_presence(store: &mut Store, caller: AgentKey, now: i64) -> (r: Result<
    RecordHash,
    Error,
>)
    requires
        old(store).wf(),
    ensures
        final(store).wf(),
        match r {
            Result::Ok(h) => {
                let rec = crate::types::Record {
                    hash: h as usize,
                    author: caller,
                    timestamp: now,
                    prev: Option::None,
                    entry: EntryTypes::Presence(
                        Presence {
                            agent_pubkey: caller,
                            timestamp: spec_heartbeat_millis(now as int) as u64,
                        },
                    ),
                };
                &&& spec_heartbeat_millis(now as int) >= 0
                &&& h == old(store).recs().len()
                &&& final(store).recs() == old(store).recs().push(rec)
                &&& final(store).rec_live(h as int)
                &&& final(store).spec_anchor_links(presence_anchor(), LinkTypes::Presence) == old(
                    store,
                ).spec_anchor_links(presence_anchor(), LinkTypes::Presence).push(
                    final(store).lnks().last(),
                )
                &&& final(store).lnks().last().target == LinkTarget::Record(h as usize)
                &&& forall|b: LinkBase, t: LinkTypes|
                    !(t is Presence) ==> #[trigger] final(store).spec_get_links(b, t) == old(
                        store,
                    ).spec_get_links(b, t)
            },
            Result::Err(e) => {
                &&& e == Error::MalformedData
                &&& spec_heartbeat_millis(now as int) < 0
                &&& *final(store) == *old(store)
            },
        },
{
    let now_ms: i64 = now.checked_div(1000).unwrap();
    if now_ms < 0 {
        return Err(Error::MalformedData);
    }
    let presence = Presence { agent_pubkey: caller, timestamp: now_ms as u64 };
    let pa = store.anchor_for("presence");
    let h = match store.create_entry(caller, now, EntryTypes::Presence(presence)) {
        Result::Ok(h) => h,
        Result::Err(_) => unreached(),
    };
    let l = store.create_link(
        caller,
        LinkBase::Anchor(pa),
        LinkTarget::Record(h),
        LinkTypes::Presence,
        now,
    );
    if l.is_err() {
        return unreached();
    }
    proof {
        let s = *store;
        let bytes = presence_anchor();
        assert(s.anchor_views()[pa as int] == bytes);
        let j = choose|i: int| 0 <= i < s.anchor_views().len() && s.anchor_views()[i] == bytes;
        if j != pa {
            assert(s.anchor_views()[j] == s.anchor_views()[pa as int]);
        }
        assert(s.spec_anchor_id(bytes) == Option::Some(pa as int));
        let oldj = choose|i: int|
            0 <= i < old(store).anchor_views().len() && old(store).anchor_views()[i] == bytes;
        if old(store).spec_anchor_id(bytes) is Some {
            assert(old(store).anchor_views()[oldj] == bytes);
            if oldj != pa {
                assert(s.anchor_views()[oldj] == s.anchor_views()[pa as int]);
            }
        } else {
            assert(pa >= old(store).anchor_views().len());
            old(store).lemma_fresh_base_no_links(LinkBase::Anchor(pa), LinkTypes::Presence);
        }
    }
    Ok(h)
}

/// The staleness cutoff: heartbeats at least this fresh count as online.
/// Clamped at zero, as millisecond heartbeats are never negative.
pub open spec fn spec_online_cutoff(now_ms: int) -> int {
    if now_ms - ONLINE_WINDOW_MILLIS < 0 {
        0
    } else {
        now_ms - ONLINE_WINDOW_MILLIS
    }
}

/// The agents whose heartbeats behind the given links are fresh, in link
/// order, first appearance only: duplicate heartbeats for one agent are
/// collapsed at read time.
pub open spec fn spec_online_users(s: Store, ls: Seq<Link>, cutoff: int) -> Seq<AgentKey>
    decreases ls.len(),
{
    if ls.len() == 0 {
        Seq::empty()
    } else {
        let rest = spec_online_users(s, ls.drop_last(), cutoff);
        match ls.last().target {
            LinkTarget::Record(t) => if s.rec_live(t as int) && (
            s.recs()[t as int].entry matches EntryTypes::Presence(p) && p.timestamp >= cutoff
                && !rest.contains(p.agent_pubkey)) {
                rest.push(s.recs()[t as int].entry->Presence_0.agent_pubkey)
            } else {
                rest
            },
            LinkTarget::Agent(_) => rest,
        }
    }
}

/// However many parallel heartbeats an agent published, the online set
/// lists them at most once: read-time de-duplication over the shared
/// anchor's links.
pub proof fn lemma_online_users_distinct(s: Store, ls: Seq<Link>, cutoff: int)
    ensures
        ({
            let users = spec_online_users(s, ls, cutoff);
            forall|i: int, j: int| 0 <= i < j < users.len() ==> users[i] != users[j]
        }),
    decreases ls.len(),
{
    if ls.len() > 0 {
        lemma_online_users_distinct(s, ls.drop_last(), cutoff);
        let rest = spec_online_users(s, ls.drop_last(), cutoff);
        let users = spec_online_users(s, ls, cutoff);
        if users.len() == rest.len() + 1 {
            assert forall|i: int, j: int| 0 <= i < j < users.len() implies users[i] != users[j] by {
                if j == users.len() - 1 {
                    assert(rest[i] == users[i]);
                    assert(rest.contains(rest[i]));
                }
            }
        }
    }
}

fn contains_agent(v: &Vec<AgentKey>, a: AgentKey) -> (r: bool)
    ensures
        r == v@.contains(a),
{
    let mut i: usize = 0;
    while i < v.len()
        invariant
            i <= v@.len(),
            forall|j: int| 0 <= j < i ==> v@[j] != a,
        decreases v@.len() - i,
    {
        if v[i] == a {
            return true;
        }
        i += 1;
    }
    proof {
        assert(!v@.contains(a));
    }
    false
}

/// The agents considered online right now: traverse the presence anchor,
/// keep heartbeats within the online window of `now_ms`, and de-duplicate
/// by agent identity.
pub fn get_online_users(store: &Store, now_ms: i64) -> (r: Vec<AgentKey>)
    requires
        store.wf(),
    ensures
        r@ == spec_online_users(
            *store,
            store.spec_anchor_links(presence_anchor(), LinkTypes::Presence),
            spec_online_cutoff(now_ms as int),
        ),
{
    let cutoff: u64 = if now_ms < 30_000 {
        0
    } else {
        (now_ms - 30_000) as u64
    };
    let links = store.links_from_anchor("presence", LinkTypes::Presence);
    let ghost ls = links@;
    let mut online: Vec<AgentKey> = Vec::new();
    let mut i: usize = 0;
    while i < links.len()
        invariant
            i <= ls.len(),
            links@ == ls,
            cutoff == spec_online_cutoff(now_ms as int),
            online@ == spec_online_users(*store, ls.take(i as int), cutoff as int),
        decreases ls.len() - i,
    {
        proof {
            assert(ls.take(i + 1).drop_last() =~= ls.take(i as int));
            assert(ls.take(i + 1).last() == ls[i as int]);
        }
        let l = links[i];
        if let LinkTarget::Record(t) = l.target {
            if let Option::Some(rec) = store.get(t) {
                if let EntryTypes::Presence(p) = &rec.entry {
                    if p.timestamp >= cutoff && !contains_agent(&online, p.agent_pubkey) {
                        online.push(p.agent_pubkey);
                    }
                }
            }
        }
        i += 1;
    }
    proof {
        assert(ls.take(ls.len() as int) =~= ls);
    }
    online
}

} // verus!
