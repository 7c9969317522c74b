//! Player profiles: registration with a unique name, profile revision
//! queries, and the name registry built on anchor links.

use vstd::prelude::*;

use crate::entity::{all_targets_records, deletes_for, live_target_records, oldest_delete_for,
    pick_oldest, resolve_all_revisions, resolve_latest, resolve_original, spec_get,
    spec_resolve_latest, spec_resolve_original};
use crate::store::{anchor_bytes, Store};
use crate::types::{AgentKey, DeleteInfo, EntryTypes, Link, LinkBase, LinkTarget, LinkTypes,
    Player, Record, RecordHash, UpdatePlayerInput};
use crate::validation::{spec_validate_create_player, spec_validate_update_entry};
use crate::Error;
use vstd::pervasive::unreached;

verus! {

/// Whether an agent has a registered profile: a live PlayerToPlayers link
/// hangs from their identity.
pub open spec fn player_has_profile(s: Store, agent: AgentKey) -> bool {
    s.spec_get_links(LinkBase::Agent(agent), LinkTypes::PlayerToPlayers).len() > 0
}

/// The live name-registry links for a name (after ASCII case folding).
pub open spec fn spec_name_links(s: Store, name: Seq<char>) -> Seq<Link> {
    s.spec_anchor_links(anchor_bytes(name), LinkTypes::PlayerNameToPlayer)
}

/// Whether a name is already claimed in the registry.
pub open spec fn spec_name_taken(s: Store, name: Seq<char>) -> bool {
    spec_name_links(s, name).len() > 0
}

/// Whether a player name is still free, consulting the name registry.
/// Names differing only in ASCII letter case count as the same name.
pub fn is_player_name_unique(store: &Store, player_name: &str) -> (r: bool)
    requires
        store.wf(),
    ensures
        r == !spec_name_taken(*store, player_name@),
{
    let links = store.links_from_anchor(player_name, LinkTypes::PlayerNameToPlayer);
    links.len() == 0
}

/// Whether an agent has a registered profile.
pub fn player_exists(store: &Store, agent_pub_key: AgentKey) -> (r: bool)
    ensures
        r == player_has_profile(*store, agent_pub_key),
{
    let links = store.get_links(LinkBase::Agent(agent_pub_key), LinkTypes::PlayerToPlayers);
    links.len() > 0
}

/// The profile links hanging from an agent's identity.
pub fn get_player_profile_hash_for_agent(store: &Store, player_agent_key: AgentKey) -> (r: Vec<
    Link,
>)
    ensures
        r@ == store.spec_get_links(LinkBase::Agent(player_agent_key), LinkTypes::PlayerToPlayers),
{
    store.get_links(LinkBase::Agent(player_agent_key), LinkTypes::PlayerToPlayers)
}

/// The deleted profile links hanging from an agent's identity.
pub fn get_deleted_player_links_for_agent(store: &Store, player_agent_key: AgentKey) -> (r: Vec<
    Link,
>)
    ensures
        r@ == crate::store::deleted_links_matching(
            store.links@,
            LinkBase::Agent(player_agent_key),
            LinkTypes::PlayerToPlayers,
        ),
{
    store.get_deleted_links(LinkBase::Agent(player_agent_key), LinkTypes::PlayerToPlayers)
}

/// Resolve the current state of a profile.
pub fn get_latest_player(store: &Store, original_player_hash: RecordHash) -> (r: Result<
    Option<Record>,
    Error,
>)
    ensures
        r == spec_resolve_latest(*store, original_player_hash as int, LinkTypes::PlayerUpdates),
{
    resolve_latest(store, original_player_hash, LinkTypes::PlayerUpdates)
}

/// Fetch a profile's creation record, whatever its update count.
pub fn get_original_player(store: &Store, original_player_hash: RecordHash) -> (r: Option<Record>)
    ensures
        r == spec_resolve_original(*store, original_player_hash as int),
{
    resolve_original(store, original_player_hash)
}

/// Fetch a profile's full history: original first, then updates in link
/// order.
pub fn get_all_revisions_for_player(store: &Store, original_player_hash: RecordHash) -> (r: Result<
    Vec<Record>,
    Error,
>)
    ensures
        ({
            let ls = store.spec_get_links(
                LinkBase::Record(original_player_hash),
                LinkTypes::PlayerUpdates,
            );
            if original_player_hash >= store.recs().len() {
                r matches Result::Ok(v) && v@ == Seq::<Record>::empty()
            } else if !all_targets_records(ls) {
                r == Result::<Vec<Record>, Error>::Err(Error::MalformedData)
            } else {
                r matches Result::Ok(v) && v@ == seq![store.recs()[original_player_hash as int]]
                    + live_target_records(*store, ls)
            }
        }),
{
    resolve_all_revisions(store, original_player_hash, LinkTypes::PlayerUpdates)
}

/// All delete actions registered against a profile.
pub fn get_all_deletes_for_player(store: &Store, original_player_hash: RecordHash) -> (r: Option<
    Vec<DeleteInfo>,
>)
    ensures
        match r {
            Option::Some(ds) => original_player_hash < store.records@.len() && ds@
                == store.records@[original_player_hash as int].deletes@,
            Option::None => original_player_hash >= store.records@.len(),
        },
{
    deletes_for(store, original_player_hash)
}

/// The oldest delete registered against a profile.
pub fn get_oldest_delete_for_player(store: &Store, original_player_hash: RecordHash) -> (r: Option<
    DeleteInfo,
>)
    ensures
        if original_player_hash < store.records@.len() {
            r == pick_oldest(store.records@[original_player_hash as int].deletes@)
        } else {
            r is None
        },
{
    oldest_delete_for(store, original_player_hash)
}

/// The decision for registering a profile, in rule order: only the player
/// themselves may register; the name must be free; the agent must not
/// already have a profile; and the profile must pass the validation engine.
pub open spec fn spec_create_player_check(s: Store, caller: AgentKey, player: Player) -> Result<
    (),
    Error,
> {
    if player.player_key != caller {
        Result::Err(Error::Unauthorized)
    } else if spec_name_taken(s, player.player_name@) {
        Result::Err(Error::Conflict)
    } else if player_has_profile(s, player.player_key) {
        Result::Err(Error::Conflict)
    } else {
        spec_validate_create_player(caller, player)
    }
}

/// Register a player profile: commit the profile record, index it from the
/// agent's identity, claim its name in the registry, and list the agent
/// under the global players anchor.
pub fn create_player(store: &mut Store, caller: AgentKey, now: i64, player: Player) -> (r: Result<
    Record,
    Error,
>)
    requires
        old(store).wf(),
    ensures
        final(store).wf(),
        match r {
            Result::Ok(rec) => {
                let h = old(store).recs().len();
                let profile_link = Link {
                    create_hash: old(store).lnks().len() as usize,
                    author: caller,
                    base: LinkBase::Agent(player.player_key),
                    target: LinkTarget::Record(h as usize),
                    link_type: LinkTypes::PlayerToPlayers,
                    timestamp: now,
                };
                &&& spec_create_player_check(*old(store), caller, player) is Ok
                &&& rec == Record {
                    hash: h as usize,
                    author: caller,
                    timestamp: now,
                    prev: Option::None,
                    entry: EntryTypes::Player(player),
                }
                &&& final(store).recs() == old(store).recs().push(rec)
                &&& final(store).rec_live(h as int)
                &&& final(store).lnks().len() == old(store).lnks().len() + 3
                &&& final(store).spec_get_links(
                    LinkBase::Agent(player.player_key),
                    LinkTypes::PlayerToPlayers,
                ) == old(store).spec_get_links(
                    LinkBase::Agent(player.player_key),
                    LinkTypes::PlayerToPlayers,
                ).push(profile_link)
                &&& player_has_profile(*final(store), player.player_key)
                &&& spec_name_taken(*final(store), player.player_name@)
                &&& ({
                    let name_link = final(store).lnks()[old(store).lnks().len() as int + 1];
                    &&& name_link.target == LinkTarget::Record(h as usize)
                    &&& name_link.link_type is PlayerNameToPlayer
                    &&& name_link.base matches LinkBase::Anchor(a) && final(store).anchor_views()[a as int] == anchor_bytes(player.player_name@)
                })
                &&& ({
                    let listing_link = final(store).lnks()[old(store).lnks().len() as int + 2];
                    &&& listing_link.target == LinkTarget::Agent(player.player_key)
                    &&& listing_link.link_type is AllPlayersAnchorToAgentPubKey
                    &&& listing_link.base matches LinkBase::Anchor(a) && final(store).anchor_views()[a as int] == anchor_bytes("all_players"@)
                })
            },
            Result::Err(e) => {
                &&& spec_create_player_check(*old(store), caller, player) == Result::<
                    (),
                    Error,
                >::Err(e)
                &&& *final(store) == *old(store)
            },
        },
{
    if !(player.player_key == caller) {
        return Err(Error::Unauthorized);
    }
    if !is_player_name_unique(store, player.player_name.as_str()) {
        return Err(Error::Conflict);
    }
    if player_exists(store, player.player_key) {
        return Err(Error::Conflict);
    }
    if let Err(e) = crate::validation::validate_create_player(caller, &player) {
        return Err(e);
    }
    let key = player.player_key;
    let ghost name_view = player.player_name@;
    let name_anchor = store.anchor_for(player.player_name.as_str());
    let all_players_anchor = store.anchor_for("all_players");
    let h = match store.create_entry(caller, now, EntryTypes::Player(player)) {
        Result::Ok(h) => h,
        Result::Err(_) => unreached(),
    };
    let l1 = store.create_link(
        caller,
        LinkBase::Agent(key),
        LinkTarget::Record(h),
        LinkTypes::PlayerToPlayers,
        now,
    );
    if l1.is_err() {
        return unreached();
    }
    let l2 = store.create_link(
        caller,
        LinkBase::Anchor(name_anchor),
        LinkTarget::Record(h),
        LinkTypes::PlayerNameToPlayer,
        now,
    );
    if l2.is_err() {
        return unreached();
    }
    let l3 = store.create_link(
        caller,
        LinkBase::Anchor(all_players_anchor),
        LinkTarget::Agent(key),
        LinkTypes::AllPlayersAnchorToAgentPubKey,
        now,
    );
    if l3.is_err() {
        return unreached();
    }
    proof {
        let s = *store;
        let bytes = anchor_bytes(name_view);
        assert(s.anchor_views()[name_anchor as int] == bytes);
        let j = choose|i: int| 0 <= i < s.anchor_views().len() && s.anchor_views()[i] == bytes;
        if j != name_anchor {
            assert(s.anchor_views()[j] == s.anchor_views()[name_anchor as int]);
        }
        assert(s.spec_anchor_id(bytes) == Option::Some(name_anchor as int));
    }
    match store.get(h) {
        Option::Some(rec) => Ok(rec.clone()),
        Option::None => unreached(),
    }
}

/// The decision for updating a profile, in rule order: the original must
/// exist and carry a profile; only the owner may update; a changed name
/// must still be free; and the new revision must pass the validation engine
/// against the record it supersedes.
pub open spec fn spec_update_player_check(
    s: Store,
    caller: AgentKey,
    input: UpdatePlayerInput,
) -> Result<(), Error> {
    match spec_get(s, input.original_player_hash as int) {
        Option::None => Result::Err(Error::NotFound),
        Option::Some(orig_rec) => match orig_rec.entry {
            EntryTypes::Player(orig) => if orig.player_key != caller {
                Result::Err(Error::Unauthorized)
            } else if input.updated_player.player_name@ != orig.player_name@ && spec_name_taken(
                s,
                input.updated_player.player_name@,
            ) {
                Result::Err(Error::Conflict)
            } else if input.previous_player_hash >= s.recs().len() {
                Result::Err(Error::NotFound)
            } else {
                spec_validate_update_entry(
                    caller,
                    EntryTypes::Player(input.updated_player),
                    s.recs()[input.previous_player_hash as int].entry,
                )
            },
            _ => Result::Err(Error::MalformedData),
        },
    }
}

/// Update a player profile: commit the new revision superseding the given
/// tip, and index it from the profile's original record.
pub fn update_player(store: &mut Store, caller: AgentKey, now: i64, input: UpdatePlayerInput) -> (r:
    Result<Record, Error>)
    requires
        old(store).wf(),
    ensures
        final(store).wf(),
        match r {
            Result::Ok(rec) => {
                let h = old(store).recs().len();
                let update_link = Link {
                    create_hash: old(store).lnks().len() as usize,
                    author: caller,
                    base: LinkBase::Record(input.original_player_hash),
                    target: LinkTarget::Record(h as usize),
                    link_type: LinkTypes::PlayerUpdates,
                    timestamp: now,
                };
                &&& spec_update_player_check(*old(store), caller, input) is Ok
                &&& rec == Record {
                    hash: h as usize,
                    author: caller,
                    timestamp: now,
                    prev: Option::Some(input.previous_player_hash),
                    entry: EntryTypes::Player(input.updated_player),
                }
                &&& final(store).recs() == old(store).recs().push(rec)
                &&& final(store).rec_live(h as int)
                &&& final(store).anchor_views() == old(store).anchor_views()
                &&& forall|b: LinkBase, t: LinkTypes|
                    #[trigger] final(store).spec_get_links(b, t) == if b == LinkBase::Record(
                        input.original_player_hash,
                    ) && t == LinkTypes::PlayerUpdates {
                        old(store).spec_get_links(b, t).push(update_link)
                    } else {
                        old(store).spec_get_links(b, t)
                    }
            },
            Result::Err(e) => {
                &&& spec_update_player_check(*old(store), caller, input) == Result::<
                    (),
                    Error,
                >::Err(e)
                &&& *final(store) == *old(store)
            },
        },
{
    let original_player_hash = input.original_player_hash;
    let previous_player_hash = input.previous_player_hash;
    let orig_key: AgentKey;
    let name_changed: bool;
    match store.get(original_player_hash) {
        Option::None => {
            return Err(Error::NotFound);
        },
        Option::Some(orig_rec) => {
            match &orig_rec.entry {
                EntryTypes::Player(orig) => {
                    orig_key = orig.player_key;
                    name_changed = !(input.updated_player.player_name == orig.player_name);
                },
                _ => {
                    return Err(Error::MalformedData);
                },
            }
        },
    }
    if !(orig_key == caller) {
        return Err(Error::Unauthorized);
    }
    if name_changed && !is_player_name_unique(store, input.updated_player.player_name.as_str()) {
        return Err(Error::Conflict);
    }
    if previous_player_hash >= store.records.len() {
        return Err(Error::NotFound);
    }
    let h = match store.update_entry(
        previous_player_hash,
        caller,
        now,
        EntryTypes::Player(input.updated_player),
    ) {
        Result::Ok(h) => h,
        Result::Err(e) => {
            return Err(e);
        },
    };
    let l = store.create_link(
        caller,
        LinkBase::Record(original_player_hash),
        LinkTarget::Record(h),
        LinkTypes::PlayerUpdates,
        now,
    );
    if l.is_err() {
        return unreached();
    }
    match store.get(h) {
        Option::Some(rec) => Ok(rec.clone()),
        Option::None => unreached(),
    }
}

/// Whether a link is a name-registry entry for this (folded) name that
/// points at the profile record `h`.
pub open spec fn name_registry_link(
    s: Store,
    l: Link,
    name: Seq<char>,
    h: RecordHash,
) -> bool {
    &&& l.target == LinkTarget::Record(h)
    &&& l.link_type is PlayerNameToPlayer
    &&& l.base matches LinkBase::Anchor(a) && 0 <= a < s.anchor_views().len()
        && s.anchor_views()[a as int] == anchor_bytes(name)
}

/// The decision for deleting a profile: the record must exist and carry a
/// profile; only the owner may delete it; and the owner must also have
/// authored every name-registry entry about to be removed, since only a
/// link's author may remove it.
pub open spec fn spec_delete_player_check(s: Store, caller: AgentKey, h: RecordHash) -> Result<
    (),
    Error,
> {
    if h >= s.recs().len() {
        Result::Err(Error::NotFound)
    } else {
        match s.recs()[h as int].entry {
            EntryTypes::Player(p) => if p.player_key != caller {
                Result::Err(Error::Unauthorized)
            } else if exists|k: int|
                0 <= k < s.lnks().len() && s.link_live(k) && #[trigger] name_registry_link(
                    s,
                    s.lnks()[k],
                    p.player_name@,
                    h,
                ) && s.lnks()[k].author != caller {
                Result::Err(Error::Unauthorized)
            } else {
                Result::Ok(())
            },
            _ => Result::Err(Error::MalformedData),
        }
    }
}

/// Delete a player profile: remove its identity index link and its name
/// registry entry, then register the delete against the record itself.
/// Re-registration under a new identifier stays possible.
pub fn delete_player(store: &mut Store, caller: AgentKey, now: i64, original_player_hash: RecordHash) -> (r:
    Result<(), Error>)
    requires
        old(store).wf(),
    ensures
        final(store).wf(),
        match r {
            Result::Ok(_) => {
                let p = old(store).recs()[original_player_hash as int].entry->Player_0;
                &&& spec_delete_player_check(*old(store), caller, original_player_hash) is Ok
                &&& final(store).recs() == old(store).recs()
                &&& final(store).lnks() == old(store).lnks()
                &&& final(store).anchor_views() == old(store).anchor_views()
                &&& !final(store).rec_live(original_player_hash as int)
                &&& forall|i: int|
                    0 <= i < old(store).records@.len() && i != original_player_hash
                        ==> #[trigger] final(store).records@[i] == old(store).records@[i]
                &&& forall|k: int|
                    0 <= k < old(store).links@.len() && old(store).link_live(k) && (
                    crate::store::link_matches(
                        #[trigger] old(store).lnks()[k],
                        LinkBase::Agent(p.player_key),
                        LinkTypes::PlayerToPlayers,
                        original_player_hash,
                    ) || name_registry_link(
                        *old(store),
                        old(store).lnks()[k],
                        p.player_name@,
                        original_player_hash,
                    )) ==> !final(store).link_live(k)
            },
            Result::Err(e) => {
                &&& spec_delete_player_check(*old(store), caller, original_player_hash)
                    == Result::<(), Error>::Err(e)
                &&& *final(store) == *old(store)
            },
        },
{
    let h = original_player_hash;
    if h >= store.records.len() {
        return Err(Error::NotFound);
    }
    let key: AgentKey;
    let name: String;
    match store.get_record(h) {
        Option::Some(rec) => {
            match &rec.entry {
                EntryTypes::Player(p) => {
                    key = p.player_key;
                    name = p.player_name.clone();
                },
                _ => {
                    return Err(Error::MalformedData);
                },
            }
        },
        Option::None => {
            return unreached();
        },
    }
    if !(key == caller) {
        return Err(Error::Unauthorized);
    }
    let ghost namev = name@;
    // Only the author of a link may remove it, so a name-registry entry
    // someone else hung on this profile blocks the delete up front.
    let name_anchor = store.find_anchor(name.as_str());
    if let Option::Some(aid) = name_anchor {
        let name_links = store.get_links(
            LinkBase::Anchor(aid),
            LinkTypes::PlayerNameToPlayer,
        );
        let mut j: usize = 0;
        let mut foreign: bool = false;
        let ghost nls = name_links@;
        while j < name_links.len()
            invariant
                j <= nls.len(),
                name_links@ == nls,
                *store == *old(store),
                store.wf(),
                nls == store.spec_get_links(LinkBase::Anchor(aid), LinkTypes::PlayerNameToPlayer),
                aid < store.anchor_views().len(),
                store.anchor_views()[aid as int] == anchor_bytes(namev),
                h < store.records@.len(),
                store.recs()[h as int].entry matches EntryTypes::Player(p) && p.player_key
                    == caller && p.player_name@ == namev,
                foreign ==> spec_delete_player_check(*old(store), caller, h) == Result::<
                    (),
                    Error,
                >::Err(Error::Unauthorized),
                !foreign ==> forall|jj: int|
                    0 <= jj < j && (#[trigger] nls[jj]).target == LinkTarget::Record(h)
                        ==> nls[jj].author == caller,
            decreases nls.len() - j,
        {
            let l = name_links[j];
            let hits = match l.target {
                LinkTarget::Record(t) => t == h,
                LinkTarget::Agent(_) => false,
            };
            if hits && !(l.author == caller) {
                proof {
                    crate::store::lemma_links_matching_member(
                        store.links@,
                        LinkBase::Anchor(aid),
                        LinkTypes::PlayerNameToPlayer,
                        j as int,
                    );
                    let kk = choose|kk: int|
                        0 <= kk < store.links@.len() && #[trigger] store.links@[kk].link == l
                            && store.links@[kk].deletes@.len() == 0;
                    assert(store.lnks()[kk] == l);
                    assert(name_registry_link(*store, store.lnks()[kk], namev, h));
                    assert(store.link_live(kk));
                    let p = old(store).recs()[h as int].entry->Player_0;
                    assert(p.player_name@ == namev);
                    assert(name_registry_link(
                        *old(store),
                        old(store).lnks()[kk],
                        p.player_name@,
                        h,
                    ));
                    assert(old(store).link_live(kk) && old(store).lnks()[kk].author != caller);
                }
                foreign = true;
            }
            j += 1;
        }
        if foreign {
            return Err(Error::Unauthorized);
        }
        proof {
            assert forall|k: int|
                0 <= k < store.lnks().len() && store.link_live(k)
                    && #[trigger] name_registry_link(*store, store.lnks()[k], namev, h)
                    implies store.lnks()[k].author == caller by {
                let a = store.lnks()[k].base->Anchor_0;
                if a != aid {
                    assert(store.anchor_views()[a as int] == store.anchor_views()[aid as int]);
                }
                crate::store::lemma_links_matching_complete(
                    store.links@,
                    LinkBase::Anchor(aid),
                    LinkTypes::PlayerNameToPlayer,
                    k,
                );
                let jj = choose|jj: int|
                    0 <= jj < nls.len() && #[trigger] nls[jj] == store.links@[k].link;
            }
        }
    } else {
        proof {
            assert forall|k: int|
                0 <= k < store.lnks().len() && store.link_live(k)
                    && #[trigger] name_registry_link(*store, store.lnks()[k], namev, h)
                    implies store.lnks()[k].author == caller by {
                let a = store.lnks()[k].base->Anchor_0;
                assert(store.anchor_views()[a as int] != anchor_bytes(namev));
            }
        }
    }
    proof {
        assert forall|k: int|
            0 <= k < store.lnks().len() && store.link_live(k)
                && #[trigger] crate::store::link_matches(
                store.lnks()[k],
                LinkBase::Agent(key),
                LinkTypes::PlayerToPlayers,
                h,
            ) implies store.lnks()[k].author == caller by {
            assert(crate::store::link_wf_at(
                store.lnks(),
                k,
                store.recs().len() as int,
                store.anchor_views().len() as int,
            ));
        }
    }
    store.delete_links_matching(caller, now, LinkBase::Agent(key), LinkTypes::PlayerToPlayers, h);
    let ghost mid = *store;
    let second_anchor = store.find_anchor(name.as_str());
    if let Option::Some(aid) = second_anchor {
        proof {
            assert forall|k: int|
                0 <= k < store.lnks().len() && store.link_live(k)
                    && #[trigger] crate::store::link_matches(
                    store.lnks()[k],
                    LinkBase::Anchor(aid),
                    LinkTypes::PlayerNameToPlayer,
                    h,
                ) implies store.lnks()[k].author == caller by {
                assert(old(store).links@[k] == store.links@[k] || (old(store).link_live(k)
                    && crate::store::link_matches(
                    old(store).lnks()[k],
                    LinkBase::Agent(key),
                    LinkTypes::PlayerToPlayers,
                    h,
                )));
                assert(name_registry_link(*old(store), old(store).lnks()[k], namev, h));
            }
        }
        store.delete_links_matching(
            caller,
            now,
            LinkBase::Anchor(aid),
            LinkTypes::PlayerNameToPlayer,
            h,
        );
    }
    let res = store.delete_entry(h, caller, now);
    proof {
        assert(res is Ok);
        assert forall|k: int|
            0 <= k < old(store).links@.len() && old(store).link_live(k) && (
            crate::store::link_matches(
                #[trigger] old(store).lnks()[k],
                LinkBase::Agent(key),
                LinkTypes::PlayerToPlayers,
                h,
            ) || name_registry_link(*old(store), old(store).lnks()[k], namev, h))
            implies !store.link_live(k) by {
            if crate::store::link_matches(
                old(store).lnks()[k],
                LinkBase::Agent(key),
                LinkTypes::PlayerToPlayers,
                h,
            ) {
                assert(!mid.link_live(k));
                assert(mid.links@[k] == store.links@[k] || !store.link_live(k));
            } else {
                let a = old(store).lnks()[k].base->Anchor_0;
                if mid.links@[k] == old(store).links@[k] {
                    assert(mid.link_live(k));
                    assert(mid.anchor_views()[a as int] == anchor_bytes(namev));
                    match second_anchor {
                        Option::Some(aid) => {
                            if a != aid {
                                assert(mid.anchor_views()[a as int]
                                    == mid.anchor_views()[aid as int]);
                            }
                            assert(crate::store::link_matches(
                                mid.lnks()[k],
                                LinkBase::Anchor(aid),
                                LinkTypes::PlayerNameToPlayer,
                                h,
                            ));
                        },
                        Option::None => {
                            assert(mid.anchor_views()[a as int] != anchor_bytes(namev));
                        },
                    }
                } else {
                    assert(!mid.link_live(k));
                    assert(mid.links@[k] == store.links@[k] || !store.link_live(k));
                }
            }
        }
    }
    Ok(())
}

/// The name of the global players listing anchor.
pub open spec fn all_players_anchor() -> Seq<u8> {
    anchor_bytes("all_players"@)
}

/// The agent identities targeted by the given links, in link order.
pub open spec fn spec_agent_targets(ls: Seq<Link>) -> Seq<AgentKey>
    decreases ls.len(),
{
    if ls.len() == 0 {
        Seq::empty()
    } else {
        let rest = spec_agent_targets(ls.drop_last());
        match ls.last().target {
            LinkTarget::Agent(a) => rest.push(a),
            LinkTarget::Record(_) => rest,
        }
    }
}

/// Every agent listed under the global players anchor, in listing order.
pub fn get_all_player_pubkeys(store: &Store) -> (r: Vec<AgentKey>)
    requires
        store.wf(),
    ensures
        r@ == spec_agent_targets(
            store.spec_anchor_links(
                all_players_anchor(),
                LinkTypes::AllPlayersAnchorToAgentPubKey,
            ),
        ),
{
    let links = store.links_from_anchor(
        "all_players",
        LinkTypes::AllPlayersAnchorToAgentPubKey,
    );
    let ghost ls = links@;
    let mut out: Vec<AgentKey> = Vec::new();
    let mut i: usize = 0;
    while i < links.len()
        invariant
            i <= ls.len(),
            links@ == ls,
            out@ == spec_agent_targets(ls.take(i as int)),
        decreases ls.len() - i,
    {
        proof {
            assert(ls.take(i + 1).drop_last() =~= ls.take(i as int));
            assert(ls.take(i + 1).last() == ls[i as int]);
        }
        let l = links[i];
        if let LinkTarget::Agent(a) = l.target {
            out.push(a);
        }
        i += 1;
    }
    proof {
        assert(ls.take(ls.len() as int) =~= ls);
    }
    out
}

/// Look a player up by name in the registry: the first name link's target
/// is the profile's original record. Names differing only in ASCII letter
/// case count as the same name.
pub fn get_player_by_name(store: &Store, player_name: &str) -> (r: Option<Record>)
    requires
        store.wf(),
    ensures
        ({
            let ls = spec_name_links(*store, player_name@);
            if ls.len() == 0 {
                r is None
            } else {
                match ls[0].target {
                    LinkTarget::Record(t) => r == spec_resolve_original(*store, t as int),
                    LinkTarget::Agent(_) => r is None,
                }
            }
        }),
{
    let links = store.links_from_anchor(player_name, LinkTypes::PlayerNameToPlayer);
    if links.len() == 0 {
        return None;
    }
    let first = links[0];
    match first.target {
        LinkTarget::Record(t) => get_original_player(store, t),
        LinkTarget::Agent(_) => None,
    }
}

} // verus!
