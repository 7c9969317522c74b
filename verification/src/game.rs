//! Games: discovery through the global games anchor, revision queries, the
//! lobby status check, and the create / join / update / delete commands.

use vstd::prelude::*;

use crate::entity::{all_targets_records, deletes_for, live_target_records, oldest_delete_for,
    pick_oldest, records_at_links, resolve_all_revisions, resolve_latest, resolve_original,
    spec_resolve_latest, spec_resolve_original};
use crate::player::{player_exists, player_has_profile};
use crate::validation::spec_validate_update_entry;
use crate::store::{anchor_bytes, Store};
use crate::types::{AgentKey, CreateGameInput, DeleteInfo, EntryTypes, Game, GameStatus, Link,
    LinkBase, LinkTarget, LinkTypes, PlayerStatus, Record, RecordHash, Signal, SignalSend,
    UpdateGameInput};
use crate::Error;
use vstd::pervasive::unreached;

verus! {

/// The name of the global games discovery anchor.
pub open spec fn games_anchor() -> Seq<u8> {
    anchor_bytes("games"@)
}

/// Resolve the current state of a game.
pub fn get_latest_game(store: &Store, original_game_hash: RecordHash) -> (r: Result<
    Option<Record>,
    Error,
>)
    ensures
        r == spec_resolve_latest(*store, original_game_hash as int, LinkTypes::GameUpdates),
{
    resolve_latest(store, original_game_hash, LinkTypes::GameUpdates)
}

/// Fetch a game's creation record, whatever its update count.
pub fn get_original_game(store: &Store, original_game_hash: RecordHash) -> (r: Option<Record>)
    ensures
        r == spec_resolve_original(*store, original_game_hash as int),
{
    resolve_original(store, original_game_hash)
}

/// Fetch a game's full history: original first, then updates in link order.
pub fn get_all_revisions_for_game(store: &Store, original_game_hash: RecordHash) -> (r: Result<
    Vec<Record>,
    Error,
>)
    ensures
        ({
            let ls = store.spec_get_links(
                LinkBase::Record(original_game_hash),
                LinkTypes::GameUpdates,
            );
            if original_game_hash >= store.recs().len() {
                r matches Result::Ok(v) && v@ == Seq::<Record>::empty()
            } else if !all_targets_records(ls) {
                r == Result::<Vec<Record>, Error>::Err(Error::MalformedData)
            } else {
                r matches Result::Ok(v) && v@ == seq![store.recs()[original_game_hash as int]]
                    + live_target_records(*store, ls)
            }
        }),
{
    resolve_all_revisions(store, original_game_hash, LinkTypes::GameUpdates)
}

/// All delete actions registered against a game.
pub fn get_all_deletes_for_game(store: &Store, original_game_hash: RecordHash) -> (r: Option<
    Vec<DeleteInfo>,
>)
    ensures
        match r {
            Option::Some(ds) => original_game_hash < store.records@.len() && ds@
                == store.records@[original_game_hash as int].deletes@,
            Option::None => original_game_hash >= store.records@.len(),
        },
{
    deletes_for(store, original_game_hash)
}

/// The oldest delete registered against a game.
pub fn get_oldest_delete_for_game(store: &Store, original_game_hash: RecordHash) -> (r: Option<
    DeleteInfo,
>)
    ensures
        if original_game_hash < store.records@.len() {
            r == pick_oldest(store.records@[original_game_hash as int].deletes@)
        } else {
            r is None
        },
{
    oldest_delete_for(store, original_game_hash)
}

/// The game links hanging from an agent's identity as player 1.
pub fn get_games_for_player_1(store: &Store, player_1: AgentKey) -> (r: Vec<Link>)
    ensures
        r@ == store.spec_get_links(LinkBase::Agent(player_1), LinkTypes::Player1ToGames),
{
    store.get_links(LinkBase::Agent(player_1), LinkTypes::Player1ToGames)
}

/// The deleted game links hanging from an agent's identity as player 1.
pub fn get_deleted_games_for_player_1(store: &Store, player_1: AgentKey) -> (r: Vec<Link>)
    ensures
        r@ == crate::store::deleted_links_matching(
            store.links@,
            LinkBase::Agent(player_1),
            LinkTypes::Player1ToGames,
        ),
{
    store.get_deleted_links(LinkBase::Agent(player_1), LinkTypes::Player1ToGames)
}

/// The game links hanging from an agent's identity as player 2.
pub fn get_games_for_player_2(store: &Store, player_2: AgentKey) -> (r: Vec<Link>)
    ensures
        r@ == store.spec_get_links(LinkBase::Agent(player_2), LinkTypes::Player2ToGames),
{
    store.get_links(LinkBase::Agent(player_2), LinkTypes::Player2ToGames)
}

/// The deleted game links hanging from an agent's identity as player 2.
pub fn get_deleted_games_for_player_2(store: &Store, player_2: AgentKey) -> (r: Vec<Link>)
    ensures
        r@ == crate::store::deleted_links_matching(
            store.links@,
            LinkBase::Agent(player_2),
            LinkTypes::Player2ToGames,
        ),
{
    store.get_deleted_links(LinkBase::Agent(player_2), LinkTypes::Player2ToGames)
}

/// Every game discoverable through the global games anchor, as live
/// records.
pub fn get_all_games(store: &Store) -> (r: Vec<Record>)
    requires
        store.wf(),
    ensures
        r@ == live_target_records(
            *store,
            store.spec_anchor_links(games_anchor(), LinkTypes::GameIdToGame),
        ),
{
    let links = store.links_from_anchor("games", LinkTypes::GameIdToGame);
    records_at_links(store, &links)
}

/// Whether some link in the sequence targets the record `h`.
pub open spec fn targets_contain(ls: Seq<Link>, h: RecordHash) -> bool {
    exists|j: int| 0 <= j < ls.len() && #[trigger] ls[j].target == LinkTarget::Record(h)
}

/// Whether a game identifier is registered under the global games anchor.
pub open spec fn spec_game_registered(s: Store, h: RecordHash) -> bool {
    targets_contain(s.spec_anchor_links(games_anchor(), LinkTypes::GameIdToGame), h)
}

/// Confirm that a game identifier is registered under the games anchor.
pub fn get_game_hash_by_id(store: &Store, game_id: RecordHash) -> (r: Option<RecordHash>)
    requires
        store.wf(),
    ensures
        r == if spec_game_registered(*store, game_id) {
            Option::Some(game_id)
        } else {
            Option::<RecordHash>::None
        },
{
    let links = store.links_from_anchor("games", LinkTypes::GameIdToGame);
    let ghost ls = links@;
    let mut i: usize = 0;
    while i < links.len()
        invariant
            i <= ls.len(),
            links@ == ls,
            ls == store.spec_anchor_links(games_anchor(), LinkTypes::GameIdToGame),
            forall|j: int| 0 <= j < i ==> #[trigger] ls[j].target != LinkTarget::Record(game_id),
        decreases ls.len() - i,
    {
        let l = links[i];
        match l.target {
            LinkTarget::Record(t) => {
                if t == game_id {
                    proof {
                        assert(ls[i as int].target == LinkTarget::Record(game_id));
                    }
                    return Some(game_id);
                }
            },
            LinkTarget::Agent(_) => {},
        }
        i += 1;
    }
    None
}

/// Whether one game link leads to a game that is currently in progress.
pub open spec fn spec_check_link_in_progress(s: Store, l: Link) -> Result<bool, Error> {
    match l.target {
        LinkTarget::Record(h) => match spec_resolve_latest(s, h as int, LinkTypes::GameUpdates) {
            Result::Err(e) => Result::Err(e),
            Result::Ok(Option::None) => Result::Ok(false),
            Result::Ok(Option::Some(rec)) => Result::Ok(
                rec.entry matches EntryTypes::Game(g) && g.game_status is InProgress,
            ),
        },
        LinkTarget::Agent(_) => Result::Ok(false),
    }
}

/// Scan game links in order for one whose game is in progress; resolution
/// errors surface to the caller.
pub open spec fn spec_scan_in_progress(s: Store, ls: Seq<Link>) -> Result<bool, Error>
    decreases ls.len(),
{
    if ls.len() == 0 {
        Result::Ok(false)
    } else {
        match spec_check_link_in_progress(s, ls.first()) {
            Result::Err(e) => Result::Err(e),
            Result::Ok(true) => Result::Ok(true),
            Result::Ok(false) => spec_scan_in_progress(s, ls.drop_first()),
        }
    }
}

/// Whether an agent currently participates in a game whose latest resolved
/// status is InProgress, in either seat.
pub open spec fn spec_in_ongoing(s: Store, agent: AgentKey) -> Result<bool, Error> {
    match spec_scan_in_progress(
        s,
        s.spec_get_links(LinkBase::Agent(agent), LinkTypes::Player1ToGames),
    ) {
        Result::Err(e) => Result::Err(e),
        Result::Ok(true) => Result::Ok(true),
        Result::Ok(false) => spec_scan_in_progress(
            s,
            s.spec_get_links(LinkBase::Agent(agent), LinkTypes::Player2ToGames),
        ),
    }
}

fn scan_links_in_progress(store: &Store, links: &Vec<Link>) -> (r: Result<bool, Error>)
    ensures
        r == spec_scan_in_progress(*store, links@),
{
    let ghost ls = links@;
    proof {
        assert(ls.skip(0) =~= ls);
    }
    let mut i: usize = 0;
    while i < links.len()
        invariant
            i <= ls.len(),
            links@ == ls,
            spec_scan_in_progress(*store, ls) == spec_scan_in_progress(*store, ls.skip(i as int)),
        decreases ls.len() - i,
    {
        proof {
            assert(ls.skip(i as int).first() == ls[i as int]);
            assert(ls.skip(i as int).drop_first() =~= ls.skip(i + 1));
        }
        let l = links[i];
        match l.target {
            LinkTarget::Record(h) => {
                match resolve_latest(store, h, LinkTypes::GameUpdates) {
                    Result::Err(e) => {
                        return Err(e);
                    },
                    Result::Ok(Option::None) => {},
                    Result::Ok(Option::Some(rec)) => {
                        match rec.entry {
                            EntryTypes::Game(g) => {
                                if matches!(g.game_status, GameStatus::InProgress) {
                                    return Ok(true);
                                }
                            },
                            _ => {},
                        }
                    },
                }
            },
            LinkTarget::Agent(_) => {},
        }
        i += 1;
    }
    proof {
        assert(ls.skip(ls.len() as int) =~= Seq::<Link>::empty());
    }
    Ok(false)
}

/// Whether a player is already involved in an InProgress game, in either
/// seat, resolving each of their games to its latest state.
pub fn is_player_in_ongoing_game(store: &Store, player_pub_key: AgentKey) -> (r: Result<
    bool,
    Error,
>)
    ensures
        r == spec_in_ongoing(*store, player_pub_key),
{
    let links1 = store.get_links(LinkBase::Agent(player_pub_key), LinkTypes::Player1ToGames);
    match scan_links_in_progress(store, &links1) {
        Result::Err(e) => Err(e),
        Result::Ok(true) => Ok(true),
        Result::Ok(false) => {
            let links2 = store.get_links(
                LinkBase::Agent(player_pub_key),
                LinkTypes::Player2ToGames,
            );
            scan_links_in_progress(store, &links2)
        },
    }
}

/// The game state a new game starts in: both paddles centred, the ball in
/// the middle of the field, status Waiting, created now.
pub open spec fn spec_new_game(input: CreateGameInput, now: i64) -> Game {
    Game {
        player_1: input.player_1,
        player_2: input.player_2,
        game_status: GameStatus::Waiting,
        created_at: now,
        player_1_paddle: 250,
        player_2_paddle: 250,
        ball_x: 400,
        ball_y: 300,
    }
}

/// The decision for creating a game, in rule order: the caller must be
/// player 1 (a named player 2 may not complete creation, since the
/// player-1 index link must be authored by player 1); player 1 must be
/// registered and free; a named player 2 must be registered, distinct and
/// free.
pub open spec fn spec_create_game_check(s: Store, caller: AgentKey, input: CreateGameInput) -> Result<
    (),
    Error,
> {
    if input.player_1 != caller && input.player_2 != Option::Some(caller) {
        Result::Err(Error::Unauthorized)
    } else if input.player_1 != caller {
        Result::Err(Error::Unauthorized)
    } else if !player_has_profile(s, input.player_1) {
        Result::Err(Error::NotFound)
    } else {
        match spec_in_ongoing(s, input.player_1) {
            Result::Err(e) => Result::Err(e),
            Result::Ok(true) => Result::Err(Error::Conflict),
            Result::Ok(false) => match input.player_2 {
                Option::None => Result::Ok(()),
                Option::Some(p2) => if !player_has_profile(s, p2) {
                    Result::Err(Error::NotFound)
                } else if input.player_1 == p2 {
                    Result::Err(Error::Conflict)
                } else {
                    match spec_in_ongoing(s, p2) {
                        Result::Err(e) => Result::Err(e),
                        Result::Ok(true) => Result::Err(Error::Conflict),
                        Result::Ok(false) => Result::Ok(()),
                    }
                },
            },
        }
    }
}

/// Create a game: commit the creation record, index it from both seats and
/// register it under the global games anchor.
pub fn create_game(store: &mut Store, caller: AgentKey, now: i64, input: CreateGameInput) -> (r:
    Result<Record, Error>)
    requires
        old(store).wf(),
    ensures
        final(store).wf(),
        match r {
            Result::Ok(rec) => {
                let h = old(store).recs().len();
                &&& spec_create_game_check(*old(store), caller, input) is Ok
                &&& rec == Record {
                    hash: h as usize,
                    author: caller,
                    timestamp: now,
                    prev: Option::None,
                    entry: EntryTypes::Game(spec_new_game(input, now)),
                }
                &&& final(store).recs() == old(store).recs().push(rec)
                &&& final(store).rec_live(h as int)
                &&& final(store).spec_get_links(
                    LinkBase::Agent(input.player_1),
                    LinkTypes::Player1ToGames,
                ).len() == old(store).spec_get_links(
                    LinkBase::Agent(input.player_1),
                    LinkTypes::Player1ToGames,
                ).len() + 1
                &&& final(store).spec_anchor_links(games_anchor(), LinkTypes::GameIdToGame)
                    == old(store).spec_anchor_links(games_anchor(), LinkTypes::GameIdToGame).push(
                    final(store).lnks().last(),
                )
                &&& final(store).lnks().last().target == LinkTarget::Record(h as usize)
                &&& spec_game_registered(*final(store), h as usize)
                &&& forall|hh: RecordHash, t: LinkTypes|
                    #[trigger] final(store).spec_get_links(LinkBase::Record(hh), t) == old(
                        store,
                    ).spec_get_links(LinkBase::Record(hh), t)
                &&& spec_resolve_latest(*final(store), h as int, LinkTypes::GameUpdates)
                    == Result::<Option<Record>, Error>::Ok(Option::Some(rec))
            },
            Result::Err(e) => {
                &&& spec_create_game_check(*old(store), caller, input) == Result::<
                    (),
                    Error,
                >::Err(e)
                &&& *final(store) == *old(store)
            },
        },
{
    if !(input.player_1 == caller) {
        return Err(Error::Unauthorized);
    }
    if !player_exists(store, input.player_1) {
        return Err(Error::NotFound);
    }
    match is_player_in_ongoing_game(store, input.player_1) {
        Result::Err(e) => {
            return Err(e);
        },
        Result::Ok(true) => {
            return Err(Error::Conflict);
        },
        Result::Ok(false) => {},
    }
    if let Option::Some(p2) = input.player_2 {
        if !player_exists(store, p2) {
            return Err(Error::NotFound);
        }
        if input.player_1 == p2 {
            return Err(Error::Conflict);
        }
        match is_player_in_ongoing_game(store, p2) {
            Result::Err(e) => {
                return Err(e);
            },
            Result::Ok(true) => {
                return Err(Error::Conflict);
            },
            Result::Ok(false) => {},
        }
    }
    let games_aid = store.anchor_for("games");
    let game = Game {
        player_1: input.player_1,
        player_2: input.player_2,
        game_status: GameStatus::Waiting,
        created_at: now,
        player_1_paddle: 250,
        player_2_paddle: 250,
        ball_x: 400,
        ball_y: 300,
    };
    let h = match store.create_entry(caller, now, EntryTypes::Game(game)) {
        Result::Ok(h) => h,
        Result::Err(_) => unreached(),
    };
    let l1 = store.create_link(
        caller,
        LinkBase::Agent(input.player_1),
        LinkTarget::Record(h),
        LinkTypes::Player1ToGames,
        now,
    );
    if l1.is_err() {
        return unreached();
    }
    if let Option::Some(p2) = input.player_2 {
        let l2 = store.create_link(
            caller,
            LinkBase::Agent(p2),
            LinkTarget::Record(h),
            LinkTypes::Player2ToGames,
            now,
        );
        if l2.is_err() {
            return unreached();
        }
    }
    let l3 = store.create_link(
        caller,
        LinkBase::Anchor(games_aid),
        LinkTarget::Record(h),
        LinkTypes::GameIdToGame,
        now,
    );
    if l3.is_err() {
        return unreached();
    }
    proof {
        let s = *store;
        let bytes = games_anchor();
        assert(s.anchor_views()[games_aid as int] == bytes);
        let j = choose|i: int| 0 <= i < s.anchor_views().len() && s.anchor_views()[i] == bytes;
        if j != games_aid {
            assert(s.anchor_views()[j] == s.anchor_views()[games_aid as int]);
        }
        assert(s.spec_anchor_id(bytes) == Option::Some(games_aid as int));
        let oldj = choose|i: int|
            0 <= i < old(store).anchor_views().len() && old(store).anchor_views()[i] == bytes;
        if old(store).spec_anchor_id(bytes) is Some {
            assert(old(store).anchor_views()[oldj] == bytes);
            if oldj != games_aid {
                assert(s.anchor_views()[oldj] == s.anchor_views()[games_aid as int]);
            }
        } else {
            assert(games_aid >= old(store).anchor_views().len());
            old(store).lemma_fresh_base_no_links(
                LinkBase::Anchor(games_aid),
                LinkTypes::GameIdToGame,
            );
        }
        assert(s.spec_get_links(LinkBase::Anchor(games_aid), LinkTypes::GameIdToGame)
            == old(store).spec_get_links(LinkBase::Anchor(games_aid), LinkTypes::GameIdToGame).push(
            s.lnks().last(),
        ));
        assert(s.spec_get_links(LinkBase::Record(h), LinkTypes::GameUpdates).len() == 0) by {
            if old(store).spec_get_links(LinkBase::Record(h), LinkTypes::GameUpdates).len() > 0 {
                old(store).lemma_get_links_wf(LinkBase::Record(h), LinkTypes::GameUpdates, 0);
            }
        }
        assert(targets_contain(
            s.spec_anchor_links(games_anchor(), LinkTypes::GameIdToGame),
            h,
        )) by {
            let ls = s.spec_anchor_links(games_anchor(), LinkTypes::GameIdToGame);
            assert(ls[ls.len() - 1].target == LinkTarget::Record(h));
        }
    }
    match store.get(h) {
        Option::Some(rec) => Ok(rec.clone()),
        Option::None => unreached(),
    }
}

/// The decision for joining, in rule order: the game's latest state must
/// resolve and carry a game; it must still be Waiting; the second seat must
/// be empty or already the caller's; the host cannot take the second seat;
/// the caller must be free (unless re-joining their own seat) and
/// registered. On success the resolved tip record is returned.
pub open spec fn spec_join_game_check(s: Store, caller: AgentKey, orig: RecordHash) -> Result<
    Record,
    Error,
> {
    match spec_resolve_latest(s, orig as int, LinkTypes::GameUpdates) {
        Result::Err(e) => Result::Err(e),
        Result::Ok(Option::None) => Result::Err(Error::NotFound),
        Result::Ok(Option::Some(rec)) => match rec.entry {
            EntryTypes::Game(cur) => if !(cur.game_status is Waiting) {
                Result::Err(Error::InvalidState)
            } else if cur.player_2 is Some && cur.player_2 != Option::Some(caller) {
                Result::Err(Error::Conflict)
            } else if cur.player_1 == caller {
                Result::Err(Error::Conflict)
            } else {
                match spec_in_ongoing(s, caller) {
                    Result::Err(e) => Result::Err(e),
                    Result::Ok(in_game) => if in_game && cur.player_2 != Option::Some(caller) {
                        Result::Err(Error::Conflict)
                    } else if !player_has_profile(s, caller) {
                        Result::Err(Error::NotFound)
                    } else {
                        Result::Ok(rec)
                    },
                }
            },
            _ => Result::Err(Error::MalformedData),
        },
    }
}

/// The state a game takes when `caller` joins: the second seat filled,
/// status InProgress, everything else kept.
pub open spec fn spec_joined_game(cur: Game, caller: AgentKey) -> Game {
    Game {
        player_1: cur.player_1,
        player_2: Option::Some(caller),
        game_status: GameStatus::InProgress,
        created_at: cur.created_at,
        player_1_paddle: cur.player_1_paddle,
        player_2_paddle: cur.player_2_paddle,
        ball_x: cur.ball_x,
        ball_y: cur.ball_y,
    }
}

/// Join a Waiting game: commit the update that fills the second seat and
/// starts play, index the caller's participation and the new revision, and
/// hand back the start notification for the relay to attempt towards the
/// host. A failed notification never undoes the join.
pub fn join_game(store: &mut Store, caller: AgentKey, now: i64, original_game_hash: RecordHash) -> (r:
    Result<(Record, SignalSend), Error>)
    requires
        old(store).wf(),
    ensures
        final(store).wf(),
        match r {
            Result::Ok((rec, send)) => {
                let tip = spec_join_game_check(*old(store), caller, original_game_hash)->Ok_0;
                let cur = tip.entry->Game_0;
                let u = old(store).recs().len();
                let seat_link = Link {
                    create_hash: old(store).lnks().len() as usize,
                    author: caller,
                    base: LinkBase::Agent(caller),
                    target: LinkTarget::Record(original_game_hash),
                    link_type: LinkTypes::Player2ToGames,
                    timestamp: now,
                };
                let update_link = Link {
                    create_hash: (old(store).lnks().len() + 1) as usize,
                    author: caller,
                    base: LinkBase::Record(original_game_hash),
                    target: LinkTarget::Record(u as usize),
                    link_type: LinkTypes::GameUpdates,
                    timestamp: now,
                };
                &&& spec_join_game_check(*old(store), caller, original_game_hash) is Ok
                &&& rec == Record {
                    hash: u as usize,
                    author: caller,
                    timestamp: now,
                    prev: Option::Some(tip.hash),
                    entry: EntryTypes::Game(spec_joined_game(cur, caller)),
                }
                &&& final(store).recs() == old(store).recs().push(rec)
                &&& final(store).rec_live(u as int)
                &&& final(store).anchor_views() == old(store).anchor_views()
                &&& forall|b: LinkBase, t: LinkTypes|
                    #[trigger] final(store).spec_get_links(b, t) == if b == LinkBase::Agent(caller)
                        && t == LinkTypes::Player2ToGames {
                        old(store).spec_get_links(b, t).push(seat_link)
                    } else if b == LinkBase::Record(original_game_hash) && t
                        == LinkTypes::GameUpdates {
                        old(store).spec_get_links(b, t).push(update_link)
                    } else {
                        old(store).spec_get_links(b, t)
                    }
                &&& send.signal == Signal::GameStarted {
                    game_id: original_game_hash,
                    player_1: cur.player_1,
                    player_2: caller,
                }
                &&& send.recipients@ == seq![cur.player_1]
            },
            Result::Err(e) => {
                &&& spec_join_game_check(*old(store), caller, original_game_hash) == Result::<
                    Record,
                    Error,
                >::Err(e)
                &&& *final(store) == *old(store)
            },
        },
{
    let tip = match get_latest_game(store, original_game_hash) {
        Result::Err(e) => {
            return Err(e);
        },
        Result::Ok(Option::None) => {
            return Err(Error::NotFound);
        },
        Result::Ok(Option::Some(rec)) => rec,
    };
    let cur: Game = match &tip.entry {
        EntryTypes::Game(g) => *g,
        _ => {
            return Err(Error::MalformedData);
        },
    };
    if !(matches!(cur.game_status, GameStatus::Waiting)) {
        return Err(Error::InvalidState);
    }
    let seat_is_mine = match cur.player_2 {
        Option::Some(p) => p == caller,
        Option::None => false,
    };
    if cur.player_2.is_some() && !seat_is_mine {
        return Err(Error::Conflict);
    }
    if cur.player_1 == caller {
        return Err(Error::Conflict);
    }
    match is_player_in_ongoing_game(store, caller) {
        Result::Err(e) => {
            return Err(e);
        },
        Result::Ok(true) => {
            if !seat_is_mine {
                return Err(Error::Conflict);
            }
        },
        Result::Ok(false) => {},
    }
    if !player_exists(store, caller) {
        return Err(Error::NotFound);
    }
    proof {
        crate::entity::lemma_resolve_latest_live(
            *store,
            original_game_hash as int,
            LinkTypes::GameUpdates,
        );
    }
    let updated = Game {
        player_1: cur.player_1,
        player_2: Some(caller),
        game_status: GameStatus::InProgress,
        created_at: cur.created_at,
        player_1_paddle: cur.player_1_paddle,
        player_2_paddle: cur.player_2_paddle,
        ball_x: cur.ball_x,
        ball_y: cur.ball_y,
    };
    let u = match store.update_entry(tip.hash, caller, now, EntryTypes::Game(updated)) {
        Result::Ok(u) => u,
        Result::Err(_) => unreached(),
    };
    let l1 = store.create_link(
        caller,
        LinkBase::Agent(caller),
        LinkTarget::Record(original_game_hash),
        LinkTypes::Player2ToGames,
        now,
    );
    if l1.is_err() {
        return unreached();
    }
    let l2 = store.create_link(
        caller,
        LinkBase::Record(original_game_hash),
        LinkTarget::Record(u),
        LinkTypes::GameUpdates,
        now,
    );
    if l2.is_err() {
        return unreached();
    }
    let signal = Signal::GameStarted {
        game_id: original_game_hash,
        player_1: cur.player_1,
        player_2: caller,
    };
    let mut recipients: Vec<AgentKey> = Vec::new();
    recipients.push(cur.player_1);
    proof {
        assert(recipients@ =~= seq![cur.player_1]);
    }
    let send = SignalSend { signal, recipients };
    match store.get(u) {
        Option::Some(rec) => Ok((rec.clone(), send)),
        Option::None => unreached(),
    }
}

/// The decision for updating a game: both the entity and the superseded
/// tip must exist, and the new state must pass the validation engine
/// against the tip.
pub open spec fn spec_update_game_check(s: Store, caller: AgentKey, input: UpdateGameInput) -> Result<
    (),
    Error,
> {
    if input.original_game_hash >= s.recs().len() {
        Result::Err(Error::NotFound)
    } else if input.previous_game_hash >= s.recs().len() {
        Result::Err(Error::NotFound)
    } else {
        spec_validate_update_entry(
            caller,
            EntryTypes::Game(input.updated_game),
            s.recs()[input.previous_game_hash as int].entry,
        )
    }
}

/// Update a game: commit the new revision superseding the given tip, and
/// index it from the game's original record so latest-resolution can find
/// it.
pub fn update_game(store: &mut Store, caller: AgentKey, now: i64, input: UpdateGameInput) -> (r:
    Result<Record, Error>)
    requires
        old(store).wf(),
    ensures
        final(store).wf(),
        match r {
            Result::Ok(rec) => {
                let h = old(store).recs().len();
                let update_link = Link {
                    create_hash: old(store).lnks().len() as usize,
                    author: caller,
                    base: LinkBase::Record(input.original_game_hash),
                    target: LinkTarget::Record(h as usize),
                    link_type: LinkTypes::GameUpdates,
                    timestamp: now,
                };
                &&& spec_update_game_check(*old(store), caller, input) is Ok
                &&& rec == Record {
                    hash: h as usize,
                    author: caller,
                    timestamp: now,
                    prev: Option::Some(input.previous_game_hash),
                    entry: EntryTypes::Game(input.updated_game),
                }
                &&& final(store).recs() == old(store).recs().push(rec)
                &&& final(store).rec_live(h as int)
                &&& final(store).anchor_views() == old(store).anchor_views()
                &&& forall|b: LinkBase, t: LinkTypes|
                    #[trigger] final(store).spec_get_links(b, t) == if b == LinkBase::Record(
                        input.original_game_hash,
                    ) && t == LinkTypes::GameUpdates {
                        old(store).spec_get_links(b, t).push(update_link)
                    } else {
                        old(store).spec_get_links(b, t)
                    }
            },
            Result::Err(e) => {
                &&& spec_update_game_check(*old(store), caller, input) == Result::<
                    (),
                    Error,
                >::Err(e)
                &&& *final(store) == *old(store)
            },
        },
{
    if input.original_game_hash >= store.records.len() {
        return Err(Error::NotFound);
    }
    if input.previous_game_hash >= store.records.len() {
        return Err(Error::NotFound);
    }
    let h = match store.update_entry(
        input.previous_game_hash,
        caller,
        now,
        EntryTypes::Game(input.updated_game),
    ) {
        Result::Ok(h) => h,
        Result::Err(e) => {
            return Err(e);
        },
    };
    let l = store.create_link(
        caller,
        LinkBase::Record(input.original_game_hash),
        LinkTarget::Record(h),
        LinkTypes::GameUpdates,
        now,
    );
    if l.is_err() {
        return unreached();
    }
    match store.get(h) {
        Option::Some(rec) => Ok(rec.clone()),
        Option::None => unreached(),
    }
}

/// Whether a link is one of the three index entries that register a game:
/// the player-1 seat, the player-2 seat, or the global games listing.
pub open spec fn game_index_link(s: Store, l: Link, g: Game, h: RecordHash) -> bool {
    ||| crate::store::link_matches(l, LinkBase::Agent(g.player_1), LinkTypes::Player1ToGames, h)
    ||| (g.player_2 matches Option::Some(p) && crate::store::link_matches(
        l,
        LinkBase::Agent(p),
        LinkTypes::Player2ToGames,
        h,
    ))
    ||| (l.link_type is GameIdToGame && l.target == LinkTarget::Record(h) && (
    l.base matches LinkBase::Anchor(a) && 0 <= a < s.anchor_views().len()
        && s.anchor_views()[a as int] == games_anchor()))
}

/// The decision for deleting a game: the record must exist and carry a
/// game; the entity's latest resolved state must still be Waiting; the
/// delete must pass the validation engine (a participant deleting a
/// Waiting game); and the caller must have authored every index link about
/// to be removed, since only a link's author may remove it.
pub open spec fn spec_delete_game_check(s: Store, caller: AgentKey, h: RecordHash) -> Result<
    (),
    Error,
> {
    if h >= s.recs().len() {
        Result::Err(Error::NotFound)
    } else {
        match s.recs()[h as int].entry {
            EntryTypes::Game(g) => match spec_resolve_latest(s, h as int, LinkTypes::GameUpdates) {
                Result::Err(e) => Result::Err(e),
                Result::Ok(Option::None) => Result::Err(Error::NotFound),
                Result::Ok(Option::Some(rec)) => match rec.entry {
                    EntryTypes::Game(latest) => if !(latest.game_status is Waiting) {
                        Result::Err(Error::InvalidState)
                    } else {
                        match crate::validation::spec_validate_delete_game(caller, g) {
                            Result::Err(e) => Result::Err(e),
                            Result::Ok(_) => if exists|k: int|
                                0 <= k < s.lnks().len() && s.link_live(k)
                                    && #[trigger] game_index_link(s, s.lnks()[k], g, h)
                                    && s.lnks()[k].author != caller {
                                Result::Err(Error::Unauthorized)
                            } else {
                                Result::Ok(())
                            },
                        }
                    },
                    _ => Result::Err(Error::MalformedData),
                },
            },
            _ => Result::Err(Error::MalformedData),
        }
    }
}

fn foreign_matching_link(
    store: &Store,
    caller: AgentKey,
    base: LinkBase,
    link_type: LinkTypes,
    h: RecordHash,
) -> (r: bool)
    requires
        store.wf(),
    ensures
        r == exists|k: int|
            0 <= k < store.lnks().len() && store.link_live(k)
                && #[trigger] crate::store::link_matches(store.lnks()[k], base, link_type, h)
                && store.lnks()[k].author != caller,
{
    let links = store.get_links(base, link_type);
    let ghost ls = links@;
    let mut j: usize = 0;
    let mut found: bool = false;
    while j < links.len()
        invariant
            j <= ls.len(),
            links@ == ls,
            store.wf(),
            ls == store.spec_get_links(base, link_type),
            found ==> exists|k: int|
                0 <= k < store.lnks().len() && store.link_live(k)
                    && #[trigger] crate::store::link_matches(store.lnks()[k], base, link_type, h)
                    && store.lnks()[k].author != caller,
            !found ==> forall|jj: int|
                0 <= jj < j && (#[trigger] ls[jj]).target == LinkTarget::Record(h) ==> ls[jj].author
                    == caller,
        decreases ls.len() - j,
    {
        let l = links[j];
        let hits = match l.target {
            LinkTarget::Record(t) => t == h,
            LinkTarget::Agent(_) => false,
        };
        if hits && !(l.author == caller) {
            proof {
                crate::store::lemma_links_matching_member(store.links@, base, link_type, j as int);
                let kk = choose|kk: int|
                    0 <= kk < store.links@.len() && #[trigger] store.links@[kk].link == l
                        && store.links@[kk].deletes@.len() == 0;
                assert(store.lnks()[kk] == l);
                assert(crate::store::link_matches(store.lnks()[kk], base, link_type, h));
                assert(store.link_live(kk));
            }
            found = true;
        }
        j += 1;
    }
    proof {
        if !found {
            assert forall|k: int|
                0 <= k < store.lnks().len() && store.link_live(k)
                    && #[trigger] crate::store::link_matches(store.lnks()[k], base, link_type, h)
                    implies store.lnks()[k].author == caller by {
                crate::store::lemma_links_matching_complete(store.links@, base, link_type, k);
                let jj = choose|jj: int|
                    0 <= jj < ls.len() && #[trigger] ls[jj] == store.links@[k].link;
            }
        }
    }
    found
}

/// Delete a Waiting game: remove its seat index links and its listing
/// under the games anchor, then register the delete against the record.
pub fn delete_game(store: &mut Store, caller: AgentKey, now: i64, original_game_hash: RecordHash) -> (r:
    Result<(), Error>)
    requires
        old(store).wf(),
    ensures
        final(store).wf(),
        match r {
            Result::Ok(_) => {
                let g = old(store).recs()[original_game_hash as int].entry->Game_0;
                &&& spec_delete_game_check(*old(store), caller, original_game_hash) is Ok
                &&& final(store).recs() == old(store).recs()
                &&& final(store).lnks() == old(store).lnks()
                &&& final(store).anchor_views() == old(store).anchor_views()
                &&& !final(store).rec_live(original_game_hash as int)
                &&& forall|i: int|
                    0 <= i < old(store).records@.len() && i != original_game_hash
                        ==> #[trigger] final(store).records@[i] == old(store).records@[i]
                &&& forall|k: int|
                    0 <= k < old(store).links@.len() && old(store).link_live(k)
                        && #[trigger] game_index_link(
                        *old(store),
                        old(store).lnks()[k],
                        g,
                        original_game_hash,
                    ) ==> !final(store).link_live(k)
            },
            Result::Err(e) => {
                &&& spec_delete_game_check(*old(store), caller, original_game_hash) == Result::<
                    (),
                    Error,
                >::Err(e)
                &&& *final(store) == *old(store)
            },
        },
{
    let h = original_game_hash;
    if h >= store.records.len() {
        return Err(Error::NotFound);
    }
    let g: Game = match store.get_record(h) {
        Option::Some(rec) => match &rec.entry {
            EntryTypes::Game(g) => *g,
            _ => {
                return Err(Error::MalformedData);
            },
        },
        Option::None => {
            return unreached();
        },
    };
    match get_latest_game(store, h) {
        Result::Err(e) => {
            return Err(e);
        },
        Result::Ok(Option::None) => {
            return Err(Error::NotFound);
        },
        Result::Ok(Option::Some(rec)) => {
            match &rec.entry {
                EntryTypes::Game(latest) => {
                    if !(matches!(latest.game_status, GameStatus::Waiting)) {
                        return Err(Error::InvalidState);
                    }
                },
                _ => {
                    return Err(Error::MalformedData);
                },
            }
        },
    }
    if let Result::Err(e) = crate::validation::validate_delete_game(caller, &g) {
        return Err(e);
    }
    // Only the author of a link may remove it, so any game index link that
    // somebody else created blocks the delete up front.
    if foreign_matching_link(store, caller, LinkBase::Agent(g.player_1), LinkTypes::Player1ToGames, h) {
        proof {
            let s = *store;
            let k = choose|k: int|
                0 <= k < s.lnks().len() && s.link_live(k) && #[trigger] crate::store::link_matches(
                    s.lnks()[k],
                    LinkBase::Agent(g.player_1),
                    LinkTypes::Player1ToGames,
                    h,
                ) && s.lnks()[k].author != caller;
            assert(game_index_link(s, s.lnks()[k], g, h));
        }
        return Err(Error::Unauthorized);
    }
    if let Option::Some(p2) = g.player_2 {
        if foreign_matching_link(store, caller, LinkBase::Agent(p2), LinkTypes::Player2ToGames, h) {
            proof {
                let s = *store;
                let k = choose|k: int|
                    0 <= k < s.lnks().len() && s.link_live(k)
                        && #[trigger] crate::store::link_matches(
                        s.lnks()[k],
                        LinkBase::Agent(p2),
                        LinkTypes::Player2ToGames,
                        h,
                    ) && s.lnks()[k].author != caller;
                assert(game_index_link(s, s.lnks()[k], g, h));
            }
            return Err(Error::Unauthorized);
        }
    }
    let games_aid_opt = store.find_anchor("games");
    if let Option::Some(aid) = games_aid_opt {
        if foreign_matching_link(store, caller, LinkBase::Anchor(aid), LinkTypes::GameIdToGame, h) {
            proof {
                let s = *store;
                let k = choose|k: int|
                    0 <= k < s.lnks().len() && s.link_live(k)
                        && #[trigger] crate::store::link_matches(
                        s.lnks()[k],
                        LinkBase::Anchor(aid),
                        LinkTypes::GameIdToGame,
                        h,
                    ) && s.lnks()[k].author != caller;
                assert(game_index_link(s, s.lnks()[k], g, h));
            }
            return Err(Error::Unauthorized);
        }
    }
    proof {
        let s = *store;
        assert forall|k: int|
            0 <= k < s.lnks().len() && s.link_live(k) && #[trigger] game_index_link(
                s,
                s.lnks()[k],
                g,
                h,
            ) implies s.lnks()[k].author == caller by {
            let l = s.lnks()[k];
            if crate::store::link_matches(l, LinkBase::Agent(g.player_1), LinkTypes::Player1ToGames, h) {
            } else if g.player_2 matches Option::Some(p) && crate::store::link_matches(
                l,
                LinkBase::Agent(p),
                LinkTypes::Player2ToGames,
                h,
            ) {
            } else {
                let a = l.base->Anchor_0;
                match games_aid_opt {
                    Option::Some(aid) => {
                        if a != aid {
                            assert(s.anchor_views()[a as int] == s.anchor_views()[aid as int]);
                        }
                        assert(crate::store::link_matches(
                            l,
                            LinkBase::Anchor(aid),
                            LinkTypes::GameIdToGame,
                            h,
                        ));
                    },
                    Option::None => {
                        assert(s.anchor_views()[a as int] != games_anchor());
                    },
                }
            }
        }
    }
    store.delete_links_matching(
        caller,
        now,
        LinkBase::Agent(g.player_1),
        LinkTypes::Player1ToGames,
        h,
    );
    let ghost mid1 = *store;
    if let Option::Some(p2) = g.player_2 {
        proof {
            assert forall|k: int|
                0 <= k < store.lnks().len() && store.link_live(k)
                    && #[trigger] crate::store::link_matches(
                    store.lnks()[k],
                    LinkBase::Agent(p2),
                    LinkTypes::Player2ToGames,
                    h,
                ) implies store.lnks()[k].author == caller by {
                assert(store.links@[k] == old(store).links@[k] || (old(store).link_live(k)
                    && crate::store::link_matches(
                    old(store).lnks()[k],
                    LinkBase::Agent(g.player_1),
                    LinkTypes::Player1ToGames,
                    h,
                )));
                assert(game_index_link(*old(store), old(store).lnks()[k], g, h));
            }
        }
        store.delete_links_matching(caller, now, LinkBase::Agent(p2), LinkTypes::Player2ToGames, h);
    }
    let ghost mid2 = *store;
    if let Option::Some(aid) = games_aid_opt {
        proof {
            assert forall|k: int|
                0 <= k < store.lnks().len() && store.link_live(k)
                    && #[trigger] crate::store::link_matches(
                    store.lnks()[k],
                    LinkBase::Anchor(aid),
                    LinkTypes::GameIdToGame,
                    h,
                ) implies store.lnks()[k].author == caller by {
                assert(mid1.links@[k] == old(store).links@[k] || (old(store).link_live(k)
                    && crate::store::link_matches(
                    old(store).lnks()[k],
                    LinkBase::Agent(g.player_1),
                    LinkTypes::Player1ToGames,
                    h,
                )));
                match g.player_2 {
                    Option::Some(p2) => {
                        assert(store.links@[k] == mid1.links@[k] || (mid1.link_live(k)
                            && crate::store::link_matches(
                            mid1.lnks()[k],
                            LinkBase::Agent(p2),
                            LinkTypes::Player2ToGames,
                            h,
                        )));
                    },
                    Option::None => {
                        assert(store.links@[k] == mid1.links@[k]);
                    },
                }
                assert(game_index_link(*old(store), old(store).lnks()[k], g, h));
            }
        }
        store.delete_links_matching(caller, now, LinkBase::Anchor(aid), LinkTypes::GameIdToGame, h);
    }
    let res = store.delete_entry(h, caller, now);
    proof {
        assert(res is Ok);
        assert forall|k: int|
            0 <= k < old(store).links@.len() && old(store).link_live(k)
                && #[trigger] game_index_link(*old(store), old(store).lnks()[k], g, h)
                implies !store.link_live(k) by {
            let l = old(store).lnks()[k];
            if crate::store::link_matches(l, LinkBase::Agent(g.player_1), LinkTypes::Player1ToGames, h) {
                assert(!mid1.link_live(k));
                assert(mid2.links@[k] == mid1.links@[k] || !mid2.link_live(k));
                assert(store.links@[k] == mid2.links@[k] || !store.link_live(k));
            } else if g.player_2 matches Option::Some(p2) && crate::store::link_matches(
                l,
                LinkBase::Agent(p2),
                LinkTypes::Player2ToGames,
                h,
            ) {
                if mid1.links@[k] == old(store).links@[k] {
                    assert(mid1.link_live(k));
                    assert(!mid2.link_live(k));
                    assert(store.links@[k] == mid2.links@[k] || !store.link_live(k));
                } else {
                    assert(!mid1.link_live(k));
                    assert(mid2.links@[k] == mid1.links@[k] || !mid2.link_live(k));
                    assert(store.links@[k] == mid2.links@[k] || !store.link_live(k));
                }
            } else {
                let a = l.base->Anchor_0;
                if mid2.links@[k] == old(store).links@[k] {
                    assert(mid2.link_live(k));
                    match games_aid_opt {
                        Option::Some(aid) => {
                            if a != aid {
                                assert(mid2.anchor_views()[a as int]
                                    == mid2.anchor_views()[aid as int]);
                            }
                            assert(crate::store::link_matches(
                                mid2.lnks()[k],
                                LinkBase::Anchor(aid),
                                LinkTypes::GameIdToGame,
                                h,
                            ));
                            assert(!store.link_live(k));
                        },
                        Option::None => {
                            assert(store.anchor_views()[a as int] != games_anchor());
                        },
                    }
                } else {
                    assert(!mid2.link_live(k) || (mid1.links@[k] != old(store).links@[k]));
                    assert(!mid1.link_live(k) || mid1.links@[k] == old(store).links@[k]);
                    if mid1.links@[k] != old(store).links@[k] {
                        assert(old(store).link_live(k) && crate::store::link_matches(
                            old(store).lnks()[k],
                            LinkBase::Agent(g.player_1),
                            LinkTypes::Player1ToGames,
                            h,
                        ));
                        assert(false);
                    }
                    if mid2.links@[k] != mid1.links@[k] {
                        assert(mid1.link_live(k));
                        assert(!mid2.link_live(k));
                    }
                    assert(!mid2.link_live(k));
                    assert(store.links@[k] == mid2.links@[k] || !store.link_live(k));
                }
            }
        }
    }
    Ok(())
}

/// A player's lobby status: InGame while they participate in an InProgress
/// game, Available otherwise.
pub fn get_player_status(store: &Store, player_pub_key: AgentKey) -> (r: Result<
    PlayerStatus,
    Error,
>)
    ensures
        match spec_in_ongoing(*store, player_pub_key) {
            Result::Ok(true) => r == Result::<PlayerStatus, Error>::Ok(PlayerStatus::InGame),
            Result::Ok(false) => r == Result::<PlayerStatus, Error>::Ok(PlayerStatus::Available),
            Result::Err(e) => r == Result::<PlayerStatus, Error>::Err(e),
        },
{
    match is_player_in_ongoing_game(store, player_pub_key)? {
        true => Ok(PlayerStatus::InGame),
        false => Ok(PlayerStatus::Available),
    }
}

} // verus!
