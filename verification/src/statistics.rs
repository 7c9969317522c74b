//! Statistics and aggregation read paths: per-game client-measured metrics,
//! and the leaderboard built from every player's recorded scores.

use vstd::prelude::*;

use crate::entity::{live_target_records, records_at_links, spec_resolve_latest};
use crate::game::{get_game_hash_by_id, get_latest_game, spec_game_registered};
use crate::player::{get_all_player_pubkeys, all_players_anchor, spec_agent_targets};
use crate::score::get_scores_for_player;
use crate::store::Store;
use crate::types::{AgentKey, EntryTypes, Game, GameStatus, LeaderboardEntry, Link, LinkBase,
    LinkTarget, LinkTypes, Record, RecordHash, Statistics};
use crate::Error;
use vstd::pervasive::unreached;
use vstd::seq_lib::group_to_multiset_ensures;

verus! {

broadcast use group_to_multiset_ensures;

/// The decision for recording statistics, in rule order: the game must be
/// registered and resolve to a game whose latest status is Finished, and
/// only a participant may record them.
pub open spec fn spec_create_statistics_check(
    s: Store,
    caller: AgentKey,
    statistics: Statistics,
) -> Result<(), Error> {
    if !spec_game_registered(s, statistics.game_id) {
        Result::Err(Error::NotFound)
    } else {
        match spec_resolve_latest(s, statistics.game_id as int, LinkTypes::GameUpdates) {
            Result::Err(e) => Result::Err(e),
            Result::Ok(Option::None) => Result::Err(Error::NotFound),
            Result::Ok(Option::Some(rec)) => match rec.entry {
                EntryTypes::Game(g) => if !(g.game_status is Finished) {
                    Result::Err(Error::InvalidState)
                } else if caller != g.player_1 && g.player_2 != Option::Some(caller) {
                    Result::Err(Error::Unauthorized)
                } else {
                    Result::Ok(())
                },
                _ => Result::Err(Error::MalformedData),
            },
        }
    }
}

/// Record statistics for a finished game: the embedded time is stamped
/// with the commit time, the record committed and indexed from the game.
pub fn create_statistics(store: &mut Store, caller: AgentKey, now: i64, statistics: Statistics) -> (r:
    Result<Record, Error>)
    requires
        old(store).wf(),
    ensures
        final(store).wf(),
        match r {
            Result::Ok(rec) => {
                let h = old(store).recs().len();
                let stamped = Statistics { timestamp: now, ..statistics };
                let game_link = Link {
                    create_hash: old(store).lnks().len() as usize,
                    author: caller,
                    base: LinkBase::Record(statistics.game_id),
                    target: LinkTarget::Record(h as usize),
                    link_type: LinkTypes::GameToStatistics,
                    timestamp: now,
                };
                &&& spec_create_statistics_check(*old(store), caller, statistics) is Ok
                &&& rec == Record {
                    hash: h as usize,
                    author: caller,
                    timestamp: now,
                    prev: Option::None,
                    entry: EntryTypes::Statistics(stamped),
                }
                &&& final(store).recs() == old(store).recs().push(rec)
                &&& final(store).rec_live(h as int)
                &&& final(store).anchor_views() == old(store).anchor_views()
                &&& forall|b: LinkBase, t: LinkTypes|
                    #[trigger] final(store).spec_get_links(b, t) == if b == LinkBase::Record(
                        statistics.game_id,
                    ) && t == LinkTypes::GameToStatistics {
                        old(store).spec_get_links(b, t).push(game_link)
                    } else {
                        old(store).spec_get_links(b, t)
                    }
            },
            Result::Err(e) => {
                &&& spec_create_statistics_check(*old(store), caller, statistics) == Result::<
                    (),
                    Error,
                >::Err(e)
                &&& *final(store) == *old(store)
            },
        },
{
    let game_hash = match get_game_hash_by_id(store, statistics.game_id) {
        Option::Some(h) => h,
        Option::None => {
            return Err(Error::NotFound);
        },
    };
    let game: Game = match get_latest_game(store, game_hash) {
        Result::Err(e) => {
            return Err(e);
        },
        Result::Ok(Option::None) => {
            return Err(Error::NotFound);
        },
        Result::Ok(Option::Some(rec)) => match &rec.entry {
            EntryTypes::Game(g) => *g,
            _ => {
                return Err(Error::MalformedData);
            },
        },
    };
    if !(matches!(game.game_status, GameStatus::Finished)) {
        return Err(Error::InvalidState);
    }
    let is_p2 = match game.player_2 {
        Option::Some(p) => p == caller,
        Option::None => false,
    };
    if !(caller == game.player_1) && !is_p2 {
        return Err(Error::Unauthorized);
    }
    proof {
        let ls = old(store).spec_anchor_links(
            crate::game::games_anchor(),
            LinkTypes::GameIdToGame,
        );
        let j = choose|j: int|
            0 <= j < ls.len() && #[trigger] ls[j].target == LinkTarget::Record(
                statistics.game_id,
            );
        match old(store).spec_anchor_id(crate::game::games_anchor()) {
            Option::Some(a) => {
                old(store).lemma_get_links_wf(
                    LinkBase::Anchor(a as usize),
                    LinkTypes::GameIdToGame,
                    j,
                );
            },
            Option::None => {},
        }
    }
    let stamped = Statistics {
        game_id: statistics.game_id,
        timestamp: now,
        signal_latency: statistics.signal_latency,
        score_validation_time: statistics.score_validation_time,
        dht_response_time: statistics.dht_response_time,
        network_delay: statistics.network_delay,
    };
    let h = match store.create_entry(caller, now, EntryTypes::Statistics(stamped)) {
        Result::Ok(h) => h,
        Result::Err(_) => unreached(),
    };
    let l = store.create_link(
        caller,
        LinkBase::Record(statistics.game_id),
        LinkTarget::Record(h),
        LinkTypes::GameToStatistics,
        now,
    );
    if l.is_err() {
        return unreached();
    }
    match store.get(h) {
        Option::Some(rec) => Ok(rec.clone()),
        Option::None => unreached(),
    }
}

/// All statistics records indexed under a game. The game itself must be
/// registered.
pub fn get_statistics_for_game(store: &Store, game_id: RecordHash) -> (r: Result<
    Vec<Record>,
    Error,
>)
    requires
        store.wf(),
    ensures
        if spec_game_registered(*store, game_id) {
            r matches Result::Ok(v) && v@ == live_target_records(
                *store,
                store.spec_get_links(LinkBase::Record(game_id), LinkTypes::GameToStatistics),
            )
        } else {
            r == Result::<Vec<Record>, Error>::Err(Error::NotFound)
        },
{
    if get_game_hash_by_id(store, game_id).is_none() {
        return Err(Error::NotFound);
    }
    let links = store.get_links(LinkBase::Record(game_id), LinkTypes::GameToStatistics);
    Ok(records_at_links(store, &links))
}

/// The sum of the points in the score records, skipping records that do
/// not carry a score.
pub open spec fn spec_total_points(recs: Seq<Record>) -> int
    decreases recs.len(),
{
    if recs.len() == 0 {
        0
    } else {
        spec_total_points(recs.drop_last()) + match recs.last().entry {
            EntryTypes::Score(sc) => sc.player_points as int,
            _ => 0,
        }
    }
}

/// The number of score records.
pub open spec fn spec_games_played(recs: Seq<Record>) -> int
    decreases recs.len(),
{
    if recs.len() == 0 {
        0
    } else {
        spec_games_played(recs.drop_last()) + match recs.last().entry {
            EntryTypes::Score(_) => 1int,
            _ => 0,
        }
    }
}

/// Aggregates over score records never go negative.
pub proof fn lemma_aggregates_nonneg(recs: Seq<Record>)
    ensures
        spec_total_points(recs) >= 0,
        spec_games_played(recs) >= 0,
    decreases recs.len(),
{
    if recs.len() > 0 {
        lemma_aggregates_nonneg(recs.drop_last());
    }
}

/// Clamping of an aggregate to the field width, as saturating arithmetic
/// produces it.
pub open spec fn clamp_u32(x: int) -> u32
    recommends
        x >= 0,
{
    if x > u32::MAX {
        u32::MAX
    } else {
        x as u32
    }
}

/// The leaderboard row for one player: their recorded points and game
/// count, aggregated over the scores indexed under their identity.
pub open spec fn spec_leaderboard_row(s: Store, key: AgentKey) -> LeaderboardEntry {
    let scores = live_target_records(
        s,
        s.spec_get_links(LinkBase::Agent(key), LinkTypes::PlayerToScores),
    );
    LeaderboardEntry {
        player_key: key,
        total_points: clamp_u32(spec_total_points(scores)),
        games_played: clamp_u32(spec_games_played(scores)),
    }
}

/// The leaderboard rows for a roster of players, in roster order.
pub open spec fn spec_leaderboard_rows(s: Store, keys: Seq<AgentKey>) -> Seq<LeaderboardEntry>
    decreases keys.len(),
{
    if keys.len() == 0 {
        Seq::empty()
    } else {
        spec_leaderboard_rows(s, keys.drop_last()).push(spec_leaderboard_row(s, keys.last()))
    }
}

/// Leaderboard display order: more points first, then fewer games played,
/// then the smaller player identity — a total order.
pub open spec fn lb_precedes(a: LeaderboardEntry, b: LeaderboardEntry) -> bool {
    ||| a.total_points > b.total_points
    ||| (a.total_points == b.total_points && a.games_played < b.games_played)
    ||| (a.total_points == b.total_points && a.games_played == b.games_played && a.player_key.0
        <= b.player_key.0)
}

/// Whether rows appear in leaderboard display order.
pub open spec fn lb_sorted(es: Seq<LeaderboardEntry>) -> bool {
    forall|i: int, j: int| 0 <= i <= j < es.len() ==> lb_precedes(#[trigger] es[i], #[trigger] es[j])
}

fn lb_precedes_exec(a: &LeaderboardEntry, b: &LeaderboardEntry) -> (r: bool)
    ensures
        r == lb_precedes(*a, *b),
{
    a.total_points > b.total_points || (a.total_points == b.total_points && (a.games_played
        < b.games_played || (a.games_played == b.games_played && a.player_key.0
        <= b.player_key.0)))
}

fn sort_leaderboard(input: Vec<LeaderboardEntry>) -> (r: Vec<LeaderboardEntry>)
    ensures
        lb_sorted(r@),
        r@.to_multiset() == input@.to_multiset(),
{
    let ghost orig = input@;
    let mut v = input;
    let mut out: Vec<LeaderboardEntry> = Vec::new();
    while v.len() > 0
        invariant
            out@.to_multiset().add(v@.to_multiset()) == orig.to_multiset(),
            lb_sorted(out@),
            forall|i: int, j: int|
                0 <= i < out@.len() && 0 <= j < v@.len() ==> lb_precedes(
                    #[trigger] out@[i],
                    #[trigger] v@[j],
                ),
        decreases v@.len(),
    {
        let mut best: usize = 0;
        let mut i: usize = 1;
        while i < v.len()
            invariant
                v@.len() > 0,
                best < i,
                i <= v@.len(),
                forall|k: int| 0 <= k < i ==> lb_precedes(v@[best as int], #[trigger] v@[k]),
            decreases v@.len() - i,
        {
            if !lb_precedes_exec(&v[best], &v[i]) {
                best = i;
            }
            i += 1;
        }
        let ghost pre_v = v@;
        let ghost pre_out = out@;
        let x = v.remove(best);
        proof {
            assert(pre_v.contains(pre_v[best as int]));
            assert(v@.to_multiset() =~= pre_v.to_multiset().remove(x));
        }
        out.push(x);
        proof {
            assert(out@.to_multiset() =~= pre_out.to_multiset().insert(x));
            assert(out@.to_multiset().add(v@.to_multiset()) =~= orig.to_multiset());
            assert forall|i2: int, j2: int|
                0 <= i2 < out@.len() && 0 <= j2 < v@.len() implies lb_precedes(
                #[trigger] out@[i2],
                #[trigger] v@[j2],
            ) by {
                assert(v@[j2] == if j2 < best {
                    pre_v[j2]
                } else {
                    pre_v[j2 + 1]
                });
                if i2 < pre_out.len() {
                    assert(out@[i2] == pre_out[i2]);
                } else {
                    assert(out@[i2] == x);
                }
            }
        }
    }
    out
}

/// The leaderboard: one row per listed player, aggregated from their score
/// records and arranged in display order.
pub fn get_leaderboard_data(store: &Store) -> (r: Vec<LeaderboardEntry>)
    requires
        store.wf(),
    ensures
        lb_sorted(r@),
        r@.to_multiset() == spec_leaderboard_rows(
            *store,
            spec_agent_targets(
                store.spec_anchor_links(
                    all_players_anchor(),
                    LinkTypes::AllPlayersAnchorToAgentPubKey,
                ),
            ),
        ).to_multiset(),
{
    let keys = get_all_player_pubkeys(store);
    let ghost ks = keys@;
    let mut rows: Vec<LeaderboardEntry> = Vec::new();
    let mut k: usize = 0;
    while k < keys.len()
        invariant
            k <= ks.len(),
            keys@ == ks,
            rows@ == spec_leaderboard_rows(*store, ks.take(k as int)),
        decreases ks.len() - k,
    {
        proof {
            assert(ks.take(k + 1).drop_last() =~= ks.take(k as int));
            assert(ks.take(k + 1).last() == ks[k as int]);
        }
        let key = keys[k];
        let score_records = get_scores_for_player(store, key);
        let ghost srs = score_records@;
        let mut total_points: u32 = 0;
        let mut games_played: u32 = 0;
        let mut i: usize = 0;
        while i < score_records.len()
            invariant
                i <= srs.len(),
                score_records@ == srs,
                total_points == clamp_u32(spec_total_points(srs.take(i as int))),
                games_played == clamp_u32(spec_games_played(srs.take(i as int))),
            decreases srs.len() - i,
        {
            proof {
                assert(srs.take(i + 1).drop_last() =~= srs.take(i as int));
                assert(srs.take(i + 1).last() == srs[i as int]);
                lemma_aggregates_nonneg(srs.take(i as int));
                lemma_aggregates_nonneg(srs.take(i + 1));
            }
            let rec = &score_records[i];
            if let EntryTypes::Score(sc) = &rec.entry {
                total_points = total_points.saturating_add(sc.player_points);
                games_played = games_played.saturating_add(1);
            }
            i += 1;
        }
        proof {
            assert(srs.take(srs.len() as int) =~= srs);
        }
        rows.push(LeaderboardEntry { player_key: key, total_points, games_played });
        k += 1;
    }
    proof {
        assert(ks.take(ks.len() as int) =~= ks);
    }
    sort_leaderboard(rows)
}

} // verus!
