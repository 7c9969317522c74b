//! Scores: immutable records of a finished game's outcome for one player.
//! The writer checks the game's latest resolved state before committing,
//! since per-record validation cannot dereference other entities.

use vstd::prelude::*;

use crate::entity::{live_target_records, records_at_links, spec_resolve_latest};
use crate::game::{get_game_hash_by_id, get_latest_game, spec_game_registered};
use crate::store::Store;
use crate::types::{AgentKey, EntryTypes, Game, GameStatus, Link, LinkBase, LinkTarget, LinkTypes,
    Record, RecordHash, Score};
use crate::validation::spec_validate_create_score;
use crate::Error;
use vstd::pervasive::unreached;

verus! {

/// The decision for recording a score, in rule order: the game must be
/// registered under the games anchor and resolve to a game whose latest
/// status is Finished; the scored player must be one of its participants;
/// and the score record itself must pass the validation engine.
pub open spec fn spec_create_score_check(s: Store, caller: AgentKey, now: int, score: Score) -> Result<
    (),
    Error,
> {
    if !spec_game_registered(s, score.game_id) {
        Result::Err(Error::NotFound)
    } else {
        match spec_resolve_latest(s, score.game_id as int, LinkTypes::GameUpdates) {
            Result::Err(e) => Result::Err(e),
            Result::Ok(Option::None) => Result::Err(Error::NotFound),
            Result::Ok(Option::Some(rec)) => match rec.entry {
                EntryTypes::Game(g) => if !(g.game_status is Finished) {
                    Result::Err(Error::InvalidState)
                } else if score.player != g.player_1 && g.player_2 != Option::Some(score.player) {
                    Result::Err(Error::Unauthorized)
                } else {
                    spec_validate_create_score(caller, now, score)
                },
                _ => Result::Err(Error::MalformedData),
            },
        }
    }
}

/// Record a score: commit the score record and index it from the scoring
/// player's identity and from the game's original record.
pub fn create_score(store: &mut Store, caller: AgentKey, now: i64, score_input: Score) -> (r:
    Result<Record, Error>)
    requires
        old(store).wf(),
    ensures
        final(store).wf(),
        match r {
            Result::Ok(rec) => {
                let h = old(store).recs().len();
                let player_link = Link {
                    create_hash: old(store).lnks().len() as usize,
                    author: caller,
                    base: LinkBase::Agent(score_input.player),
                    target: LinkTarget::Record(h as usize),
                    link_type: LinkTypes::PlayerToScores,
                    timestamp: now,
                };
                let game_link = Link {
                    create_hash: (old(store).lnks().len() + 1) as usize,
                    author: caller,
                    base: LinkBase::Record(score_input.game_id),
                    target: LinkTarget::Record(h as usize),
                    link_type: LinkTypes::GameToScores,
                    timestamp: now,
                };
                &&& spec_create_score_check(*old(store), caller, now as int, score_input) is Ok
                &&& rec == Record {
                    hash: h as usize,
                    author: caller,
                    timestamp: now,
                    prev: Option::None,
                    entry: EntryTypes::Score(score_input),
                }
                &&& final(store).recs() == old(store).recs().push(rec)
                &&& final(store).rec_live(h as int)
                &&& final(store).anchor_views() == old(store).anchor_views()
                &&& forall|b: LinkBase, t: LinkTypes|
                    #[trigger] final(store).spec_get_links(b, t) == if b == LinkBase::Agent(
                        score_input.player,
                    ) && t == LinkTypes::PlayerToScores {
                        old(store).spec_get_links(b, t).push(player_link)
                    } else if b == LinkBase::Record(score_input.game_id) && t
                        == LinkTypes::GameToScores {
                        old(store).spec_get_links(b, t).push(game_link)
                    } else {
                        old(store).spec_get_links(b, t)
                    }
            },
            Result::Err(e) => {
                &&& spec_create_score_check(*old(store), caller, now as int, score_input)
                    == Result::<(), Error>::Err(e)
                &&& *final(store) == *old(store)
            },
        },
{
    let game_hash = match get_game_hash_by_id(store, score_input.game_id) {
        Option::Some(h) => h,
        Option::None => {
            return Err(Error::NotFound);
        },
    };
    let game: Game = match get_latest_game(store, game_hash) {
        Result::Err(e) => {
            return Err(e);
        },
        Result::Ok(Option::None) => {
            return Err(Error::NotFound);
        },
        Result::Ok(Option::Some(rec)) => match &rec.entry {
            EntryTypes::Game(g) => *g,
            _ => {
                return Err(Error::MalformedData);
            },
        },
    };
    if !(matches!(game.game_status, GameStatus::Finished)) {
        return Err(Error::InvalidState);
    }
    let is_p2 = match game.player_2 {
        Option::Some(p) => p == score_input.player,
        Option::None => false,
    };
    if !(score_input.player == game.player_1) && !is_p2 {
        return Err(Error::Unauthorized);
    }
    proof {
        // A registered game identifier names a stored record, so the
        // index links below have an existing base.
        let ls = old(store).spec_anchor_links(
            crate::game::games_anchor(),
            LinkTypes::GameIdToGame,
        );
        let j = choose|j: int|
            0 <= j < ls.len() && #[trigger] ls[j].target == LinkTarget::Record(
                score_input.game_id,
            );
        match old(store).spec_anchor_id(crate::game::games_anchor()) {
            Option::Some(a) => {
                old(store).lemma_get_links_wf(
                    LinkBase::Anchor(a as usize),
                    LinkTypes::GameIdToGame,
                    j,
                );
            },
            Option::None => {},
        }
    }
    let h = match store.create_entry(caller, now, EntryTypes::Score(score_input)) {
        Result::Ok(h) => h,
        Result::Err(e) => {
            return Err(e);
        },
    };
    let l1 = store.create_link(
        caller,
        LinkBase::Agent(score_input.player),
        LinkTarget::Record(h),
        LinkTypes::PlayerToScores,
        now,
    );
    if l1.is_err() {
        return unreached();
    }
    let l2 = store.create_link(
        caller,
        LinkBase::Record(score_input.game_id),
        LinkTarget::Record(h),
        LinkTypes::GameToScores,
        now,
    );
    if l2.is_err() {
        return unreached();
    }
    match store.get(h) {
        Option::Some(rec) => Ok(rec.clone()),
        Option::None => unreached(),
    }
}

/// All score records indexed under a game. The game itself must be
/// registered.
pub fn get_scores_for_game(store: &Store, game_id: RecordHash) -> (r: Result<Vec<Record>, Error>)
    requires
        store.wf(),
    ensures
        if spec_game_registered(*store, game_id) {
            r matches Result::Ok(v) && v@ == live_target_records(
                *store,
                store.spec_get_links(LinkBase::Record(game_id), LinkTypes::GameToScores),
            )
        } else {
            r == Result::<Vec<Record>, Error>::Err(Error::NotFound)
        },
{
    if get_game_hash_by_id(store, game_id).is_none() {
        return Err(Error::NotFound);
    }
    let links = store.get_links(LinkBase::Record(game_id), LinkTypes::GameToScores);
    Ok(records_at_links(store, &links))
}

/// All score records indexed under a player's identity.
pub fn get_scores_for_player(store: &Store, player: AgentKey) -> (r: Vec<Record>)
    ensures
        r@ == live_target_records(
            *store,
            store.spec_get_links(LinkBase::Agent(player), LinkTypes::PlayerToScores),
        ),
{
    let links = store.get_links(LinkBase::Agent(player), LinkTypes::PlayerToScores);
    records_at_links(store, &links)
}

} // verus!
