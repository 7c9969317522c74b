//! The validation engine: per-entity-type state machines and
//! field-immutability rules that every peer runs on a write before accepting
//! it. Each rule sees only the record being validated and, for updates and
//! deletes, the record it claims to supersede — never other peers' state.

use vstd::prelude::*;

use crate::types::{AgentKey, EntryTypes, Game, GameStatus, Link, LinkBase, LinkTarget, LinkTypes,
    Player, Presence, Score, Statistics};
use crate::Error;
use vstd::utf8::encode_utf8;

verus! {

/// Allowed clock skew between a record's embedded time and the commit time,
/// in microseconds (five minutes).
pub const SKEW_MICROS: i64 = 300_000_000;

/// Allowed clock skew for millisecond-resolution heartbeats (five minutes).
pub const SKEW_MILLIS: i64 = 300_000;

/// Longest accepted player name, in bytes.
pub const MAX_NAME_BYTES: usize = 50;

/// Whether an embedded time lies within the allowed skew of the commit time.
pub open spec fn spec_within_skew(entry_time: int, action_time: int) -> bool {
    action_time - SKEW_MICROS <= entry_time <= action_time + SKEW_MICROS
}

/// Whether a millisecond heartbeat lies within the allowed skew of the
/// commit time (given in microseconds; truncated to milliseconds).
pub open spec fn spec_presence_within_skew(heartbeat_ms: int, action_time: int) -> bool {
    let action_ms = action_time / 1000;
    action_ms - SKEW_MILLIS <= heartbeat_ms <= action_ms + SKEW_MILLIS
}

fn within_skew(entry_time: i64, action_time: i64) -> (r: bool)
    ensures
        r == spec_within_skew(entry_time as int, action_time as int),
{
    let lo: i128 = action_time as i128 - SKEW_MICROS as i128;
    let hi: i128 = action_time as i128 + SKEW_MICROS as i128;
    lo <= entry_time as i128 && entry_time as i128 <= hi
}

/// Ranking of the game lifecycle; valid transitions never decrease it.
pub open spec fn status_rank(s: GameStatus) -> int {
    match s {
        GameStatus::Waiting => 0,
        GameStatus::InProgress => 1,
        GameStatus::Finished => 2,
    }
}

/// Whether a name consists only of ASCII whitespace (and so is rejected).
pub open spec fn spec_name_blank(name: Seq<u8>) -> bool {
    forall|i: int| 0 <= i < name.len() ==> is_ascii_space(#[trigger] name[i])
}

/// The ASCII whitespace bytes.
pub open spec fn is_ascii_space(b: u8) -> bool {
    b == 32 || b == 9 || b == 10 || b == 13
}

fn name_blank(name: &String) -> (r: bool)
    ensures
        r == spec_name_blank(encode_utf8(name@)),
{
    let bytes: &[u8] = name.as_str().as_bytes();
    let mut i: usize = 0;
    while i < bytes.len()
        invariant
            i <= bytes@.len(),
            bytes@ == encode_utf8(name@),
            forall|j: int| 0 <= j < i ==> is_ascii_space(#[trigger] bytes@[j]),
        decreases bytes@.len() - i,
    {
        let b = bytes[i];
        if !(b == 32 || b == 9 || b == 10 || b == 13) {
            return false;
        }
        i += 1;
    }
    true
}

/// Whether a player name is acceptable: not all whitespace, and within the
/// length bound.
pub open spec fn spec_name_ok(name: Seq<char>) -> bool {
    &&& !spec_name_blank(encode_utf8(name))
    &&& encode_utf8(name).len() <= MAX_NAME_BYTES
}

fn name_ok(name: &String) -> (r: bool)
    ensures
        r == spec_name_ok(name@),
{
    let bytes: &[u8] = name.as_str().as_bytes();
    !name_blank(name) && bytes.len() <= MAX_NAME_BYTES
}

// --- Game rules ---

/// The decision for creating a game: the author must be player 1 or the
/// named player 2; the initial status must be Waiting; the two seats must
/// differ; the embedded creation time must be within the allowed skew.
pub open spec fn spec_validate_create_game(author: AgentKey, time: int, game: Game) -> Result<
    (),
    Error,
> {
    if game.player_1 != author && game.player_2 != Some(author) {
        Err(Error::Unauthorized)
    } else if !(game.game_status is Waiting) {
        Err(Error::InvalidState)
    } else if game.player_2 == Some(game.player_1) {
        Err(Error::Conflict)
    } else if !spec_within_skew(game.created_at as int, time) {
        Err(Error::InvalidState)
    } else {
        Ok(())
    }
}

fn opt_agent_eq(a: &Option<AgentKey>, b: &Option<AgentKey>) -> (r: bool)
    ensures
        r == (*a == *b),
{
    match (a, b) {
        (Option::None, Option::None) => true,
        (Option::Some(x), Option::Some(y)) => *x == *y,
        _ => false,
    }
}

/// Validate creation of a game entry.
pub fn validate_create_game(author: AgentKey, time: i64, game: &Game) -> (r: Result<(), Error>)
    ensures
        r == spec_validate_create_game(author, time as int, *game),
        r is Ok <==> {
            &&& (game.player_1 == author || game.player_2 == Some(author))
            &&& game.game_status is Waiting
            &&& game.player_2 != Some(game.player_1)
            &&& spec_within_skew(game.created_at as int, time as int)
        },
{
    if !(game.player_1 == author || opt_agent_eq(&game.player_2, &Some(author))) {
        Err(Error::Unauthorized)
    } else if !(matches!(game.game_status, GameStatus::Waiting)) {
        Err(Error::InvalidState)
    } else if opt_agent_eq(&game.player_2, &Some(game.player_1)) {
        Err(Error::Conflict)
    } else if !within_skew(game.created_at, time) {
        Err(Error::InvalidState)
    } else {
        Ok(())
    }
}

/// Whether `author` may commit this update at all: player 1, the existing
/// player 2, or — only for the Waiting to InProgress transition — the newly
/// seated player 2.
pub open spec fn spec_update_author_ok(author: AgentKey, updated: Game, original: Game) -> bool {
    ||| original.player_1 == author
    ||| original.player_2 == Some(author)
    ||| (original.game_status is Waiting && updated.game_status is InProgress
        && updated.player_2 == Some(author))
}

/// Whether the immutable fields are kept: player 1 and the creation time
/// never change; the player 2 seat may change only from empty to taken and
/// only on the Waiting to InProgress transition.
pub open spec fn spec_update_fields_ok(updated: Game, original: Game) -> bool {
    &&& updated.player_1 == original.player_1
    &&& updated.created_at == original.created_at
    &&& (updated.player_2 != original.player_2 ==> {
        &&& original.game_status is Waiting
        &&& updated.game_status is InProgress
        &&& original.player_2 is None
        &&& updated.player_2 is Some
    })
}

/// Whether the informational position fields are kept. They may change only
/// on the transition into Finished (their final values are informational).
pub open spec fn spec_update_positions_ok(updated: Game, original: Game) -> bool {
    positions_equal(updated, original) || (updated.game_status is Finished
        && !(original.game_status is Finished))
}

/// Whether the four informational position fields agree.
pub open spec fn positions_equal(a: Game, b: Game) -> bool {
    &&& a.player_1_paddle == b.player_1_paddle
    &&& a.player_2_paddle == b.player_2_paddle
    &&& a.ball_x == b.ball_x
    &&& a.ball_y == b.ball_y
}

/// The allowed status transitions: Waiting to InProgress (with the second
/// seat taken), InProgress to Finished, and the tolerated idempotent
/// Finished to Finished informational update.
pub open spec fn spec_update_transition_ok(updated: Game, original: Game) -> bool {
    match (original.game_status, updated.game_status) {
        (GameStatus::Waiting, GameStatus::InProgress) => updated.player_2 is Some,
        (GameStatus::InProgress, GameStatus::Finished) => true,
        (GameStatus::Finished, GameStatus::Finished) => true,
        _ => false,
    }
}

/// The decision for updating a game, in rule order: author, immutable
/// fields, position fields, status transition.
pub open spec fn spec_validate_update_game(
    author: AgentKey,
    updated: Game,
    original: Game,
) -> Result<(), Error> {
    if !spec_update_author_ok(author, updated, original) {
        Err(Error::Unauthorized)
    } else if !spec_update_fields_ok(updated, original) {
        Err(Error::InvalidState)
    } else if !spec_update_positions_ok(updated, original) {
        Err(Error::InvalidState)
    } else if !spec_update_transition_ok(updated, original) {
        Err(Error::InvalidState)
    } else {
        Ok(())
    }
}

/// Validate updating a game entry against the record it supersedes.
pub fn validate_update_game(author: AgentKey, updated: &Game, original: &Game) -> (r: Result<
    (),
    Error,
>)
    ensures
        r == spec_validate_update_game(author, *updated, *original),
        r is Ok <==> {
            &&& spec_update_author_ok(author, *updated, *original)
            &&& spec_update_fields_ok(*updated, *original)
            &&& spec_update_positions_ok(*updated, *original)
            &&& spec_update_transition_ok(*updated, *original)
        },
{
    let is_player1 = original.player_1 == author;
    let is_existing_player2 = opt_agent_eq(&original.player_2, &Some(author));
    let is_new_player2_joining = matches!(original.game_status, GameStatus::Waiting)
        && matches!(updated.game_status, GameStatus::InProgress)
        && opt_agent_eq(&updated.player_2, &Some(author));
    if !is_player1 && !is_existing_player2 && !is_new_player2_joining {
        return Err(Error::Unauthorized);
    }
    let player_2_changed = !opt_agent_eq(&updated.player_2, &original.player_2);
    let fields_ok = updated.player_1 == original.player_1 && updated.created_at
        == original.created_at && (!player_2_changed || (matches!(
            original.game_status,
            GameStatus::Waiting,
        ) && matches!(updated.game_status, GameStatus::InProgress)
            && original.player_2.is_none() && updated.player_2.is_some()));
    if !fields_ok {
        return Err(Error::InvalidState);
    }
    let positions_same = updated.player_1_paddle == original.player_1_paddle
        && updated.player_2_paddle == original.player_2_paddle && updated.ball_x == original.ball_x
        && updated.ball_y == original.ball_y;
    if !(positions_same || (matches!(updated.game_status, GameStatus::Finished) && !matches!(
        original.game_status,
        GameStatus::Finished,
    ))) {
        return Err(Error::InvalidState);
    }
    let transition_ok = match (original.game_status, updated.game_status) {
        (GameStatus::Waiting, GameStatus::InProgress) => updated.player_2.is_some(),
        (GameStatus::InProgress, GameStatus::Finished) => true,
        (GameStatus::Finished, GameStatus::Finished) => true,
        _ => false,
    };
    if !transition_ok {
        return Err(Error::InvalidState);
    }
    Ok(())
}

/// The decision for deleting a game: only a participant may delete it, and
/// only while it is still Waiting.
pub open spec fn spec_validate_delete_game(author: AgentKey, original: Game) -> Result<(), Error> {
    if original.player_1 != author && original.player_2 != Some(author) {
        Err(Error::Unauthorized)
    } else if !(original.game_status is Waiting) {
        Err(Error::InvalidState)
    } else {
        Ok(())
    }
}

/// Validate deleting a game entry.
pub fn validate_delete_game(author: AgentKey, original: &Game) -> (r: Result<(), Error>)
    ensures
        r == spec_validate_delete_game(author, *original),
{
    if !(original.player_1 == author || opt_agent_eq(&original.player_2, &Some(author))) {
        Err(Error::Unauthorized)
    } else if !(matches!(original.game_status, GameStatus::Waiting)) {
        Err(Error::InvalidState)
    } else {
        Ok(())
    }
}

// --- Player rules ---

/// The decision for creating a profile: only the player themselves may
/// create it, and the name must be acceptable. Name uniqueness is enforced
/// by the writer through the name registry, not here, since per-record
/// validation cannot see other peers' state.
pub open spec fn spec_validate_create_player(author: AgentKey, player: Player) -> Result<
    (),
    Error,
> {
    if player.player_key != author {
        Err(Error::Unauthorized)
    } else if !spec_name_ok(player.player_name@) {
        Err(Error::MalformedData)
    } else {
        Ok(())
    }
}

/// Validate creation of a player profile.
pub fn validate_create_player(author: AgentKey, player: &Player) -> (r: Result<(), Error>)
    ensures
        r == spec_validate_create_player(author, *player),
{
    if !(player.player_key == author) {
        Err(Error::Unauthorized)
    } else if !name_ok(&player.player_name) {
        Err(Error::MalformedData)
    } else {
        Ok(())
    }
}

/// The decision for updating a profile: only the player themselves; the
/// identity key never changes; a changed name must be acceptable.
pub open spec fn spec_validate_update_player(
    author: AgentKey,
    updated: Player,
    original: Player,
) -> Result<(), Error> {
    if original.player_key != author {
        Err(Error::Unauthorized)
    } else if updated.player_key != original.player_key {
        Err(Error::InvalidState)
    } else if updated.player_name@ != original.player_name@ && !spec_name_ok(
        updated.player_name@,
    ) {
        Err(Error::MalformedData)
    } else {
        Ok(())
    }
}

/// Validate updating a player profile against the record it supersedes.
pub fn validate_update_player(author: AgentKey, updated: &Player, original: &Player) -> (r: Result<
    (),
    Error,
>)
    ensures
        r == spec_validate_update_player(author, *updated, *original),
{
    if !(original.player_key == author) {
        Err(Error::Unauthorized)
    } else if !(updated.player_key == original.player_key) {
        Err(Error::InvalidState)
    } else if !(updated.player_name == original.player_name) && !name_ok(&updated.player_name) {
        Err(Error::MalformedData)
    } else {
        Ok(())
    }
}

/// The decision for deleting a profile: only the player themselves.
pub open spec fn spec_validate_delete_player(author: AgentKey, original: Player) -> Result<
    (),
    Error,
> {
    if original.player_key != author {
        Err(Error::Unauthorized)
    } else {
        Ok(())
    }
}

/// Validate deleting a player profile.
pub fn validate_delete_player(author: AgentKey, original: &Player) -> (r: Result<(), Error>)
    ensures
        r == spec_validate_delete_player(author, *original),
{
    if !(original.player_key == author) {
        Err(Error::Unauthorized)
    } else {
        Ok(())
    }
}

// --- Presence rules ---

/// The decision for a heartbeat: the author must be the agent it marks, and
/// its millisecond time must be within the allowed skew of the commit time.
pub open spec fn spec_validate_create_presence(
    author: AgentKey,
    time: int,
    presence: Presence,
) -> Result<(), Error> {
    if presence.agent_pubkey != author {
        Err(Error::Unauthorized)
    } else if !spec_presence_within_skew(presence.timestamp as int, time) {
        Err(Error::InvalidState)
    } else {
        Ok(())
    }
}

/// Validate creation of a presence heartbeat.
pub fn validate_create_presence(author: AgentKey, time: i64, presence: &Presence) -> (r: Result<
    (),
    Error,
>)
    ensures
        r == spec_validate_create_presence(author, time as int, *presence),
{
    if !(presence.agent_pubkey == author) {
        return Err(Error::Unauthorized);
    }
    let action_ms: i128 = time.checked_div_euclid(1000).unwrap() as i128;
    let hb: i128 = presence.timestamp as i128;
    if !(action_ms - SKEW_MILLIS as i128 <= hb && hb <= action_ms + SKEW_MILLIS as i128) {
        return Err(Error::InvalidState);
    }
    Ok(())
}

// --- Score rules ---

/// The record-local decision for a score: its embedded creation time must be
/// within the allowed skew. Game existence, game status and participation
/// are checked by the writer before committing, since this engine cannot
/// dereference other entities.
pub open spec fn spec_validate_create_score(author: AgentKey, time: int, score: Score) -> Result<
    (),
    Error,
> {
    if !spec_within_skew(score.created_at as int, time) {
        Err(Error::InvalidState)
    } else {
        Ok(())
    }
}

/// Validate creation of a score entry.
pub fn validate_create_score(author: AgentKey, time: i64, score: &Score) -> (r: Result<(), Error>)
    ensures
        r == spec_validate_create_score(author, time as int, *score),
{
    if !within_skew(score.created_at, time) {
        Err(Error::InvalidState)
    } else {
        Ok(())
    }
}

// --- Statistics rules ---

/// The record-local decision for statistics: the embedded time must be
/// within the allowed skew. Metric ranges are sanity-checked by callers.
pub open spec fn spec_validate_create_statistics(
    author: AgentKey,
    time: int,
    statistics: Statistics,
) -> Result<(), Error> {
    if !spec_within_skew(statistics.timestamp as int, time) {
        Err(Error::InvalidState)
    } else {
        Ok(())
    }
}

/// Validate creation of a statistics entry.
pub fn validate_create_statistics(
    author: AgentKey,
    time: i64,
    statistics: &Statistics,
) -> (r: Result<(), Error>)
    ensures
        r == spec_validate_create_statistics(author, time as int, *statistics),
{
    if !within_skew(statistics.timestamp, time) {
        Err(Error::InvalidState)
    } else {
        Ok(())
    }
}

// --- Per-game timing metrics ---

/// Timing metrics carry no rules of their own: every shape is accepted.
pub fn validate_create_game_stats(author: AgentKey, stats: &crate::types::GameStats) -> (r: Result<
    (),
    Error,
>)
    ensures
        r is Ok,
{
    Ok(())
}

/// Updates to timing metrics carry no rules of their own.
pub fn validate_update_game_stats(
    author: AgentKey,
    stats: &crate::types::GameStats,
    original: &crate::types::GameStats,
) -> (r: Result<(), Error>)
    ensures
        r is Ok,
{
    Ok(())
}

/// Deletes of timing metrics carry no rules of their own.
pub fn validate_delete_game_stats(author: AgentKey, original: &crate::types::GameStats) -> (r:
    Result<(), Error>)
    ensures
        r is Ok,
{
    Ok(())
}

// --- Link shape rules ---

/// The shape rule for each kind of link: what its base and target must be,
/// and for ownership links, that the author is the owning agent.
pub open spec fn spec_validate_create_link(link: Link) -> Result<(), Error> {
    match link.link_type {
        LinkTypes::GameIdToGame => if !(link.target is Record) {
            Err(Error::MalformedData)
        } else {
            Ok(())
        },
        LinkTypes::Player1ToGames => match link.base {
            LinkBase::Agent(a) => if !(link.target is Record) {
                Err(Error::MalformedData)
            } else if link.author != a {
                Err(Error::Unauthorized)
            } else {
                Ok(())
            },
            _ => Err(Error::MalformedData),
        },
        LinkTypes::Player2ToGames => if !(link.base is Agent) {
            Err(Error::MalformedData)
        } else if !(link.target is Record) {
            Err(Error::MalformedData)
        } else {
            Ok(())
        },
        LinkTypes::GameUpdates => if !(link.base is Record) || !(link.target is Record) {
            Err(Error::MalformedData)
        } else {
            Ok(())
        },
        LinkTypes::GameToScores => if !(link.base is Record) || !(link.target is Record) {
            Err(Error::MalformedData)
        } else {
            Ok(())
        },
        LinkTypes::GameToStatistics => if !(link.base is Record) || !(link.target is Record) {
            Err(Error::MalformedData)
        } else {
            Ok(())
        },
        LinkTypes::PlayerToPlayers => match link.base {
            LinkBase::Agent(a) => if !(link.target is Record) {
                Err(Error::MalformedData)
            } else if link.author != a {
                Err(Error::Unauthorized)
            } else {
                Ok(())
            },
            _ => Err(Error::MalformedData),
        },
        LinkTypes::PlayerNameToPlayer => if !(link.base is Anchor) || !(link.target is Record) {
            Err(Error::MalformedData)
        } else {
            Ok(())
        },
        LinkTypes::PlayerUpdates => if !(link.base is Record) || !(link.target is Record) {
            Err(Error::MalformedData)
        } else {
            Ok(())
        },
        LinkTypes::PlayerToScores => if !(link.base is Agent) || !(link.target is Record) {
            Err(Error::MalformedData)
        } else {
            Ok(())
        },
        LinkTypes::Presence => if !(link.base is Anchor) || !(link.target is Record) {
            Err(Error::MalformedData)
        } else {
            Ok(())
        },
        LinkTypes::AllPlayersAnchorToAgentPubKey => if !(link.base is Anchor) || !(link.target
            is Agent) {
            Err(Error::MalformedData)
        } else {
            Ok(())
        },
    }
}

/// Validate a link of type GameIdToGame: target must be a record.
pub fn validate_gameid_to_game_link(link: &Link) -> (r: Result<(), Error>)
    ensures
        link.link_type is GameIdToGame ==> r == spec_validate_create_link(*link),
{
    if !(matches!(link.target, LinkTarget::Record(_))) {
        Err(Error::MalformedData)
    } else {
        Ok(())
    }
}

/// Validate a link of type Player1ToGames: base an agent, target a record,
/// author the agent named in the base.
pub fn validate_player1_to_game_link(link: &Link) -> (r: Result<(), Error>)
    ensures
        link.link_type is Player1ToGames ==> r == spec_validate_create_link(*link),
{
    match link.base {
        LinkBase::Agent(a) => {
            if !(matches!(link.target, LinkTarget::Record(_))) {
                Err(Error::MalformedData)
            } else if !(link.author == a) {
                Err(Error::Unauthorized)
            } else {
                Ok(())
            }
        },
        _ => Err(Error::MalformedData),
    }
}

/// Validate a link of type Player2ToGames: base an agent, target a record.
/// Player 1 may create it during an invitation, so the author is free.
pub fn validate_player2_to_game_link(link: &Link) -> (r: Result<(), Error>)
    ensures
        link.link_type is Player2ToGames ==> r == spec_validate_create_link(*link),
{
    if !(matches!(link.base, LinkBase::Agent(_))) {
        Err(Error::MalformedData)
    } else if !(matches!(link.target, LinkTarget::Record(_))) {
        Err(Error::MalformedData)
    } else {
        Ok(())
    }
}

fn record_to_record(link: &Link) -> (r: Result<(), Error>)
    ensures
        r == (if !(link.base is Record) || !(link.target is Record) {
            Err::<(), Error>(Error::MalformedData)
        } else {
            Ok::<(), Error>(())
        }),
{
    if !(matches!(link.base, LinkBase::Record(_))) || !(matches!(
        link.target,
        LinkTarget::Record(_),
    )) {
        Err(Error::MalformedData)
    } else {
        Ok(())
    }
}

/// Validate a link of type GameUpdates: record to record.
pub fn validate_game_updates_link(link: &Link) -> (r: Result<(), Error>)
    ensures
        link.link_type is GameUpdates ==> r == spec_validate_create_link(*link),
{
    record_to_record(link)
}

/// Validate a link of type GameToScores: record to record.
pub fn validate_game_to_score_link(link: &Link) -> (r: Result<(), Error>)
    ensures
        link.link_type is GameToScores ==> r == spec_validate_create_link(*link),
{
    record_to_record(link)
}

/// Validate a link of type GameToStatistics: record to record.
pub fn validate_game_to_statistics_link(link: &Link) -> (r: Result<(), Error>)
    ensures
        link.link_type is GameToStatistics ==> r == spec_validate_create_link(*link),
{
    record_to_record(link)
}

/// Validate a link of type PlayerToPlayers: base an agent, target a record,
/// author the agent named in the base.
pub fn validate_player_to_players_link(link: &Link) -> (r: Result<(), Error>)
    ensures
        link.link_type is PlayerToPlayers ==> r == spec_validate_create_link(*link),
{
    match link.base {
        LinkBase::Agent(a) => {
            if !(matches!(link.target, LinkTarget::Record(_))) {
                Err(Error::MalformedData)
            } else if !(link.author == a) {
                Err(Error::Unauthorized)
            } else {
                Ok(())
            }
        },
        _ => Err(Error::MalformedData),
    }
}

/// Validate a link of type PlayerNameToPlayer: anchor to record.
pub fn validate_playername_to_player_link(link: &Link) -> (r: Result<(), Error>)
    ensures
        link.link_type is PlayerNameToPlayer ==> r == spec_validate_create_link(*link),
{
    if !(matches!(link.base, LinkBase::Anchor(_))) || !(matches!(
        link.target,
        LinkTarget::Record(_),
    )) {
        Err(Error::MalformedData)
    } else {
        Ok(())
    }
}

/// Validate a link of type PlayerUpdates: record to record.
pub fn validate_player_updates_link(link: &Link) -> (r: Result<(), Error>)
    ensures
        link.link_type is PlayerUpdates ==> r == spec_validate_create_link(*link),
{
    record_to_record(link)
}

/// Validate a link of type PlayerToScores: base an agent, target a record.
/// Any author is accepted, as scores may be recorded by either participant.
pub fn validate_player_to_scores_link(link: &Link) -> (r: Result<(), Error>)
    ensures
        link.link_type is PlayerToScores ==> r == spec_validate_create_link(*link),
{
    if !(matches!(link.base, LinkBase::Agent(_))) || !(matches!(
        link.target,
        LinkTarget::Record(_),
    )) {
        Err(Error::MalformedData)
    } else {
        Ok(())
    }
}

/// Validate a link of type Presence: anchor to record.
pub fn validate_presence_link(link: &Link) -> (r: Result<(), Error>)
    ensures
        link.link_type is Presence ==> r == spec_validate_create_link(*link),
{
    if !(matches!(link.base, LinkBase::Anchor(_))) || !(matches!(
        link.target,
        LinkTarget::Record(_),
    )) {
        Err(Error::MalformedData)
    } else {
        Ok(())
    }
}

fn validate_all_players_link(link: &Link) -> (r: Result<(), Error>)
    ensures
        link.link_type is AllPlayersAnchorToAgentPubKey ==> r == spec_validate_create_link(*link),
{
    if !(matches!(link.base, LinkBase::Anchor(_))) || !(matches!(
        link.target,
        LinkTarget::Agent(_),
    )) {
        Err(Error::MalformedData)
    } else {
        Ok(())
    }
}

/// Validate a new link by dispatching on its type.
pub fn validate_create_link(link: &Link) -> (r: Result<(), Error>)
    ensures
        r == spec_validate_create_link(*link),
{
    match link.link_type {
        LinkTypes::GameIdToGame => validate_gameid_to_game_link(link),
        LinkTypes::Player1ToGames => validate_player1_to_game_link(link),
        LinkTypes::Player2ToGames => validate_player2_to_game_link(link),
        LinkTypes::GameUpdates => validate_game_updates_link(link),
        LinkTypes::GameToScores => validate_game_to_score_link(link),
        LinkTypes::GameToStatistics => validate_game_to_statistics_link(link),
        LinkTypes::PlayerToPlayers => validate_player_to_players_link(link),
        LinkTypes::PlayerNameToPlayer => validate_playername_to_player_link(link),
        LinkTypes::PlayerUpdates => validate_player_updates_link(link),
        LinkTypes::PlayerToScores => validate_player_to_scores_link(link),
        LinkTypes::Presence => validate_presence_link(link),
        LinkTypes::AllPlayersAnchorToAgentPubKey => validate_all_players_link(link),
    }
}

// --- Entry dispatch ---

/// The decision for committing a creation record, by entity kind.
pub open spec fn spec_validate_create_entry(author: AgentKey, time: int, entry: EntryTypes) -> Result<
    (),
    Error,
> {
    match entry {
        EntryTypes::Game(g) => spec_validate_create_game(author, time, g),
        EntryTypes::Player(p) => spec_validate_create_player(author, p),
        EntryTypes::Score(s) => spec_validate_create_score(author, time, s),
        EntryTypes::Statistics(s) => spec_validate_create_statistics(author, time, s),
        EntryTypes::Presence(p) => spec_validate_create_presence(author, time, p),
    }
}

/// Validate a creation record by dispatching on its payload kind.
pub fn validate_create_entry(author: AgentKey, time: i64, entry: &EntryTypes) -> (r: Result<
    (),
    Error,
>)
    ensures
        r == spec_validate_create_entry(author, time as int, *entry),
{
    match entry {
        EntryTypes::Game(g) => validate_create_game(author, time, g),
        EntryTypes::Player(p) => validate_create_player(author, p),
        EntryTypes::Score(s) => validate_create_score(author, time, s),
        EntryTypes::Statistics(s) => validate_create_statistics(author, time, s),
        EntryTypes::Presence(p) => validate_create_presence(author, time, p),
    }
}

/// The decision for committing an update record against the record it
/// supersedes. Games and profiles have update state machines; scores,
/// statistics and heartbeats are immutable once created; an update whose
/// payload kind differs from its predecessor's is malformed.
pub open spec fn spec_validate_update_entry(
    author: AgentKey,
    updated: EntryTypes,
    original: EntryTypes,
) -> Result<(), Error> {
    match (updated, original) {
        (EntryTypes::Game(u), EntryTypes::Game(o)) => spec_validate_update_game(author, u, o),
        (EntryTypes::Player(u), EntryTypes::Player(o)) => spec_validate_update_player(
            author,
            u,
            o,
        ),
        (EntryTypes::Score(_), EntryTypes::Score(_)) => Err(Error::InvalidState),
        (EntryTypes::Statistics(_), EntryTypes::Statistics(_)) => Err(Error::InvalidState),
        (EntryTypes::Presence(_), EntryTypes::Presence(_)) => Err(Error::InvalidState),
        _ => Err(Error::MalformedData),
    }
}

/// Validate an update record against the record it supersedes.
pub fn validate_update_entry(
    author: AgentKey,
    updated: &EntryTypes,
    original: &EntryTypes,
) -> (r: Result<(), Error>)
    ensures
        r == spec_validate_update_entry(author, *updated, *original),
{
    match (updated, original) {
        (EntryTypes::Game(u), EntryTypes::Game(o)) => validate_update_game(author, u, o),
        (EntryTypes::Player(u), EntryTypes::Player(o)) => validate_update_player(author, u, o),
        (EntryTypes::Score(_), EntryTypes::Score(_)) => Err(Error::InvalidState),
        (EntryTypes::Statistics(_), EntryTypes::Statistics(_)) => Err(Error::InvalidState),
        (EntryTypes::Presence(_), EntryTypes::Presence(_)) => Err(Error::InvalidState),
        _ => Err(Error::MalformedData),
    }
}

/// The decision for deleting a record: games only while Waiting and only by
/// a participant, profiles only by their owner; everything else is
/// undeletable.
pub open spec fn spec_validate_delete_entry(author: AgentKey, original: EntryTypes) -> Result<
    (),
    Error,
> {
    match original {
        EntryTypes::Game(g) => spec_validate_delete_game(author, g),
        EntryTypes::Player(p) => spec_validate_delete_player(author, p),
        _ => Err(Error::InvalidState),
    }
}

/// Validate a delete against the record it removes.
pub fn validate_delete_entry(author: AgentKey, original: &EntryTypes) -> (r: Result<(), Error>)
    ensures
        r == spec_validate_delete_entry(author, *original),
{
    match original {
        EntryTypes::Game(g) => validate_delete_game(author, g),
        EntryTypes::Player(p) => validate_delete_player(author, p),
        _ => Err(Error::InvalidState),
    }
}

/// A write as presented to the per-peer validation hook: the record or link
/// being stored, together with the already-fetched prior state it claims to
/// supersede. Validation never fetches.
pub enum Op {
    /// A new entity record.
    StoreCreateEntry { author: AgentKey, timestamp: i64, entry: EntryTypes },
    /// An update record, with the entry of the record it supersedes.
    StoreUpdateEntry { author: AgentKey, timestamp: i64, entry: EntryTypes, original: EntryTypes },
    /// A delete, with the entry of the record it removes.
    StoreDeleteEntry { author: AgentKey, original: EntryTypes },
    /// A new index link.
    StoreCreateLink { link: Link },
    /// A link delete; only the link's own author may remove it.
    StoreDeleteLink { author: AgentKey, link_author: AgentKey },
}

/// The full per-peer decision for any write.
pub open spec fn spec_validate(op: Op) -> Result<(), Error> {
    match op {
        Op::StoreCreateEntry { author, timestamp, entry } => spec_validate_create_entry(
            author,
            timestamp as int,
            entry,
        ),
        Op::StoreUpdateEntry { author, timestamp, entry, original } => spec_validate_update_entry(
            author,
            entry,
            original,
        ),
        Op::StoreDeleteEntry { author, original } => spec_validate_delete_entry(author, original),
        Op::StoreCreateLink { link } => spec_validate_create_link(link),
        Op::StoreDeleteLink { author, link_author } => if author != link_author {
            Err(Error::Unauthorized)
        } else {
            Ok(())
        },
    }
}

/// The validation hook run by every peer on every write it receives, before
/// the write is accepted into its store.
pub fn validate(op: &Op) -> (r: Result<(), Error>)
    ensures
        r == spec_validate(*op),
{
    match op {
        Op::StoreCreateEntry { author, timestamp, entry } => validate_create_entry(
            *author,
            *timestamp,
            entry,
        ),
        Op::StoreUpdateEntry { author, timestamp, entry, original } => validate_update_entry(
            *author,
            entry,
            original,
        ),
        Op::StoreDeleteEntry { author, original } => validate_delete_entry(*author, original),
        Op::StoreCreateLink { link } => validate_create_link(link),
        Op::StoreDeleteLink { author, link_author } => {
            if !(*author == *link_author) {
                Err(Error::Unauthorized)
            } else {
                Ok(())
            }
        },
    }
}

} // verus!
