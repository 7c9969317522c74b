//! Data model: entity payloads, link metadata, records, inputs and signals.

use vstd::prelude::*;

verus! {

/// Identity of a peer. Stands for a public key; only identity (equality)
/// matters to the rules, so it is carried as a plain number.
#[derive(Clone, Copy, Debug, PartialEq, Eq, Structural, Hash)]
pub struct AgentKey(pub u64);

/// Hash of a record: the stable, content-addressed identifier assigned by
/// the store when the record is committed.
pub type RecordHash = usize;

/// Lifecycle states of a game.
#[derive(Clone, Copy, Debug, PartialEq, Eq, Structural)]
pub enum GameStatus {
    /// Waiting for a second player or for matchmaking.
    Waiting,
    /// Actively being played.
    InProgress,
    /// Concluded; scores may now be recorded.
    Finished,
}

/// A game entity. The four position fields are informational defaults or the
/// final saved state, never the authoritative real-time positions (those live
/// only in the ephemeral signal channel).
#[derive(Clone, Copy, Debug)]
pub struct Game {
    pub player_1: AgentKey,
    pub player_2: Option<AgentKey>,
    pub game_status: GameStatus,
    /// Microseconds since the epoch; fixed at creation.
    pub created_at: i64,
    pub player_1_paddle: u32,
    pub player_2_paddle: u32,
    pub ball_x: u32,
    pub ball_y: u32,
}

/// A player profile entity.
#[derive(Debug)]
pub struct Player {
    /// The agent this profile belongs to; must equal the record's author.
    pub player_key: AgentKey,
    /// Chosen nickname, unique across all players.
    pub player_name: String,
}

impl Clone for Player {
    fn clone(&self) -> (r: Self)
        ensures
            r == *self,
    {
        Player { player_key: self.player_key, player_name: self.player_name.clone() }
    }
}

/// A score entity, recorded for one player once its game is finished.
#[derive(Clone, Copy, Debug)]
pub struct Score {
    /// Hash of the game's original creation record.
    pub game_id: RecordHash,
    pub player: AgentKey,
    pub player_points: u32,
    /// Microseconds since the epoch.
    pub created_at: i64,
}

/// Client-measured metrics recorded after a game finishes.
#[derive(Clone, Copy, Debug)]
pub struct Statistics {
    pub game_id: RecordHash,
    /// Microseconds since the epoch.
    pub timestamp: i64,
    pub signal_latency: u32,
    pub score_validation_time: u32,
    pub dht_response_time: u32,
    pub network_delay: u32,
}

/// A short-lived heartbeat marking an agent as recently active.
#[derive(Clone, Copy, Debug)]
pub struct Presence {
    pub agent_pubkey: AgentKey,
    /// Milliseconds since the epoch, client-generated.
    pub timestamp: u64,
}

/// Per-game timing metrics.
#[derive(Clone, Copy, Debug)]
pub struct GameStats {
    pub game_id: RecordHash,
    pub player_1: AgentKey,
    pub player_2: AgentKey,
    pub latency_ms: u64,
    pub time_to_write_score_ms: u64,
    pub time_to_read_score_ms: u64,
    /// Microseconds since the epoch.
    pub created_at: i64,
}

/// The closed set of entity payloads a record can carry.
#[derive(Debug)]
pub enum EntryTypes {
    Game(Game),
    Player(Player),
    Score(Score),
    Statistics(Statistics),
    Presence(Presence),
}

impl Clone for EntryTypes {
    fn clone(&self) -> (r: Self)
        ensures
            r == *self,
    {
        match self {
            EntryTypes::Game(g) => EntryTypes::Game(*g),
            EntryTypes::Player(p) => EntryTypes::Player(p.clone()),
            EntryTypes::Score(s) => EntryTypes::Score(*s),
            EntryTypes::Statistics(s) => EntryTypes::Statistics(*s),
            EntryTypes::Presence(p) => EntryTypes::Presence(*p),
        }
    }
}

/// The closed set of index link kinds.
#[derive(Clone, Copy, Debug, PartialEq, Eq, Structural)]
pub enum LinkTypes {
    /// Global games anchor to a game's original record.
    GameIdToGame,
    /// Player 1's identity to a game's original record.
    Player1ToGames,
    /// Player 2's identity to a game's original record.
    Player2ToGames,
    /// A game's original record to one of its update records.
    GameUpdates,
    /// A game's original record to a score record.
    GameToScores,
    /// A game's original record to a statistics record.
    GameToStatistics,
    /// An agent's identity to their profile record.
    PlayerToPlayers,
    /// A name anchor to a profile record (uniqueness registry).
    PlayerNameToPlayer,
    /// A profile's original record to one of its update records.
    PlayerUpdates,
    /// An agent's identity to a score record.
    PlayerToScores,
    /// The presence anchor to a heartbeat record.
    Presence,
    /// The global players anchor to an agent identity.
    AllPlayersAnchorToAgentPubKey,
}

/// What a link hangs from: a record, an agent identity, or a discovery anchor
/// (anchors are interned by the store and referred to by their index).
#[derive(Clone, Copy, Debug, PartialEq, Eq, Structural)]
pub enum LinkBase {
    Record(RecordHash),
    Agent(AgentKey),
    Anchor(usize),
}

/// What a link points at.
#[derive(Clone, Copy, Debug, PartialEq, Eq, Structural)]
pub enum LinkTarget {
    Record(RecordHash),
    Agent(AgentKey),
}

/// An index link: an append-only (base, target, type, timestamp) relation.
/// `create_hash` is the stable identifier of the link itself.
#[derive(Clone, Copy, Debug)]
pub struct Link {
    pub create_hash: usize,
    pub author: AgentKey,
    pub base: LinkBase,
    pub target: LinkTarget,
    pub link_type: LinkTypes,
    /// Creation time in microseconds since the epoch; the ranking key for
    /// latest-version resolution.
    pub timestamp: i64,
}

/// A delete action registered against a record or a link.
#[derive(Clone, Copy, Debug)]
pub struct DeleteInfo {
    pub author: AgentKey,
    /// Microseconds since the epoch.
    pub timestamp: i64,
}

/// An immutable, author-signed, timestamped container for one entity payload.
/// `prev` is set on update records and names the record they supersede.
#[derive(Debug)]
pub struct Record {
    /// The record's own content-addressed hash.
    pub hash: RecordHash,
    pub author: AgentKey,
    /// Microseconds since the epoch, assigned at commit time.
    pub timestamp: i64,
    /// The record this update supersedes; `None` for creation records.
    pub prev: Option<RecordHash>,
    pub entry: EntryTypes,
}

impl Clone for Record {
    fn clone(&self) -> (r: Self)
        ensures
            r == *self,
    {
        Record {
            hash: self.hash,
            author: self.author,
            timestamp: self.timestamp,
            prev: self.prev,
            entry: self.entry.clone(),
        }
    }
}

/// A player's lobby availability.
#[derive(Clone, Copy, Debug, PartialEq, Eq, Structural)]
pub enum PlayerStatus {
    Available,
    InGame,
}

/// One row of the leaderboard.
#[derive(Clone, Copy, Debug, PartialEq, Eq, Structural)]
pub struct LeaderboardEntry {
    pub player_key: AgentKey,
    pub total_points: u32,
    pub games_played: u32,
}

/// Input for creating a game, optionally pre-naming the invited opponent.
#[derive(Clone, Copy, Debug)]
pub struct CreateGameInput {
    pub player_1: AgentKey,
    pub player_2: Option<AgentKey>,
}

/// Input for updating a game: the entity's stable identifier, the tip being
/// superseded, and the new state.
#[derive(Clone, Copy, Debug)]
pub struct UpdateGameInput {
    pub original_game_hash: RecordHash,
    pub previous_game_hash: RecordHash,
    pub updated_game: Game,
}

/// Input for updating a player profile.
#[derive(Debug)]
pub struct UpdatePlayerInput {
    pub original_player_hash: RecordHash,
    pub previous_player_hash: RecordHash,
    pub updated_player: Player,
}

/// Data passed in when one player invites another.
#[derive(Debug)]
pub struct InvitationPayload {
    pub game_id: RecordHash,
    pub invitee: AgentKey,
    pub message: String,
}

/// A pending invitation as shown to the invitee.
#[derive(Debug)]
pub struct Invitation {
    pub game_id: RecordHash,
    pub inviter: AgentKey,
    pub message: String,
}

/// Input for accepting an invitation.
#[derive(Clone, Copy, Debug)]
pub struct AcceptInvitationPayload {
    pub game_id: RecordHash,
}

/// Input for a paddle-position signal.
#[derive(Clone, Copy, Debug)]
pub struct PaddleUpdatePayload {
    pub game_id: RecordHash,
    pub paddle_y: u32,
    /// Microseconds since the epoch; stamped by the sender.
    pub sent_at: i64,
}

/// Input for a ball-position signal.
#[derive(Clone, Copy, Debug)]
pub struct BallUpdatePayload {
    pub game_id: RecordHash,
    pub sent_at: i64,
    pub ball_x: u32,
    pub ball_y: u32,
    pub ball_dx: i32,
    pub ball_dy: i32,
}

/// Input for a score or game-over signal.
#[derive(Clone, Copy, Debug)]
pub struct GameOverPayload {
    pub game_id: RecordHash,
    pub winner: Option<AgentKey>,
    pub score1: u32,
    pub score2: u32,
    pub sent_at: i64,
}

/// Input for an abandonment notice.
#[derive(Clone, Copy, Debug)]
pub struct GameAbandonedPayload {
    pub game_id: RecordHash,
}

/// A broadcast chat line.
#[derive(Debug)]
pub struct ChatMessagePayload {
    /// Microseconds since the epoch.
    pub timestamp: i64,
    pub sender: AgentKey,
    pub content: String,
}

impl Clone for ChatMessagePayload {
    fn clone(&self) -> (r: Self)
        ensures
            r == *self,
    {
        ChatMessagePayload {
            timestamp: self.timestamp,
            sender: self.sender,
            content: self.content.clone(),
        }
    }
}

/// Everything that can be delivered to a UI, locally or over the relay.
#[derive(Debug)]
pub enum Signal {
    /// A link was committed locally.
    LinkCreated { create_hash: usize, link_type: LinkTypes },
    /// A link was deleted locally.
    LinkDeleted { create_hash: usize, link_type: LinkTypes },
    /// An entity record was committed locally.
    EntryCreated { hash: RecordHash, app_entry: EntryTypes },
    /// An update record was committed locally.
    EntryUpdated { hash: RecordHash, app_entry: EntryTypes, original_app_entry: EntryTypes },
    /// A delete was committed locally.
    EntryDeleted { hash: RecordHash, original_app_entry: EntryTypes },
    /// An invitation to join a game.
    GameInvitation { game_id: RecordHash, inviter: AgentKey, message: String },
    /// Both seats are taken and play may begin.
    GameStarted { game_id: RecordHash, player_1: AgentKey, player_2: AgentKey },
    /// Ephemeral paddle position.
    PaddleUpdate { game_id: RecordHash, player: AgentKey, paddle_y: u32, sent_at: i64 },
    /// Ephemeral ball position and velocity.
    BallUpdate {
        game_id: RecordHash,
        ball_x: u32,
        ball_y: u32,
        ball_dx: i32,
        ball_dy: i32,
        sent_at: i64,
    },
    /// Ephemeral running score.
    ScoreUpdate { game_id: RecordHash, score1: u32, score2: u32, sent_at: i64 },
    /// Ephemeral end-of-game notice.
    GameOver {
        game_id: RecordHash,
        winner: Option<AgentKey>,
        score1: u32,
        score2: u32,
        sent_at: i64,
    },
    /// A participant walked away; carries no latency field.
    GameAbandoned { game_id: RecordHash, abandoned_by_player: AgentKey },
    /// A chat line for every registered player.
    GlobalChatMessage(ChatMessagePayload),
}

/// A relay send: one signal, emitted to the local UI and offered to each
/// recipient over best-effort unicast. Failed deliveries are dropped
/// without retry and never fail the operation that produced this.
#[derive(Debug)]
pub struct SignalSend {
    pub signal: Signal,
    pub recipients: Vec<AgentKey>,
}

/// A locally committed action, as handed to the post-commit hook.
#[derive(Clone, Copy, Debug)]
pub enum Committed {
    /// A record was written (creation or update).
    Record(RecordHash),
    /// A delete was registered against the record.
    RecordDeleted(RecordHash),
    /// A link was written.
    LinkCreated(usize),
    /// A delete was registered against the link.
    LinkDeleted(usize),
}

impl Clone for Signal {
    fn clone(&self) -> (r: Self)
        ensures
            r == *self,
    {
        match self {
            Signal::LinkCreated { create_hash, link_type } => Signal::LinkCreated {
                create_hash: *create_hash,
                link_type: *link_type,
            },
            Signal::LinkDeleted { create_hash, link_type } => Signal::LinkDeleted {
                create_hash: *create_hash,
                link_type: *link_type,
            },
            Signal::EntryCreated { hash, app_entry } => Signal::EntryCreated {
                hash: *hash,
                app_entry: app_entry.clone(),
            },
            Signal::EntryUpdated { hash, app_entry, original_app_entry } => Signal::EntryUpdated {
                hash: *hash,
                app_entry: app_entry.clone(),
                original_app_entry: original_app_entry.clone(),
            },
            Signal::EntryDeleted { hash, original_app_entry } => Signal::EntryDeleted {
                hash: *hash,
                original_app_entry: original_app_entry.clone(),
            },
            Signal::GameInvitation { game_id, inviter, message } => Signal::GameInvitation {
                game_id: *game_id,
                inviter: *inviter,
                message: message.clone(),
            },
            Signal::GameStarted { game_id, player_1, player_2 } => Signal::GameStarted {
                game_id: *game_id,
                player_1: *player_1,
                player_2: *player_2,
            },
            Signal::PaddleUpdate { game_id, player, paddle_y, sent_at } => Signal::PaddleUpdate {
                game_id: *game_id,
                player: *player,
                paddle_y: *paddle_y,
                sent_at: *sent_at,
            },
            Signal::BallUpdate { game_id, ball_x, ball_y, ball_dx, ball_dy, sent_at } => {
                Signal::BallUpdate {
                    game_id: *game_id,
                    ball_x: *ball_x,
                    ball_y: *ball_y,
                    ball_dx: *ball_dx,
                    ball_dy: *ball_dy,
                    sent_at: *sent_at,
                }
            },
            Signal::ScoreUpdate { game_id, score1, score2, sent_at } => Signal::ScoreUpdate {
                game_id: *game_id,
                score1: *score1,
                score2: *score2,
                sent_at: *sent_at,
            },
            Signal::GameOver { game_id, winner, score1, score2, sent_at } => Signal::GameOver {
                game_id: *game_id,
                winner: *winner,
                score1: *score1,
                score2: *score2,
                sent_at: *sent_at,
            },
            Signal::GameAbandoned { game_id, abandoned_by_player } => Signal::GameAbandoned {
                game_id: *game_id,
                abandoned_by_player: *abandoned_by_player,
            },
            Signal::GlobalChatMessage(p) => Signal::GlobalChatMessage(p.clone()),
        }
    }
}

} // verus!
