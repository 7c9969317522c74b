use ping_2_pong::game::{create_game, get_all_revisions_for_game, get_games_for_player_2,
    get_latest_game, get_original_game, join_game, update_game};
use ping_2_pong::player::create_player;
use ping_2_pong::score::{create_score, get_scores_for_game};
use ping_2_pong::store::Store;
use ping_2_pong::types::{AgentKey, CreateGameInput, EntryTypes, Game, GameStatus, Player, Score,
    Signal, UpdateGameInput};
use ping_2_pong::Error;

const T0: i64 = 1_700_000_000_000_000;

fn register(store: &mut Store, key: AgentKey, name: &str) {
    let player = Player { player_key: key, player_name: name.to_string() };
    create_player(store, key, T0, player).expect("registration should succeed");
}

fn new_game(store: &mut Store, p1: AgentKey, p2: Option<AgentKey>, now: i64) -> usize {
    let input = CreateGameInput { player_1: p1, player_2: p2 };
    create_game(store, p1, now, input).expect("game creation should succeed").hash
}

#[test]
fn full_match_lifecycle() {
    // P1 creates Game(player_1=A, player_2=None): it starts Waiting.
    let mut store = Store::new();
    let a = AgentKey(1);
    let b = AgentKey(2);
    register(&mut store, a, "alice");
    register(&mut store, b, "bob");
    let game_id = new_game(&mut store, a, None, T0 + 1_000_000);
    let created = get_original_game(&store, game_id).expect("original must exist");
    match &created.entry {
        EntryTypes::Game(g) => {
            assert_eq!(g.player_1, a);
            assert!(g.player_2.is_none());
            assert_eq!(g.game_status, GameStatus::Waiting);
        },
        _ => panic!("expected a game entry"),
    }

    // P2 joins: status InProgress, player_2 = B, an updates link and a
    // player-2 link exist, and a notification is attempted toward A.
    let (joined, send) = join_game(&mut store, b, T0 + 2_000_000, game_id)
        .expect("join should succeed");
    match &joined.entry {
        EntryTypes::Game(g) => {
            assert_eq!(g.game_status, GameStatus::InProgress);
            assert_eq!(g.player_2, Some(b));
        },
        _ => panic!("expected a game entry"),
    }
    assert_eq!(send.recipients, vec![a]);
    match send.signal {
        Signal::GameStarted { game_id: gid, player_1, player_2 } => {
            assert_eq!(gid, game_id);
            assert_eq!(player_1, a);
            assert_eq!(player_2, b);
        },
        _ => panic!("expected a start notification"),
    }
    let revisions = get_all_revisions_for_game(&store, game_id).expect("history should resolve");
    assert_eq!(revisions.len(), 2);
    assert!(!get_games_for_player_2(&store, b).is_empty());

    // P1 finishes the game with an informational position update.
    let latest = get_latest_game(&store, game_id).expect("resolution must work").unwrap();
    let current = match &latest.entry {
        EntryTypes::Game(g) => *g,
        _ => panic!("expected a game entry"),
    };
    let finished = Game { game_status: GameStatus::Finished, ball_x: 10, ball_y: 20, ..current };
    update_game(
        &mut store,
        a,
        T0 + 3_000_000,
        UpdateGameInput {
            original_game_hash: game_id,
            previous_game_hash: latest.hash,
            updated_game: finished,
        },
    )
    .expect("finishing update should succeed");

    // Both players record their points; the game then shows exactly two
    // score records.
    let now = T0 + 4_000_000;
    create_score(
        &mut store,
        a,
        now,
        Score { game_id, player: a, player_points: 10, created_at: now },
    )
    .expect("score for player 1 should succeed");
    create_score(
        &mut store,
        b,
        now,
        Score { game_id, player: b, player_points: 7, created_at: now },
    )
    .expect("score for player 2 should succeed");
    let scores = get_scores_for_game(&store, game_id).expect("scores should resolve");
    assert_eq!(scores.len(), 2);
}

#[test]
fn join_fills_empty_seat_and_then_rejects_everyone() {
    let mut store = Store::new();
    let a = AgentKey(1);
    let b = AgentKey(2);
    let c = AgentKey(3);
    register(&mut store, a, "alice");
    register(&mut store, b, "bob");
    register(&mut store, c, "carol");
    let game_id = new_game(&mut store, a, None, T0);
    let (joined, _send) = join_game(&mut store, b, T0 + 1_000_000, game_id).unwrap();
    match &joined.entry {
        EntryTypes::Game(g) => {
            assert_eq!(g.game_status, GameStatus::InProgress);
            assert_eq!(g.player_2, Some(b));
        },
        _ => panic!("expected a game entry"),
    }
    // A second join by a third party fails with InvalidState: the game is
    // no longer Waiting.
    let again = join_game(&mut store, c, T0 + 2_000_000, game_id);
    assert_eq!(again.unwrap_err(), Error::InvalidState);
}

#[test]
fn join_rejects_host_and_busy_players() {
    let mut store = Store::new();
    let a = AgentKey(1);
    let b = AgentKey(2);
    register(&mut store, a, "alice");
    register(&mut store, b, "bob");
    let game_id = new_game(&mut store, a, None, T0);
    // The host cannot take the second seat of their own game.
    assert_eq!(join_game(&mut store, a, T0, game_id).unwrap_err(), Error::Conflict);
    // An unregistered agent cannot join.
    assert_eq!(join_game(&mut store, AgentKey(9), T0, game_id).unwrap_err(), Error::NotFound);
    // A missing game cannot be joined.
    assert_eq!(join_game(&mut store, b, T0, 999).unwrap_err(), Error::NotFound);
}

#[test]
fn invited_seat_is_reserved() {
    let mut store = Store::new();
    let a = AgentKey(1);
    let b = AgentKey(2);
    let c = AgentKey(3);
    register(&mut store, a, "alice");
    register(&mut store, b, "bob");
    register(&mut store, c, "carol");
    let game_id = new_game(&mut store, a, Some(b), T0);
    // The seat is pre-named for B, so C is turned away with a conflict.
    assert_eq!(join_game(&mut store, c, T0, game_id).unwrap_err(), Error::Conflict);
    let (joined, _send) = join_game(&mut store, b, T0, game_id).expect("invitee may join");
    match &joined.entry {
        EntryTypes::Game(g) => assert_eq!(g.player_2, Some(b)),
        _ => panic!("expected a game entry"),
    }
}

#[test]
fn busy_players_cannot_open_a_second_game() {
    let mut store = Store::new();
    let a = AgentKey(1);
    let b = AgentKey(2);
    register(&mut store, a, "alice");
    register(&mut store, b, "bob");
    let game_id = new_game(&mut store, a, None, T0);
    join_game(&mut store, b, T0 + 1_000_000, game_id).unwrap();
    // Both participants are now in an InProgress game.
    let input = CreateGameInput { player_1: a, player_2: None };
    assert_eq!(create_game(&mut store, a, T0, input).unwrap_err(), Error::Conflict);
    let input2 = CreateGameInput { player_1: b, player_2: None };
    assert_eq!(create_game(&mut store, b, T0, input2).unwrap_err(), Error::Conflict);
}
