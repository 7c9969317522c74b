use ping_2_pong::entity::{resolve_all_revisions, resolve_latest, resolve_original};
use ping_2_pong::game::{create_game, delete_game, get_all_deletes_for_game, get_all_games,
    get_game_hash_by_id, get_oldest_delete_for_game, get_player_status, join_game, update_game};
use ping_2_pong::player::create_player;
use ping_2_pong::store::Store;
use ping_2_pong::types::{AgentKey, CreateGameInput, EntryTypes, Game, GameStatus, LinkTypes,
    Player, PlayerStatus, UpdateGameInput};
use ping_2_pong::validation::{validate, validate_create_game, validate_update_game, Op};
use ping_2_pong::Error;

const T0: i64 = 1_700_000_000_000_000;

fn register(store: &mut Store, key: AgentKey, name: &str) {
    let player = Player { player_key: key, player_name: name.to_string() };
    create_player(store, key, T0, player).expect("registration should succeed");
}

fn waiting_game(p1: AgentKey, p2: Option<AgentKey>, created_at: i64) -> Game {
    Game {
        player_1: p1,
        player_2: p2,
        game_status: GameStatus::Waiting,
        created_at,
        player_1_paddle: 250,
        player_2_paddle: 250,
        ball_x: 400,
        ball_y: 300,
    }
}

#[test]
fn created_then_updated_once_resolves_to_the_update() {
    let mut store = Store::new();
    let a = AgentKey(1);
    let b = AgentKey(2);
    register(&mut store, a, "alice");
    register(&mut store, b, "bob");
    let input = CreateGameInput { player_1: a, player_2: None };
    let created = create_game(&mut store, a, T0, input).unwrap();
    let (updated, _send) = join_game(&mut store, b, T0 + 1_000_000, created.hash).unwrap();
    // Latest resolution returns the single update record.
    let latest = resolve_latest(&store, created.hash, LinkTypes::GameUpdates).unwrap().unwrap();
    assert_eq!(latest.hash, updated.hash);
    // Original resolution returns the creation record, whatever the update
    // count.
    let original = resolve_original(&store, created.hash).unwrap();
    assert_eq!(original.hash, created.hash);
    // The audit history lists the original first, then the update.
    let revisions = resolve_all_revisions(&store, created.hash, LinkTypes::GameUpdates).unwrap();
    assert_eq!(revisions.len(), 2);
    assert_eq!(revisions[0].hash, created.hash);
    assert_eq!(revisions[1].hash, updated.hash);
}

#[test]
fn latest_resolution_follows_the_newest_link() {
    let mut store = Store::new();
    let a = AgentKey(1);
    let b = AgentKey(2);
    register(&mut store, a, "alice");
    register(&mut store, b, "bob");
    let input = CreateGameInput { player_1: a, player_2: None };
    let game_id = create_game(&mut store, a, T0, input).unwrap().hash;
    let (joined, _send) = join_game(&mut store, b, T0 + 1_000_000, game_id).unwrap();
    let current = match &joined.entry {
        EntryTypes::Game(g) => *g,
        _ => panic!("expected a game entry"),
    };
    let finished = Game { game_status: GameStatus::Finished, ..current };
    let final_rec = update_game(
        &mut store,
        a,
        T0 + 2_000_000,
        UpdateGameInput {
            original_game_hash: game_id,
            previous_game_hash: joined.hash,
            updated_game: finished,
        },
    )
    .unwrap();
    // Two updates exist; the one behind the newest link wins.
    let latest = resolve_latest(&store, game_id, LinkTypes::GameUpdates).unwrap().unwrap();
    assert_eq!(latest.hash, final_rec.hash);
    assert_eq!(resolve_original(&store, game_id).unwrap().hash, game_id);
}

#[test]
fn statuses_observed_in_history_never_move_backward() {
    let mut store = Store::new();
    let a = AgentKey(1);
    let b = AgentKey(2);
    register(&mut store, a, "alice");
    register(&mut store, b, "bob");
    let input = CreateGameInput { player_1: a, player_2: None };
    let game_id = create_game(&mut store, a, T0, input).unwrap().hash;
    let (joined, _send) = join_game(&mut store, b, T0 + 1_000_000, game_id).unwrap();
    let current = match &joined.entry {
        EntryTypes::Game(g) => *g,
        _ => panic!("expected a game entry"),
    };
    let finished = Game { game_status: GameStatus::Finished, ..current };
    update_game(
        &mut store,
        a,
        T0 + 2_000_000,
        UpdateGameInput {
            original_game_hash: game_id,
            previous_game_hash: joined.hash,
            updated_game: finished,
        },
    )
    .unwrap();
    let revisions = resolve_all_revisions(&store, game_id, LinkTypes::GameUpdates).unwrap();
    let ranks: Vec<u32> = revisions
        .iter()
        .map(|r| match &r.entry {
            EntryTypes::Game(g) => match g.game_status {
                GameStatus::Waiting => 0,
                GameStatus::InProgress => 1,
                GameStatus::Finished => 2,
            },
            _ => panic!("expected a game entry"),
        })
        .collect();
    assert_eq!(ranks, vec![0, 1, 2]);
    // A backward move is refused at validation: Finished cannot reopen.
    let reopened = Game { game_status: GameStatus::InProgress, ..finished };
    let verdict = validate_update_game(a, &reopened, &finished);
    assert_eq!(verdict.unwrap_err(), Error::InvalidState);
    // No-op updates are refused too.
    let idle = validate_update_game(a, &current, &current);
    assert_eq!(idle.unwrap_err(), Error::InvalidState);
}

#[test]
fn creation_rules_hold_at_the_validation_engine() {
    let a = AgentKey(1);
    let b = AgentKey(2);
    // A well-shaped creation is accepted.
    assert!(validate_create_game(a, T0, &waiting_game(a, None, T0)).is_ok());
    // The author must sit in one of the two seats.
    let foreign = validate_create_game(AgentKey(9), T0, &waiting_game(a, Some(b), T0));
    assert_eq!(foreign.unwrap_err(), Error::Unauthorized);
    // The two seats must differ.
    let same = validate_create_game(a, T0, &waiting_game(a, Some(a), T0));
    assert_eq!(same.unwrap_err(), Error::Conflict);
    // The embedded creation time must sit within five minutes of commit.
    let skewed = validate_create_game(a, T0, &waiting_game(a, None, T0 + 301_000_000));
    assert_eq!(skewed.unwrap_err(), Error::InvalidState);
    let near = validate_create_game(a, T0, &waiting_game(a, None, T0 + 299_000_000));
    assert!(near.is_ok());
    // The same rule runs through the per-peer hook.
    let op = Op::StoreCreateEntry {
        author: a,
        timestamp: T0,
        entry: EntryTypes::Game(waiting_game(a, None, T0)),
    };
    assert!(validate(&op).is_ok());
}

#[test]
fn deleting_is_for_waiting_games_only() {
    let mut store = Store::new();
    let a = AgentKey(1);
    let b = AgentKey(2);
    register(&mut store, a, "alice");
    register(&mut store, b, "bob");
    let input = CreateGameInput { player_1: a, player_2: None };
    let game_id = create_game(&mut store, a, T0, input).unwrap().hash;
    // Another agent cannot delete it.
    assert_eq!(delete_game(&mut store, b, T0, game_id).unwrap_err(), Error::Unauthorized);
    // The host can, while it waits.
    delete_game(&mut store, a, T0 + 1_000_000, game_id).expect("waiting game deletes");
    assert!(get_all_games(&store).is_empty());
    assert_eq!(get_game_hash_by_id(&store, game_id), None);
    let deletes = get_all_deletes_for_game(&store, game_id).unwrap();
    assert_eq!(deletes.len(), 1);
    assert_eq!(get_oldest_delete_for_game(&store, game_id).unwrap().timestamp, T0 + 1_000_000);

    // An InProgress game refuses deletion.
    let input2 = CreateGameInput { player_1: a, player_2: None };
    let game2 = create_game(&mut store, a, T0, input2).unwrap().hash;
    join_game(&mut store, b, T0 + 1_000_000, game2).unwrap();
    assert_eq!(delete_game(&mut store, a, T0, game2).unwrap_err(), Error::InvalidState);
    // Lobby status reflects the running game.
    assert_eq!(get_player_status(&store, a).unwrap(), PlayerStatus::InGame);
    assert_eq!(get_player_status(&store, AgentKey(9)).unwrap(), PlayerStatus::Available);
    // A missing game is not found.
    assert_eq!(delete_game(&mut store, a, T0, 999).unwrap_err(), Error::NotFound);
}

#[test]
fn discovery_lists_live_games() {
    let mut store = Store::new();
    let a = AgentKey(1);
    let b = AgentKey(2);
    register(&mut store, a, "alice");
    register(&mut store, b, "bob");
    assert!(get_all_games(&store).is_empty());
    let input = CreateGameInput { player_1: a, player_2: None };
    let g1 = create_game(&mut store, a, T0, input).unwrap().hash;
    let input2 = CreateGameInput { player_1: b, player_2: None };
    let g2 = create_game(&mut store, b, T0, input2).unwrap().hash;
    let games = get_all_games(&store);
    assert_eq!(games.len(), 2);
    assert_eq!(games[0].hash, g1);
    assert_eq!(games[1].hash, g2);
    assert_eq!(get_game_hash_by_id(&store, g1), Some(g1));
}
