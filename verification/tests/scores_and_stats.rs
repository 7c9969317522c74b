use ping_2_pong::game::{create_game, get_latest_game, join_game, update_game};
use ping_2_pong::player::create_player;
use ping_2_pong::score::{create_score, get_scores_for_game, get_scores_for_player};
use ping_2_pong::statistics::{create_statistics, get_leaderboard_data, get_statistics_for_game};
use ping_2_pong::store::Store;
use ping_2_pong::types::{AgentKey, CreateGameInput, EntryTypes, Game, GameStatus, Player, Score,
    Statistics, UpdateGameInput};
use ping_2_pong::Error;

const T0: i64 = 1_700_000_000_000_000;

fn register(store: &mut Store, key: AgentKey, name: &str) {
    let player = Player { player_key: key, player_name: name.to_string() };
    create_player(store, key, T0, player).expect("registration should succeed");
}

/// A finished game between the two given players; returns its identifier.
fn finished_game(store: &mut Store, a: AgentKey, b: AgentKey, now: i64) -> usize {
    let input = CreateGameInput { player_1: a, player_2: None };
    let game_id = create_game(store, a, now, input).unwrap().hash;
    join_game(store, b, now + 1_000_000, game_id).unwrap();
    let latest = get_latest_game(store, game_id).unwrap().unwrap();
    let current = match &latest.entry {
        EntryTypes::Game(g) => *g,
        _ => panic!("expected a game entry"),
    };
    let finished = Game { game_status: GameStatus::Finished, ..current };
    update_game(
        store,
        a,
        now + 2_000_000,
        UpdateGameInput {
            original_game_hash: game_id,
            previous_game_hash: latest.hash,
            updated_game: finished,
        },
    )
    .unwrap();
    game_id
}

#[test]
fn scores_only_for_finished_games() {
    let mut store = Store::new();
    let a = AgentKey(1);
    let b = AgentKey(2);
    register(&mut store, a, "alice");
    register(&mut store, b, "bob");
    let input = CreateGameInput { player_1: a, player_2: None };
    let game_id = create_game(&mut store, a, T0, input).unwrap().hash;
    join_game(&mut store, b, T0 + 1_000_000, game_id).unwrap();
    // The latest resolved status is InProgress: recording fails.
    let early = create_score(
        &mut store,
        a,
        T0 + 2_000_000,
        Score { game_id, player: a, player_points: 3, created_at: T0 + 2_000_000 },
    );
    assert_eq!(early.unwrap_err(), Error::InvalidState);
}

#[test]
fn finished_games_take_participant_scores_only() {
    let mut store = Store::new();
    let a = AgentKey(1);
    let b = AgentKey(2);
    let c = AgentKey(3);
    register(&mut store, a, "alice");
    register(&mut store, b, "bob");
    register(&mut store, c, "carol");
    let game_id = finished_game(&mut store, a, b, T0);
    let now = T0 + 3_000_000;
    // A participant's score is accepted.
    create_score(&mut store, a, now, Score { game_id, player: a, player_points: 10, created_at: now })
        .expect("participant score succeeds");
    // A non-participant's score is rejected.
    let outsider = create_score(
        &mut store,
        c,
        now,
        Score { game_id, player: c, player_points: 4, created_at: now },
    );
    assert_eq!(outsider.unwrap_err(), Error::Unauthorized);
    // An unregistered game identifier is not found.
    let missing = create_score(
        &mut store,
        a,
        now,
        Score { game_id: 999, player: a, player_points: 1, created_at: now },
    );
    assert_eq!(missing.unwrap_err(), Error::NotFound);
    // A score stamped far outside the allowed clock skew is rejected.
    let skewed = create_score(
        &mut store,
        a,
        now,
        Score { game_id, player: a, player_points: 1, created_at: now + 301_000_000 },
    );
    assert_eq!(skewed.unwrap_err(), Error::InvalidState);
}

#[test]
fn score_queries_see_each_players_records() {
    let mut store = Store::new();
    let a = AgentKey(1);
    let b = AgentKey(2);
    register(&mut store, a, "alice");
    register(&mut store, b, "bob");
    let game_id = finished_game(&mut store, a, b, T0);
    let now = T0 + 3_000_000;
    create_score(&mut store, a, now, Score { game_id, player: a, player_points: 10, created_at: now })
        .unwrap();
    create_score(&mut store, b, now, Score { game_id, player: b, player_points: 7, created_at: now })
        .unwrap();
    assert_eq!(get_scores_for_game(&store, game_id).unwrap().len(), 2);
    assert_eq!(get_scores_for_player(&store, a).len(), 1);
    assert_eq!(get_scores_for_player(&store, b).len(), 1);
    assert_eq!(get_scores_for_game(&store, 999).unwrap_err(), Error::NotFound);
}

#[test]
fn statistics_follow_the_same_gate() {
    let mut store = Store::new();
    let a = AgentKey(1);
    let b = AgentKey(2);
    let c = AgentKey(3);
    register(&mut store, a, "alice");
    register(&mut store, b, "bob");
    register(&mut store, c, "carol");
    let game_id = finished_game(&mut store, a, b, T0);
    let now = T0 + 3_000_000;
    let stats = Statistics {
        game_id,
        timestamp: 0,
        signal_latency: 40,
        score_validation_time: 10,
        dht_response_time: 25,
        network_delay: 12,
    };
    // Only participants may record statistics.
    let outsider = create_statistics(&mut store, c, now, stats);
    assert_eq!(outsider.unwrap_err(), Error::Unauthorized);
    let rec = create_statistics(&mut store, a, now, stats).expect("participant may record");
    // The embedded time is stamped with the commit time.
    match &rec.entry {
        EntryTypes::Statistics(st) => {
            assert_eq!(st.timestamp, now);
            assert_eq!(st.signal_latency, 40);
        },
        _ => panic!("expected a statistics entry"),
    }
    assert_eq!(get_statistics_for_game(&store, game_id).unwrap().len(), 1);
}

#[test]
fn leaderboard_orders_by_points_then_games_then_key() {
    let mut store = Store::new();
    let a = AgentKey(1);
    let b = AgentKey(2);
    register(&mut store, a, "alice");
    register(&mut store, b, "bob");
    // Two finished games; A scores 10 and 5 over two games, B scores 12 in
    // one game and records nothing for the second.
    let g1 = finished_game(&mut store, a, b, T0);
    let now1 = T0 + 3_000_000;
    create_score(&mut store, a, now1, Score { game_id: g1, player: a, player_points: 10, created_at: now1 })
        .unwrap();
    create_score(&mut store, b, now1, Score { game_id: g1, player: b, player_points: 12, created_at: now1 })
        .unwrap();
    let g2 = finished_game(&mut store, a, b, T0 + 10_000_000);
    let now2 = T0 + 14_000_000;
    create_score(&mut store, a, now2, Score { game_id: g2, player: a, player_points: 5, created_at: now2 })
        .unwrap();
    let board = get_leaderboard_data(&store);
    assert_eq!(board.len(), 2);
    // A holds 15 points over two games, B holds 12 over one: A leads.
    assert_eq!(board[0].player_key, a);
    assert_eq!(board[0].total_points, 15);
    assert_eq!(board[0].games_played, 2);
    assert_eq!(board[1].player_key, b);
    assert_eq!(board[1].total_points, 12);
    assert_eq!(board[1].games_played, 1);
}
