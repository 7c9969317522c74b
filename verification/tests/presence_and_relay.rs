use ping_2_pong::chat::send_global_chat_message;
use ping_2_pong::game::{create_game, join_game};
use ping_2_pong::invitations::send_invitation;
use ping_2_pong::player::create_player;
use ping_2_pong::presence::{get_online_users, publish_presence};
use ping_2_pong::signals::{broadcast_to_opponents, receive_remote_signal, send_ball_update,
    send_game_abandoned_signal, send_game_over, send_paddle_update};
use ping_2_pong::store::Store;
use ping_2_pong::types::{AgentKey, BallUpdatePayload, CreateGameInput, GameAbandonedPayload,
    GameOverPayload, InvitationPayload, PaddleUpdatePayload, Player, Signal};
use ping_2_pong::Error;

const T0: i64 = 1_700_000_000_000_000;

fn register(store: &mut Store, key: AgentKey, name: &str) {
    let player = Player { player_key: key, player_name: name.to_string() };
    create_player(store, key, T0, player).expect("registration should succeed");
}

#[test]
fn online_set_applies_the_thirty_second_cutoff() {
    // A heartbeat ten seconds old is online; one forty seconds old is not,
    // given the thirty-second window.
    let mut store = Store::new();
    let fresh = AgentKey(1);
    let stale = AgentKey(2);
    let now_us = T0;
    let now_ms = now_us / 1000;
    publish_presence(&mut store, stale, now_us - 40_000_000).unwrap();
    publish_presence(&mut store, fresh, now_us - 10_000_000).unwrap();
    let online = get_online_users(&store, now_ms);
    assert_eq!(online, vec![fresh]);
}

#[test]
fn online_set_deduplicates_agents() {
    let mut store = Store::new();
    let a = AgentKey(1);
    publish_presence(&mut store, a, T0 - 5_000_000).unwrap();
    publish_presence(&mut store, a, T0 - 1_000_000).unwrap();
    let online = get_online_users(&store, T0 / 1000);
    assert_eq!(online, vec![a]);
    // A clock before the epoch cannot be published.
    assert_eq!(publish_presence(&mut store, a, -2_000).unwrap_err(), Error::MalformedData);
}

#[test]
fn latency_is_measured_and_anomalies_are_tolerated() {
    let sent_at = T0;
    let received_at = T0 + 2_500_000;
    let signal = Signal::PaddleUpdate { game_id: 0, player: AgentKey(1), paddle_y: 40, sent_at };
    let received = receive_remote_signal(signal, received_at);
    // 2.5 million microseconds one way: 2500 milliseconds.
    assert_eq!(received.latency_ms, Some(2500));
    match received.emit {
        Signal::PaddleUpdate { paddle_y, .. } => assert_eq!(paddle_y, 40),
        _ => panic!("the same signal is re-emitted"),
    }
    // A send time after the receive time is a metrics-only anomaly: no
    // latency, but the signal still comes through.
    let late = Signal::BallUpdate {
        game_id: 0,
        ball_x: 1,
        ball_y: 2,
        ball_dx: 3,
        ball_dy: 4,
        sent_at: received_at + 1,
    };
    let received2 = receive_remote_signal(late, received_at);
    assert_eq!(received2.latency_ms, None);
    match received2.emit {
        Signal::BallUpdate { ball_x, .. } => assert_eq!(ball_x, 1),
        _ => panic!("the same signal is re-emitted"),
    }
    // An abandonment notice carries no latency field at all.
    let notice = Signal::GameAbandoned { game_id: 0, abandoned_by_player: AgentKey(1) };
    assert_eq!(receive_remote_signal(notice, received_at).latency_ms, None);
}

#[test]
fn relay_targets_the_opponent_only() {
    let mut store = Store::new();
    let a = AgentKey(1);
    let b = AgentKey(2);
    register(&mut store, a, "alice");
    register(&mut store, b, "bob");
    let input = CreateGameInput { player_1: a, player_2: None };
    let game_id = create_game(&mut store, a, T0, input).unwrap().hash;
    join_game(&mut store, b, T0 + 1_000_000, game_id).unwrap();
    assert_eq!(broadcast_to_opponents(&store, game_id, a).unwrap(), vec![b]);
    assert_eq!(broadcast_to_opponents(&store, game_id, b).unwrap(), vec![a]);
    assert_eq!(broadcast_to_opponents(&store, 999, a).unwrap_err(), Error::NotFound);

    let paddle = send_paddle_update(
        &store,
        a,
        T0 + 2_000_000,
        PaddleUpdatePayload { game_id, paddle_y: 120, sent_at: 0 },
    )
    .unwrap();
    assert_eq!(paddle.recipients, vec![b]);
    match paddle.signal {
        Signal::PaddleUpdate { player, paddle_y, sent_at, .. } => {
            assert_eq!(player, a);
            assert_eq!(paddle_y, 120);
            assert_eq!(sent_at, T0 + 2_000_000);
        },
        _ => panic!("expected a paddle signal"),
    }
    let ball = send_ball_update(
        &store,
        b,
        T0 + 2_100_000,
        BallUpdatePayload { game_id, sent_at: 0, ball_x: 5, ball_y: 6, ball_dx: -1, ball_dy: 2 },
    )
    .unwrap();
    assert_eq!(ball.recipients, vec![a]);
    let over = send_game_over(
        &store,
        a,
        T0 + 3_000_000,
        GameOverPayload { game_id, winner: Some(b), score1: 7, score2: 10, sent_at: 0 },
    )
    .unwrap();
    assert_eq!(over.recipients, vec![b]);
    let running = ping_2_pong::signals::send_score_update(
        &store,
        a,
        T0 + 2_200_000,
        GameOverPayload { game_id, winner: None, score1: 3, score2: 4, sent_at: 0 },
    )
    .unwrap();
    assert_eq!(running.recipients, vec![b]);
    match running.signal {
        Signal::ScoreUpdate { score1, score2, sent_at, .. } => {
            assert_eq!((score1, score2), (3, 4));
            assert_eq!(sent_at, T0 + 2_200_000);
        },
        _ => panic!("expected a score signal"),
    }
    let gone = send_game_abandoned_signal(&store, b, GameAbandonedPayload { game_id }).unwrap();
    assert_eq!(gone.recipients, vec![a]);
    match gone.signal {
        Signal::GameAbandoned { abandoned_by_player, .. } => assert_eq!(abandoned_by_player, b),
        _ => panic!("expected an abandonment notice"),
    }
}

#[test]
fn invitations_and_chat_fan_out() {
    let mut store = Store::new();
    let a = AgentKey(1);
    let b = AgentKey(2);
    let c = AgentKey(3);
    register(&mut store, a, "alice");
    register(&mut store, b, "bob");
    register(&mut store, c, "carol");
    let invite = send_invitation(
        a,
        InvitationPayload { game_id: 4, invitee: b, message: "play?".to_string() },
    );
    assert_eq!(invite.recipients, vec![b]);
    match invite.signal {
        Signal::GameInvitation { inviter, message, .. } => {
            assert_eq!(inviter, a);
            assert_eq!(message, "play?");
        },
        _ => panic!("expected an invitation"),
    }
    // Chat goes to every registered player but the sender.
    let chat = send_global_chat_message(&store, a, T0, "hello".to_string());
    assert_eq!(chat.recipients, vec![b, c]);
}
