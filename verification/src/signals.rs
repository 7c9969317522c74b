//! The real-time relay: construction of ephemeral signals, selection of
//! their recipients, and latency accounting on receipt. Signals bypass the
//! validated store entirely; delivery is best-effort unicast with no retry
//! and no ordering guarantee, and a failed delivery never fails the
//! operation that produced the signal.

use vstd::prelude::*;

use crate::entity::spec_resolve_latest;
use crate::game::get_latest_game;
use crate::store::Store;
use crate::types::{AgentKey, BallUpdatePayload, Committed, EntryTypes, Game, GameAbandonedPayload,
    GameOverPayload, LinkTypes, PaddleUpdatePayload, Record, RecordHash, Signal, SignalSend};
use crate::Error;

verus! {

/// What a signal receipt yields: the signal re-emitted for the local UI,
/// and the measured one-way latency where the signal carries a send time.
pub struct Received {
    pub emit: Signal,
    pub latency_ms: Option<u64>,
}

/// The one-way latency measured on receipt. Peer clocks are not corrected
/// for, so a send time after the receive time is a metrics-only anomaly:
/// no latency is recorded, and the signal is still delivered.
pub open spec fn spec_latency(signal: Signal, received_at: int) -> Option<u64> {
    match signal {
        Signal::PaddleUpdate { sent_at, .. } => spec_delta_ms(sent_at as int, received_at),
        Signal::BallUpdate { sent_at, .. } => spec_delta_ms(sent_at as int, received_at),
        Signal::ScoreUpdate { sent_at, .. } => spec_delta_ms(sent_at as int, received_at),
        Signal::GameOver { sent_at, .. } => spec_delta_ms(sent_at as int, received_at),
        _ => Option::None,
    }
}

/// The millisecond delta between two microsecond stamps, when it is not
/// negative.
pub open spec fn spec_delta_ms(sent_at: int, received_at: int) -> Option<u64> {
    if sent_at <= received_at {
        Option::Some(((received_at - sent_at) / 1000) as u64)
    } else {
        Option::None
    }
}

fn delta_ms(sent_at: i64, received_at: i64) -> (r: Option<u64>)
    ensures
        r == spec_delta_ms(sent_at as int, received_at as int),
{
    let diff: i128 = received_at as i128 - sent_at as i128;
    if diff < 0 {
        None
    } else {
        let ms: i128 = diff / 1000;
        proof {
            assert(ms == (received_at - sent_at) as int / 1000);
        }
        Some(ms as u64)
    }
}

/// Receive a relayed signal: account its latency and re-emit it for the
/// local UI.
pub fn receive_remote_signal(signal: Signal, received_at: i64) -> (r: Received)
    ensures
        r.emit == signal,
        r.latency_ms == spec_latency(signal, received_at as int),
{
    let latency_ms = match &signal {
        Signal::PaddleUpdate { sent_at, .. } => delta_ms(*sent_at, received_at),
        Signal::BallUpdate { sent_at, .. } => delta_ms(*sent_at, received_at),
        Signal::ScoreUpdate { sent_at, .. } => delta_ms(*sent_at, received_at),
        Signal::GameOver { sent_at, .. } => delta_ms(*sent_at, received_at),
        _ => None,
    };
    Received { emit: signal, latency_ms }
}

/// The participants of a game other than the sender, in seat order.
pub open spec fn spec_opponents(g: Game, me: AgentKey) -> Seq<AgentKey> {
    let first = if g.player_1 != me {
        seq![g.player_1]
    } else {
        Seq::empty()
    };
    match g.player_2 {
        Option::Some(p) => if p != me {
            first.push(p)
        } else {
            first
        },
        Option::None => first,
    }
}

/// The outcome of resolving a game for the relay: who is to be called.
pub open spec fn spec_broadcast_check(s: Store, game_id: RecordHash, me: AgentKey) -> Result<
    Seq<AgentKey>,
    Error,
> {
    match spec_resolve_latest(s, game_id as int, LinkTypes::GameUpdates) {
        Result::Err(e) => Result::Err(e),
        Result::Ok(Option::None) => Result::Err(Error::NotFound),
        Result::Ok(Option::Some(rec)) => match rec.entry {
            EntryTypes::Game(g) => Result::Ok(spec_opponents(g, me)),
            _ => Result::Err(Error::MalformedData),
        },
    }
}

/// Resolve the game's current participant set and select every participant
/// other than the sender as a unicast recipient.
pub fn broadcast_to_opponents(store: &Store, game_id: RecordHash, me: AgentKey) -> (r: Result<
    Vec<AgentKey>,
    Error,
>)
    ensures
        match r {
            Result::Ok(v) => spec_broadcast_check(*store, game_id, me) == Result::<
                Seq<AgentKey>,
                Error,
            >::Ok(v@),
            Result::Err(e) => spec_broadcast_check(*store, game_id, me) == Result::<
                Seq<AgentKey>,
                Error,
            >::Err(e),
        },
{
    let g: Game = match get_latest_game(store, game_id) {
        Result::Err(e) => {
            return Err(e);
        },
        Result::Ok(Option::None) => {
            return Err(Error::NotFound);
        },
        Result::Ok(Option::Some(rec)) => match &rec.entry {
            EntryTypes::Game(gm) => *gm,
            _ => {
                return Err(Error::MalformedData);
            },
        },
    };
    let mut recipients: Vec<AgentKey> = Vec::new();
    if !(g.player_1 == me) {
        recipients.push(g.player_1);
    }
    if let Option::Some(p) = g.player_2 {
        if !(p == me) {
            recipients.push(p);
        }
    }
    proof {
        assert(recipients@ =~= spec_opponents(g, me));
    }
    Ok(recipients)
}

/// Stamp and relay a paddle position: emitted locally and offered to every
/// opponent.
pub fn send_paddle_update(store: &Store, me: AgentKey, now: i64, payload: PaddleUpdatePayload) -> (r:
    Result<SignalSend, Error>)
    ensures
        match r {
            Result::Ok(send) => {
                &&& send.signal == Signal::PaddleUpdate {
                    game_id: payload.game_id,
                    player: me,
                    paddle_y: payload.paddle_y,
                    sent_at: now,
                }
                &&& spec_broadcast_check(*store, payload.game_id, me) == Result::<
                    Seq<AgentKey>,
                    Error,
                >::Ok(send.recipients@)
            },
            Result::Err(e) => spec_broadcast_check(*store, payload.game_id, me) == Result::<
                Seq<AgentKey>,
                Error,
            >::Err(e),
        },
{
    let recipients = broadcast_to_opponents(store, payload.game_id, me)?;
    let signal = Signal::PaddleUpdate {
        game_id: payload.game_id,
        player: me,
        paddle_y: payload.paddle_y,
        sent_at: now,
    };
    Ok(SignalSend { signal, recipients })
}

/// Stamp and relay a ball position.
pub fn send_ball_update(store: &Store, me: AgentKey, now: i64, payload: BallUpdatePayload) -> (r:
    Result<SignalSend, Error>)
    ensures
        match r {
            Result::Ok(send) => {
                &&& send.signal == Signal::BallUpdate {
                    game_id: payload.game_id,
                    ball_x: payload.ball_x,
                    ball_y: payload.ball_y,
                    ball_dx: payload.ball_dx,
                    ball_dy: payload.ball_dy,
                    sent_at: now,
                }
                &&& spec_broadcast_check(*store, payload.game_id, me) == Result::<
                    Seq<AgentKey>,
                    Error,
                >::Ok(send.recipients@)
            },
            Result::Err(e) => spec_broadcast_check(*store, payload.game_id, me) == Result::<
                Seq<AgentKey>,
                Error,
            >::Err(e),
        },
{
    let recipients = broadcast_to_opponents(store, payload.game_id, me)?;
    let signal = Signal::BallUpdate {
        game_id: payload.game_id,
        ball_x: payload.ball_x,
        ball_y: payload.ball_y,
        ball_dx: payload.ball_dx,
        ball_dy: payload.ball_dy,
        sent_at: now,
    };
    Ok(SignalSend { signal, recipients })
}

/// Stamp and relay the running score.
pub fn send_score_update(store: &Store, me: AgentKey, now: i64, payload: GameOverPayload) -> (r:
    Result<SignalSend, Error>)
    ensures
        match r {
            Result::Ok(send) => {
                &&& send.signal == Signal::ScoreUpdate {
                    game_id: payload.game_id,
                    score1: payload.score1,
                    score2: payload.score2,
                    sent_at: now,
                }
                &&& spec_broadcast_check(*store, payload.game_id, me) == Result::<
                    Seq<AgentKey>,
                    Error,
                >::Ok(send.recipients@)
            },
            Result::Err(e) => spec_broadcast_check(*store, payload.game_id, me) == Result::<
                Seq<AgentKey>,
                Error,
            >::Err(e),
        },
{
    let recipients = broadcast_to_opponents(store, payload.game_id, me)?;
    let signal = Signal::ScoreUpdate {
        game_id: payload.game_id,
        score1: payload.score1,
        score2: payload.score2,
        sent_at: now,
    };
    Ok(SignalSend { signal, recipients })
}

/// Stamp and relay the end-of-game notice.
pub fn send_game_over(store: &Store, me: AgentKey, now: i64, payload: GameOverPayload) -> (r:
    Result<SignalSend, Error>)
    ensures
        match r {
            Result::Ok(send) => {
                &&& send.signal == Signal::GameOver {
                    game_id: payload.game_id,
                    winner: payload.winner,
                    score1: payload.score1,
                    score2: payload.score2,
                    sent_at: now,
                }
                &&& spec_broadcast_check(*store, payload.game_id, me) == Result::<
                    Seq<AgentKey>,
                    Error,
                >::Ok(send.recipients@)
            },
            Result::Err(e) => spec_broadcast_check(*store, payload.game_id, me) == Result::<
                Seq<AgentKey>,
                Error,
            >::Err(e),
        },
{
    let recipients = broadcast_to_opponents(store, payload.game_id, me)?;
    let signal = Signal::GameOver {
        game_id: payload.game_id,
        winner: payload.winner,
        score1: payload.score1,
        score2: payload.score2,
        sent_at: now,
    };
    Ok(SignalSend { signal, recipients })
}

/// Relay an abandonment notice; it carries no latency field.
pub fn send_game_abandoned_signal(store: &Store, me: AgentKey, payload: GameAbandonedPayload) -> (r:
    Result<SignalSend, Error>)
    ensures
        match r {
            Result::Ok(send) => {
                &&& send.signal == Signal::GameAbandoned {
                    game_id: payload.game_id,
                    abandoned_by_player: me,
                }
                &&& spec_broadcast_check(*store, payload.game_id, me) == Result::<
                    Seq<AgentKey>,
                    Error,
                >::Ok(send.recipients@)
            },
            Result::Err(e) => spec_broadcast_check(*store, payload.game_id, me) == Result::<
                Seq<AgentKey>,
                Error,
            >::Err(e),
        },
{
    let recipients = broadcast_to_opponents(store, payload.game_id, me)?;
    let signal = Signal::GameAbandoned { game_id: payload.game_id, abandoned_by_player: me };
    Ok(SignalSend { signal, recipients })
}

/// The UI notification that one committed action produces, if any.
pub open spec fn spec_signal_action(s: Store, c: Committed) -> Option<Signal> {
    match c {
        Committed::LinkCreated(i) => if 0 <= i < s.lnks().len() {
            Option::Some(
                Signal::LinkCreated { create_hash: i, link_type: s.lnks()[i as int].link_type },
            )
        } else {
            Option::None
        },
        Committed::LinkDeleted(i) => if 0 <= i < s.lnks().len() {
            Option::Some(
                Signal::LinkDeleted { create_hash: i, link_type: s.lnks()[i as int].link_type },
            )
        } else {
            Option::None
        },
        Committed::Record(h) => if 0 <= h < s.recs().len() {
            let rec = s.recs()[h as int];
            match rec.prev {
                Option::None => Option::Some(
                    Signal::EntryCreated { hash: h, app_entry: rec.entry },
                ),
                Option::Some(p) => if p < s.recs().len() {
                    Option::Some(
                        Signal::EntryUpdated {
                            hash: h,
                            app_entry: rec.entry,
                            original_app_entry: s.recs()[p as int].entry,
                        },
                    )
                } else {
                    Option::None
                },
            }
        } else {
            Option::None
        },
        Committed::RecordDeleted(h) => if 0 <= h < s.recs().len() {
            Option::Some(
                Signal::EntryDeleted { hash: h, original_app_entry: s.recs()[h as int].entry },
            )
        } else {
            Option::None
        },
    }
}

/// The payload of a committed record, for signal construction.
pub fn get_entry_for_action(store: &Store, action_hash: RecordHash) -> (r: Option<EntryTypes>)
    ensures
        match r {
            Option::Some(e) => action_hash < store.recs().len() && e == store.recs()[action_hash as int].entry,
            Option::None => action_hash >= store.recs().len(),
        },
{
    match store.get_record(action_hash) {
        Option::Some(rec) => Option::Some(rec.entry.clone()),
        Option::None => Option::None,
    }
}

/// Turn one committed action into its UI notification.
pub fn signal_action(store: &Store, committed: Committed) -> (r: Option<Signal>)
    ensures
        r == spec_signal_action(*store, committed),
{
    match committed {
        Committed::LinkCreated(i) => {
            if i < store.links.len() {
                Some(
                    Signal::LinkCreated {
                        create_hash: i,
                        link_type: store.links[i].link.link_type,
                    },
                )
            } else {
                None
            }
        },
        Committed::LinkDeleted(i) => {
            if i < store.links.len() {
                Some(
                    Signal::LinkDeleted {
                        create_hash: i,
                        link_type: store.links[i].link.link_type,
                    },
                )
            } else {
                None
            }
        },
        Committed::Record(h) => {
            match store.get_record(h) {
                Option::None => None,
                Option::Some(rec) => {
                    let prev = rec.prev;
                    let entry = rec.entry.clone();
                    match prev {
                        Option::None => Some(Signal::EntryCreated { hash: h, app_entry: entry }),
                        Option::Some(p) => {
                            match get_entry_for_action(store, p) {
                                Option::Some(original) => Some(
                                    Signal::EntryUpdated {
                                        hash: h,
                                        app_entry: entry,
                                        original_app_entry: original,
                                    },
                                ),
                                Option::None => None,
                            }
                        },
                    }
                },
            }
        },
        Committed::RecordDeleted(h) => {
            match store.get_record(h) {
                Option::Some(rec) => Some(
                    Signal::EntryDeleted { hash: h, original_app_entry: rec.entry.clone() },
                ),
                Option::None => None,
            }
        },
    }
}

/// The UI notifications for a batch of committed actions, in commit order;
/// actions that produce none are skipped.
pub open spec fn spec_post_commit(s: Store, cs: Seq<Committed>) -> Seq<Signal>
    decreases cs.len(),
{
    if cs.len() == 0 {
        Seq::empty()
    } else {
        let rest = spec_post_commit(s, cs.drop_last());
        match spec_signal_action(s, cs.last()) {
            Option::Some(sig) => rest.push(sig),
            Option::None => rest,
        }
    }
}

/// Turn every committed action of a batch into its UI notification.
pub fn post_commit(store: &Store, committed_actions: &Vec<Committed>) -> (r: Vec<Signal>)
    ensures
        r@ == spec_post_commit(*store, committed_actions@),
{
    let ghost cs = committed_actions@;
    let mut out: Vec<Signal> = Vec::new();
    let mut i: usize = 0;
    while i < committed_actions.len()
        invariant
            i <= cs.len(),
            committed_actions@ == cs,
            out@ == spec_post_commit(*store, cs.take(i as int)),
        decreases cs.len() - i,
    {
        proof {
            assert(cs.take(i + 1).drop_last() =~= cs.take(i as int));
            assert(cs.take(i + 1).last() == cs[i as int]);
        }
        match signal_action(store, committed_actions[i]) {
            Option::Some(sig) => {
                out.push(sig);
            },
            Option::None => {},
        }
        i += 1;
    }
    proof {
        assert(cs.take(cs.len() as int) =~= cs);
    }
    out
}

} // verus!
