//! Invitations: direct game offers between two players, carried over the
//! ephemeral relay, and acceptance by joining the offered game.

use vstd::prelude::*;

use crate::game::{join_game, spec_join_game_check};
use crate::store::Store;
use crate::types::{AcceptInvitationPayload, AgentKey, InvitationPayload, Record, Signal,
    SignalSend};
use crate::Error;

verus! {

/// Offer a game to another player: the invitation signal is shown to the
/// inviter's own UI and offered to the invitee over the relay. Delivery is
/// best-effort; a lost invitation is simply never answered.
pub fn send_invitation(me: AgentKey, payload: InvitationPayload) -> (r: SignalSend)
    ensures
        r.signal == (Signal::GameInvitation {
            game_id: payload.game_id,
            inviter: me,
            message: payload.message,
        }),
        r.recipients@ == (seq![payload.invitee]),
{
    let invitee = payload.invitee;
    let signal = Signal::GameInvitation {
        game_id: payload.game_id,
        inviter: me,
        message: payload.message,
    };
    let mut recipients: Vec<AgentKey> = Vec::new();
    recipients.push(invitee);
    proof {
        assert(recipients@ =~= seq![invitee]);
    }
    SignalSend { signal, recipients }
}

/// Accept an invitation by joining the offered game. The join's start
/// notification is handed back for the relay.
pub fn accept_invitation(
    store: &mut Store,
    caller: AgentKey,
    now: i64,
    payload: AcceptInvitationPayload,
) -> (r: Result<SignalSend, Error>)
    requires
        old(store).wf(),
    ensures
        final(store).wf(),
        r is Ok <==> spec_join_game_check(*old(store), caller, payload.game_id) is Ok,
        r matches Result::Err(e) ==> spec_join_game_check(*old(store), caller, payload.game_id)
            == Result::<Record, Error>::Err(e) && *final(store) == *old(store),
        r matches Result::Ok(send) ==> {
            let tip = spec_join_game_check(*old(store), caller, payload.game_id)->Ok_0;
            &&& send.signal == Signal::GameStarted {
                game_id: payload.game_id,
                player_1: tip.entry->Game_0.player_1,
                player_2: caller,
            }
            &&& send.recipients@ == seq![tip.entry->Game_0.player_1]
            &&& final(store).recs().len() == old(store).recs().len() + 1
        },
{
    match join_game(store, caller, now, payload.game_id) {
        Result::Ok((_record, send)) => Ok(send),
        Result::Err(e) => Err(e),
    }
}

} // verus!
