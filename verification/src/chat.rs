//! Global chat: one fire-and-forget line offered to every registered
//! player over the relay.

use vstd::prelude::*;

use crate::player::{all_players_anchor, get_all_player_pubkeys, spec_agent_targets};
use crate::store::Store;
use crate::types::{AgentKey, ChatMessagePayload, LinkTypes, Signal, SignalSend};

verus! {

/// A roster with the sender taken out, in roster order.
pub open spec fn spec_without(keys: Seq<AgentKey>, me: AgentKey) -> Seq<AgentKey>
    decreases keys.len(),
{
    if keys.len() == 0 {
        Seq::empty()
    } else {
        let rest = spec_without(keys.drop_last(), me);
        if keys.last() != me {
            rest.push(keys.last())
        } else {
            rest
        }
    }
}

/// Broadcast a chat line: stamped, shown to the sender's own UI, and
/// offered to every other registered player over best-effort unicast.
pub fn send_global_chat_message(store: &Store, me: AgentKey, now: i64, content: String) -> (r:
    SignalSend)
    requires
        store.wf(),
    ensures
        r.signal == Signal::GlobalChatMessage(
            ChatMessagePayload { timestamp: now, sender: me, content },
        ),
        r.recipients@ == spec_without(
            spec_agent_targets(
                store.spec_anchor_links(
                    all_players_anchor(),
                    LinkTypes::AllPlayersAnchorToAgentPubKey,
                ),
            ),
            me,
        ),
{
    let keys = get_all_player_pubkeys(store);
    let ghost ks = keys@;
    let mut recipients: Vec<AgentKey> = Vec::new();
    let mut i: usize = 0;
    while i < keys.len()
        invariant
            i <= ks.len(),
            keys@ == ks,
            recipients@ == spec_without(ks.take(i as int), me),
        decreases ks.len() - i,
    {
        proof {
            assert(ks.take(i + 1).drop_last() =~= ks.take(i as int));
            assert(ks.take(i + 1).last() == ks[i as int]);
        }
        let k = keys[i];
        if !(k == me) {
            recipients.push(k);
        }
        i += 1;
    }
    proof {
        assert(ks.take(ks.len() as int) =~= ks);
    }
    let signal = Signal::GlobalChatMessage(
        ChatMessagePayload { timestamp: now, sender: me, content },
    );
    SignalSend { signal, recipients }
}

} // verus!
