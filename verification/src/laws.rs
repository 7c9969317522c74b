//! Laws of the revision model and the game lifecycle, proved once and for
//! all over the store model: what latest-resolution returns after an
//! update, the stability of original-resolution, the monotone status
//! lifecycle, the join handshake, and per-agent profile uniqueness.

use vstd::prelude::*;

use crate::entity::{pick_latest, spec_resolve_latest, spec_resolve_original};
use crate::game::{spec_join_game_check, spec_joined_game};
use crate::player::{player_has_profile, spec_create_player_check};
use crate::store::{record_wf_at, Store};
use crate::types::{AgentKey, EntryTypes, Game, Link, LinkBase, LinkTarget, LinkTypes, Player,
    RecordHash};
use crate::validation::{spec_validate_update_game, status_rank};
use crate::Error;

verus! {

/// For an entity created and then updated once — its update index holding
/// exactly one live link, pointing at a live update record — latest
/// resolution returns exactly that update record.
pub proof fn lemma_latest_after_single_update(
    s: Store,
    orig: RecordHash,
    l: Link,
    u: RecordHash,
    link_type: LinkTypes,
)
    requires
        s.spec_get_links(LinkBase::Record(orig), link_type) == seq![l],
        l.target == LinkTarget::Record(u),
        s.rec_live(u as int),
    ensures
        spec_resolve_latest(s, orig as int, link_type) == Result::<
            Option<crate::types::Record>,
            Error,
        >::Ok(Option::Some(s.recs()[u as int])),
{
    let ls = s.spec_get_links(LinkBase::Record(orig), link_type);
    assert(ls.drop_last() =~= Seq::<Link>::empty());
    assert(pick_latest(ls.drop_last()) is None);
    assert(pick_latest(ls) == Option::Some(l));
}

/// Original resolution never depends on later writes: any store extension
/// that keeps the existing records serves the same creation record, no
/// matter how many updates have been committed meanwhile.
pub proof fn lemma_resolve_original_stable(s1: Store, s2: Store, orig: int)
    requires
        0 <= orig < s1.recs().len(),
        s1.recs().len() <= s2.recs().len(),
        forall|i: int| 0 <= i < s1.recs().len() ==> #[trigger] s2.recs()[i] == s1.recs()[i],
    ensures
        spec_resolve_original(s2, orig) == spec_resolve_original(s1, orig),
        spec_resolve_original(s1, orig) == Option::Some(s1.recs()[orig]),
{
}

/// One accepted game update never moves the status backward: the new
/// revision ranks at least as high as the record it supersedes, strictly
/// except for the tolerated Finished-to-Finished informational update, and
/// no accepted update carries the Waiting status.
pub proof fn lemma_status_never_regresses(author: AgentKey, updated: Game, original: Game)
    requires
        spec_validate_update_game(author, updated, original) is Ok,
    ensures
        status_rank(original.game_status) <= status_rank(updated.game_status),
        updated.game_status == original.game_status ==> updated.game_status is Finished,
        !(updated.game_status is Waiting),
{
}

/// The games along a record's predecessor chain, root first. The chain
/// follows each update record to the record it declared superseded.
pub open spec fn revision_chain(s: Store, j: int) -> Seq<Game>
    decreases j,
    when 0 <= j
{
    if !(0 <= j < s.recs().len()) || !(s.recs()[j].entry is Game) {
        Seq::empty()
    } else {
        let g = s.recs()[j].entry->Game_0;
        match s.recs()[j].prev {
            Option::None => seq![g],
            Option::Some(p) => if 0 <= p < j {
                revision_chain(s, p as int).push(g)
            } else {
                seq![g]
            },
        }
    }
}

/// In a well-formed store, the statuses along any game's revision chain
/// form the lifecycle in order: the chain starts Waiting, ranks never
/// decrease from one revision to a later one, and Waiting never reappears
/// after the creation record.
pub proof fn lemma_chain_follows_lifecycle(s: Store, j: int)
    requires
        s.wf(),
        0 <= j < s.recs().len(),
        s.recs()[j].entry is Game,
    ensures
        ({
            let ch = revision_chain(s, j);
            &&& ch.len() > 0
            &&& ch[0].game_status is Waiting
            &&& forall|a: int, b: int|
                0 <= a <= b < ch.len() ==> status_rank(#[trigger] ch[a].game_status)
                    <= status_rank(#[trigger] ch[b].game_status)
            &&& forall|a: int| 1 <= a < ch.len() ==> !((#[trigger] ch[a]).game_status is Waiting)
        }),
    decreases j,
{
    let ch = revision_chain(s, j);
    let g = s.recs()[j].entry->Game_0;
    assert(record_wf_at(s.recs(), j));
    match s.recs()[j].prev {
        Option::None => {
            assert(ch =~= seq![g]);
        },
        Option::Some(p) => {
            assert(0 <= p < j);
            assert(record_wf_at(s.recs(), p as int));
            match s.recs()[p as int].entry {
                EntryTypes::Game(g0) => {
                    lemma_chain_follows_lifecycle(s, p as int);
                    let prev_ch = revision_chain(s, p as int);
                    assert(ch == prev_ch.push(g));
                    assert(prev_ch.last() == g0) by {
                        match s.recs()[p as int].prev {
                            Option::None => {},
                            Option::Some(_) => {},
                        }
                    }
                    lemma_status_never_regresses(s.recs()[j].author, g, g0);
                    assert forall|a: int, b: int| 0 <= a <= b < ch.len() implies status_rank(
                        #[trigger] ch[a].game_status,
                    ) <= status_rank(#[trigger] ch[b].game_status) by {
                        if b < ch.len() - 1 {
                            assert(ch[a] == prev_ch[a] && ch[b] == prev_ch[b]);
                        } else if a < ch.len() - 1 {
                            assert(ch[a] == prev_ch[a]);
                            assert(status_rank(prev_ch[a].game_status) <= status_rank(
                                prev_ch[prev_ch.len() - 1].game_status,
                            ));
                        }
                    }
                },
                _ => {
                    assert(false);
                },
            }
        },
    }
}

/// Whether link `i` of an entity's update index continues a linear
/// history: it targets a live game record that declares the previous
/// revision in link order — the original for the first link — as the
/// record it supersedes.
pub open spec fn link_in_history(s: Store, orig: RecordHash, ls: Seq<Link>, i: int) -> bool {
    let t = ls[i].target;
    &&& t is Record
    &&& s.rec_live(t->Record_0 as int)
    &&& s.recs()[t->Record_0 as int].entry is Game
    &&& s.recs()[t->Record_0 as int].prev == Option::Some(
        if i == 0 {
            orig
        } else {
            ls[i - 1].target->Record_0
        },
    )
}

/// Whether an entity's update links form a linear history. Concurrent
/// writers can break this; a single writer updating the tip preserves it.
pub open spec fn linear_history(s: Store, orig: RecordHash, ls: Seq<Link>) -> bool {
    forall|i: int| 0 <= i < ls.len() ==> #[trigger] link_in_history(s, orig, ls, i)
}

/// The game states observed when reading an entity's full history: the
/// original first, then the game behind each update link, in link order.
pub open spec fn observed_games(s: Store, orig: RecordHash, ls: Seq<Link>) -> Seq<Game>
    decreases ls.len(),
{
    if ls.len() == 0 {
        seq![s.recs()[orig as int].entry->Game_0]
    } else {
        observed_games(s, orig, ls.drop_last()).push(
            s.recs()[ls.last().target->Record_0 as int].entry->Game_0,
        )
    }
}

proof fn lemma_linear_history_prefix(s: Store, orig: RecordHash, ls: Seq<Link>)
    requires
        ls.len() > 0,
        linear_history(s, orig, ls),
    ensures
        linear_history(s, orig, ls.drop_last()),
{
    let prefix = ls.drop_last();
    assert forall|i: int| 0 <= i < prefix.len() implies #[trigger] link_in_history(
        s,
        orig,
        prefix,
        i,
    ) by {
        assert(link_in_history(s, orig, ls, i));
        assert(prefix[i] == ls[i]);
        if i > 0 {
            assert(prefix[i - 1] == ls[i - 1]);
        }
    }
}

/// Reading the full history of an entity with a linear history yields
/// exactly the live update records, one per link, in link order.
pub proof fn lemma_linear_history_records(s: Store, orig: RecordHash, ls: Seq<Link>)
    requires
        linear_history(s, orig, ls),
    ensures
        crate::entity::live_target_records(s, ls).len() == ls.len(),
        forall|i: int|
            0 <= i < ls.len() ==> #[trigger] crate::entity::live_target_records(s, ls)[i]
                == s.recs()[ls[i].target->Record_0 as int],
    decreases ls.len(),
{
    if ls.len() > 0 {
        lemma_linear_history_prefix(s, orig, ls);
        lemma_linear_history_records(s, orig, ls.drop_last());
        assert(link_in_history(s, orig, ls, ls.len() - 1));
        let t = ls.last().target->Record_0;
        assert(crate::entity::live_target_records(s, ls)
            == crate::entity::live_target_records(s, ls.drop_last()).push(s.recs()[t as int]));
        assert forall|i: int| 0 <= i < ls.len() implies #[trigger] crate::entity::live_target_records(
            s,
            ls,
        )[i] == s.recs()[ls[i].target->Record_0 as int] by {
            if i < ls.len() - 1 {
                assert(ls.drop_last()[i] == ls[i]);
            }
        }
    }
}

/// For all games with a linear history, the statuses observed by
/// full-history resolution form the lifecycle in order: Waiting first,
/// ranks never decreasing, and Waiting never reappearing after it.
pub proof fn lemma_linear_history_follows_lifecycle(s: Store, orig: RecordHash, ls: Seq<Link>)
    requires
        s.wf(),
        orig < s.recs().len(),
        s.recs()[orig as int].prev is None,
        s.recs()[orig as int].entry is Game,
        linear_history(s, orig, ls),
    ensures
        ({
            let obs = observed_games(s, orig, ls);
            &&& obs.len() == ls.len() + 1
            &&& obs[0].game_status is Waiting
            &&& forall|a: int, b: int|
                0 <= a <= b < obs.len() ==> status_rank(#[trigger] obs[a].game_status)
                    <= status_rank(#[trigger] obs[b].game_status)
            &&& forall|a: int| 1 <= a < obs.len() ==> !((#[trigger] obs[a]).game_status is Waiting)
        }),
    decreases ls.len(),
{
    let obs = observed_games(s, orig, ls);
    if ls.len() == 0 {
        assert(record_wf_at(s.recs(), orig as int));
        assert(obs =~= seq![s.recs()[orig as int].entry->Game_0]);
    } else {
        let prefix = ls.drop_last();
        lemma_linear_history_prefix(s, orig, ls);
        lemma_linear_history_follows_lifecycle(s, orig, prefix);
        let n = ls.len() as int;
        assert(link_in_history(s, orig, ls, n - 1));
        let t = ls[n - 1].target->Record_0;
        let g = s.recs()[t as int].entry->Game_0;
        let prev_obs = observed_games(s, orig, prefix);
        assert(obs == prev_obs.push(g));
        assert(record_wf_at(s.recs(), t as int));
        let p = s.recs()[t as int].prev->0;
        let g0 = s.recs()[p as int].entry->Game_0;
        assert(prev_obs.last() == g0) by {
            if n - 1 == 0 {
                assert(prev_obs =~= seq![s.recs()[orig as int].entry->Game_0]);
            } else {
                assert(link_in_history(s, orig, ls, n - 2));
                assert(prefix.last() == ls[n - 2]);
                assert(prefix.drop_last() =~= ls.take(n - 2));
            }
        }
        assert(s.recs()[p as int].entry == EntryTypes::Game(g0)) by {
            if n - 1 == 0 {
            } else {
                assert(link_in_history(s, orig, ls, n - 2));
            }
        }
        lemma_status_never_regresses(s.recs()[t as int].author, g, g0);
        assert forall|a: int, b: int| 0 <= a <= b < obs.len() implies status_rank(
            #[trigger] obs[a].game_status,
        ) <= status_rank(#[trigger] obs[b].game_status) by {
            if b < obs.len() - 1 {
                assert(obs[a] == prev_obs[a] && obs[b] == prev_obs[b]);
            } else if a < obs.len() - 1 {
                assert(obs[a] == prev_obs[a]);
                assert(status_rank(prev_obs[a].game_status) <= status_rank(
                    prev_obs[prev_obs.len() - 1].game_status,
                ));
            }
        }
    }
}

/// Joining a Waiting game whose update index was empty yields a latest
/// state that is InProgress with the joiner seated as player 2; from that
/// moment every further join attempt, by anyone, fails with InvalidState.
pub proof fn lemma_join_starts_game(
    s2: Store,
    orig: RecordHash,
    l: Link,
    u: RecordHash,
    joiner: AgentKey,
    cur: Game,
)
    requires
        s2.spec_get_links(LinkBase::Record(orig), LinkTypes::GameUpdates) == seq![l],
        l.target == LinkTarget::Record(u),
        s2.rec_live(u as int),
        s2.recs()[u as int].entry == EntryTypes::Game(spec_joined_game(cur, joiner)),
    ensures
        ({
            let latest = spec_resolve_latest(s2, orig as int, LinkTypes::GameUpdates);
            &&& latest == Result::<Option<crate::types::Record>, Error>::Ok(
                Option::Some(s2.recs()[u as int]),
            )
            &&& latest->Ok_0->Some_0.entry->Game_0.game_status is InProgress
            &&& latest->Ok_0->Some_0.entry->Game_0.player_2 == Option::Some(joiner)
            &&& forall|third: AgentKey|
                #[trigger] spec_join_game_check(s2, third, orig) == Result::<
                    crate::types::Record,
                    Error,
                >::Err(Error::InvalidState)
        }),
{
    lemma_latest_after_single_update(s2, orig, l, u, LinkTypes::GameUpdates);
}

/// A profile is unique per agent: once an agent holds one, any further
/// registration for that agent fails with Conflict, whatever name the new
/// profile carries.
pub proof fn lemma_profile_unique_per_agent(s: Store, caller: AgentKey, q: Player)
    requires
        q.player_key == caller,
        player_has_profile(s, caller),
    ensures
        spec_create_player_check(s, caller, q) == Result::<(), Error>::Err(Error::Conflict),
{
}

} // verus!
