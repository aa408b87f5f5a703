//! The laws of the bridge: properties that hold of every input, proved once
//! and for all against the functional model that the executable functions
//! are pinned to.

use vstd::prelude::*;

use crate::channel_map::{
    binding, bindings_wf, colliding, lemma_filter_keeps_no_key, lemma_filter_preserves_wf,
    lemma_lookup_backend_none_iff, lemma_lookup_backend_some_iff, lemma_register_adds,
    lemma_register_keeps, lemma_register_preserves_wf, lemma_unregister_keeps,
    lemma_unregister_removes_key, spec_lookup_backend, spec_lookup_platform, spec_register,
    spec_resolve_backend, spec_unregister, Binding,
};
use crate::events::{BackendEventView, ChannelIdentityView};
use crate::translator::{
    lemma_join_map_push, spec_join_events, spec_join_map, spec_leave_events, spec_leave_map,
    spec_message_events, spec_send_actions,
};

verus! {

/// A guild-join payload with pairwise distinct channels: no platform channel
/// and no backend identity is listed twice.
pub open spec fn distinct_channels(cs: Seq<ChannelIdentityView>) -> bool {
    forall|k1: int, k2: int|
        #![trigger cs[k1], cs[k2]]
        0 <= k1 < k2 < cs.len() ==> cs[k1].platform_channel_id != cs[k2].platform_channel_id
            && cs[k1].backend_channel_id != cs[k2].backend_channel_id
}

/// After a guild join of the channel set `cs` into guild `g`, every listed
/// channel is mapped to its listed backend identity, and exactly one
/// `ChannelJoin` per channel is emitted, in payload order.
pub proof fn lemma_guild_join_registers_all(
    m: Seq<Binding>,
    g: Seq<char>,
    cs: Seq<ChannelIdentityView>,
)
    requires
        bindings_wf(m),
        distinct_channels(cs),
    ensures
        bindings_wf(spec_join_map(m, g, cs)),
        forall|k: int|
            0 <= k < cs.len() ==> spec_lookup_backend(
                spec_join_map(m, g, cs),
                g,
                (#[trigger] cs[k]).platform_channel_id,
            ) == Some(cs[k].backend_channel_id),
        spec_join_events(cs).len() == cs.len(),
        forall|k: int|
            0 <= k < cs.len() ==> spec_join_events(cs)[k] == (BackendEventView::ChannelJoin {
                backend_channel_id: (#[trigger] cs[k]).backend_channel_id,
            }),
    decreases cs.len(),
{
    if cs.len() == 0 {
    } else {
        let cs0 = cs.drop_last();
        let c = cs.last();
        assert(cs0.push(c) =~= cs);
        assert(distinct_channels(cs0)) by {
            assert forall|k1: int, k2: int|
                #![trigger cs0[k1], cs0[k2]]
                0 <= k1 < k2 < cs0.len() implies cs0[k1].platform_channel_id
                != cs0[k2].platform_channel_id && cs0[k1].backend_channel_id
                != cs0[k2].backend_channel_id by {
                assert(cs0[k1] == cs[k1]);
                assert(cs0[k2] == cs[k2]);
            }
        }
        lemma_guild_join_registers_all(m, g, cs0);
        lemma_join_map_push(m, g, cs0, c);
        let jm0 = spec_join_map(m, g, cs0);
        let jm = spec_register(jm0, g, c.platform_channel_id, c.backend_channel_id);
        assert(spec_join_map(m, g, cs) == jm);
        lemma_register_preserves_wf(jm0, g, c.platform_channel_id, c.backend_channel_id);
        assert forall|k: int|
            0 <= k < cs.len() implies jm.contains(
            binding(g, (#[trigger] cs[k]).platform_channel_id, cs[k].backend_channel_id),
        ) by {
            if k < cs.len() - 1 {
                assert(cs0[k] == cs[k]);
                lemma_lookup_backend_some_iff(
                    jm0,
                    g,
                    cs[k].platform_channel_id,
                    cs[k].backend_channel_id,
                );
                assert(cs[cs.len() - 1] == c);
                assert(!colliding(
                    binding(g, cs[k].platform_channel_id, cs[k].backend_channel_id),
                    binding(g, c.platform_channel_id, c.backend_channel_id),
                ));
                lemma_register_keeps(
                    jm0,
                    g,
                    c.platform_channel_id,
                    c.backend_channel_id,
                    binding(g, cs[k].platform_channel_id, cs[k].backend_channel_id),
                );
            } else {
                assert(cs[k] == c);
                lemma_register_adds(jm0, g, c.platform_channel_id, c.backend_channel_id);
            }
        }
        assert forall|k: int|
            0 <= k < cs.len() implies spec_lookup_backend(
            jm,
            g,
            (#[trigger] cs[k]).platform_channel_id,
        ) == Some(cs[k].backend_channel_id) by {
            lemma_lookup_backend_some_iff(
                jm,
                g,
                cs[k].platform_channel_id,
                cs[k].backend_channel_id,
            );
        }
    }
}

/// After a guild leave of the platform channels `ps` from guild `g`, none of
/// them is mapped any longer, and exactly one `ChannelLeave` per channel was
/// emitted, in payload order, each carrying the backend identity the channel
/// was mapped to before its removal.
pub proof fn lemma_guild_leave_unregisters_all(m: Seq<Binding>, g: Seq<char>, ps: Seq<Seq<char>>)
    requires
        bindings_wf(m),
        forall|k1: int, k2: int|
            #![trigger ps[k1], ps[k2]]
            0 <= k1 < k2 < ps.len() ==> ps[k1] != ps[k2],
        forall|k: int| 0 <= k < ps.len() ==> spec_lookup_backend(m, g, #[trigger] ps[k]) is Some,
    ensures
        bindings_wf(spec_leave_map(m, g, ps)),
        forall|k: int|
            0 <= k < ps.len() ==> spec_lookup_backend(spec_leave_map(m, g, ps), g, #[trigger] ps[k])
                is None,
        spec_leave_events(m, g, ps).len() == ps.len(),
        forall|k: int|
            0 <= k < ps.len() ==> spec_leave_events(m, g, ps)[k] == (BackendEventView::ChannelLeave {
                backend_channel_id: spec_lookup_backend(m, g, #[trigger] ps[k])->Some_0,
            }),
    decreases ps.len(),
{
    if ps.len() == 0 {
    } else {
        let p0 = ps[0];
        let b0 = spec_lookup_backend(m, g, p0)->Some_0;
        let m1 = spec_unregister(m, g, p0);
        let rest = ps.drop_first();
        lemma_filter_preserves_wf(m, crate::channel_map::keeps_on_unregister(g, p0));
        lemma_lookup_backend_some_iff(m, g, p0, b0);
        // every other listed channel keeps its mapping across the first removal
        assert forall|k: int|
            1 <= k < ps.len() implies spec_lookup_backend(m1, g, #[trigger] ps[k])
            == spec_lookup_backend(m, g, ps[k]) by {
            let bk = spec_lookup_backend(m, g, ps[k])->Some_0;
            lemma_lookup_backend_some_iff(m, g, ps[k], bk);
            lemma_unregister_keeps(m, g, p0, binding(g, ps[k], bk));
            lemma_lookup_backend_some_iff(m1, g, ps[k], bk);
        }
        assert forall|k: int|
            0 <= k < rest.len() implies spec_lookup_backend(m1, g, #[trigger] rest[k]) is Some by {
            assert(rest[k] == ps[k + 1]);
        }
        assert forall|k1: int, k2: int|
            #![trigger rest[k1], rest[k2]]
            0 <= k1 < k2 < rest.len() implies rest[k1] != rest[k2] by {
            assert(rest[k1] == ps[k1 + 1]);
            assert(rest[k2] == ps[k2 + 1]);
        }
        lemma_guild_leave_unregisters_all(m1, g, rest);
        // the removed key never comes back
        lemma_unregister_removes_key(m, g, p0);
        lemma_leave_map_keeps_no_key(m1, g, rest, g, p0);
        lemma_lookup_backend_none_iff(spec_leave_map(m1, g, rest), g, p0);
        assert forall|k: int|
            0 <= k < ps.len() implies spec_lookup_backend(
            spec_leave_map(m, g, ps),
            g,
            #[trigger] ps[k],
        ) is None by {
            if k > 0 {
                assert(rest[k - 1] == ps[k]);
            }
        }
        // the emitted events line up: head, then the rest shifted by one
        let ev = spec_leave_events(m, g, ps);
        let ev1 = spec_leave_events(m1, g, rest);
        assert(ev == seq![BackendEventView::ChannelLeave { backend_channel_id: b0 }] + ev1);
        assert forall|k: int|
            0 <= k < ps.len() implies ev[k] == (BackendEventView::ChannelLeave {
                backend_channel_id: spec_lookup_backend(m, g, #[trigger] ps[k])->Some_0,
            }) by {
            if k > 0 {
                assert(rest[k - 1] == ps[k]);
                assert(ev[k] == ev1[k - 1]);
            }
        }
    }
}

/// A table without bindings of the key (`g`, `p`) still has none after any
/// sequence of removals.
pub proof fn lemma_leave_map_keeps_no_key(
    m: Seq<Binding>,
    g: Seq<char>,
    ps: Seq<Seq<char>>,
    kg: Seq<char>,
    kp: Seq<char>,
)
    requires
        forall|i: int|
            #![trigger m[i]]
            0 <= i < m.len() ==> !(m[i].guild == kg && m[i].platform == kp),
    ensures
        forall|i: int|
            #![trigger spec_leave_map(m, g, ps)[i]]
            0 <= i < spec_leave_map(m, g, ps).len() ==> !(spec_leave_map(m, g, ps)[i].guild == kg
                && spec_leave_map(m, g, ps)[i].platform == kp),
    decreases ps.len(),
{
    if ps.len() == 0 {
    } else {
        lemma_filter_keeps_no_key(m, crate::channel_map::keeps_on_unregister(g, ps[0]), kg, kp);
        lemma_leave_map_keeps_no_key(spec_unregister(m, g, ps[0]), g, ps.drop_first(), kg, kp);
        assert(spec_leave_map(m, g, ps) == spec_leave_map(
            spec_unregister(m, g, ps[0]),
            g,
            ps.drop_first(),
        ));
    }
}

/// Registering the same binding twice changes nothing the second time; in
/// particular the table's cardinality stays the same.
pub proof fn lemma_register_idempotent(m: Seq<Binding>, g: Seq<char>, p: Seq<char>, b: Seq<char>)
    ensures
        spec_register(spec_register(m, g, p, b), g, p, b) == spec_register(m, g, p, b),
        spec_register(spec_register(m, g, p, b), g, p, b).len() == spec_register(m, g, p, b).len(),
{
    lemma_register_adds(m, g, p, b);
}

/// A message for a mapped channel translates to exactly one backend message
/// carrying the same author and text; a message for an unmapped channel
/// yields no event at all.
pub proof fn lemma_message_round_trip(m: Seq<Binding>, c: Seq<char>, author: Seq<char>, text: Seq<char>)
    ensures
        spec_resolve_backend(m, c) matches Some(b) ==> spec_message_events(m, c, author, text)
            == seq![
            BackendEventView::Message { backend_channel_id: b, author: author, text: text },
        ],
        spec_resolve_backend(m, c) is None ==> spec_message_events(m, c, author, text)
            == Seq::<BackendEventView>::empty(),
{
}

/// An outbound send to an unmapped backend channel produces no platform
/// action; one to a mapped channel produces exactly one send, to the mapped
/// platform channel, carrying the same text.
pub proof fn lemma_send_requires_mapping(m: Seq<Binding>, b: Seq<char>, text: Seq<char>)
    ensures
        spec_lookup_platform(m, b) is None ==> spec_send_actions(m, b, text)
            == Seq::<crate::events::PlatformActionView>::empty(),
        spec_lookup_platform(m, b) matches Some(gp) ==> spec_send_actions(m, b, text) == seq![
            crate::events::PlatformActionView::SendMessage { channel_id: gp.1, text: text },
        ],
{
}

} // verus!
