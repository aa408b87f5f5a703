//! The pure translation layer: platform events to backend events, backend
//! commands to platform actions. Consults and updates the channel table; no
//! I/O. Each direction is pinned to a small functional model (`spec_*`
//! functions) that the laws about the bridge are proved against.

use vstd::prelude::*;

use crate::channel_map::{
    spec_lookup_backend, spec_lookup_platform, spec_register, spec_resolve_backend,
    spec_unregister, Binding, ChannelMap,
};
use crate::errors::UnknownChannelError;
use crate::events::{
    BackendCommand, BackendEvent, BackendEventView, ChannelIdentityView, PlatformAction,
    PlatformActionView, PlatformEvent,
};

verus! {

/// The table after a guild-join payload: each channel registered in payload
/// order.
pub open spec fn spec_join_map(m: Seq<Binding>, g: Seq<char>, cs: Seq<ChannelIdentityView>) -> Seq<
    Binding,
>
    decreases cs.len(),
{
    if cs.len() == 0 {
        m
    } else {
        spec_join_map(
            spec_register(m, g, cs[0].platform_channel_id, cs[0].backend_channel_id),
            g,
            cs.drop_first(),
        )
    }
}

/// The events a guild-join payload emits: one `ChannelJoin` per listed
/// channel, in payload order.
pub open spec fn spec_join_events(cs: Seq<ChannelIdentityView>) -> Seq<BackendEventView> {
    cs.map_values(
        |c: ChannelIdentityView|
            BackendEventView::ChannelJoin { backend_channel_id: c.backend_channel_id },
    )
}

/// The table after a guild-leave payload: each listed channel unregistered
/// in payload order.
pub open spec fn spec_leave_map(m: Seq<Binding>, g: Seq<char>, ps: Seq<Seq<char>>) -> Seq<Binding>
    decreases ps.len(),
{
    if ps.len() == 0 {
        m
    } else {
        spec_leave_map(spec_unregister(m, g, ps[0]), g, ps.drop_first())
    }
}

/// The events a guild-leave payload emits: one `ChannelLeave` per listed
/// channel that is mapped at its turn, in payload order; channels that were
/// never registered are skipped silently.
pub open spec fn spec_leave_events(m: Seq<Binding>, g: Seq<char>, ps: Seq<Seq<char>>) -> Seq<
    BackendEventView,
>
    decreases ps.len(),
{
    if ps.len() == 0 {
        Seq::empty()
    } else {
        let rest = spec_leave_events(spec_unregister(m, g, ps[0]), g, ps.drop_first());
        match spec_lookup_backend(m, g, ps[0]) {
            Some(b) => seq![BackendEventView::ChannelLeave { backend_channel_id: b }] + rest,
            None => rest,
        }
    }
}

/// The events a platform message emits: exactly one backend message with the
/// same author and text when the channel is mapped, none otherwise (a
/// message for an unmapped channel is a legitimate race and is dropped).
pub open spec fn spec_message_events(
    m: Seq<Binding>,
    c: Seq<char>,
    author: Seq<char>,
    text: Seq<char>,
) -> Seq<BackendEventView> {
    match spec_resolve_backend(m, c) {
        Some(b) => seq![
            BackendEventView::Message { backend_channel_id: b, author: author, text: text },
        ],
        None => Seq::empty(),
    }
}

/// The actions an outbound send produces: exactly one platform send to the
/// mapped platform channel, when the backend channel is mapped.
pub open spec fn spec_send_actions(m: Seq<Binding>, b: Seq<char>, text: Seq<char>) -> Seq<
    PlatformActionView,
> {
    match spec_lookup_platform(m, b) {
        Some(gp) => seq![PlatformActionView::SendMessage { channel_id: gp.1, text: text }],
        None => Seq::empty(),
    }
}

/// The whole effect of one inbound platform event: the table afterwards and
/// the backend events emitted, in order.
pub open spec fn spec_platform_step(m: Seq<Binding>, event: PlatformEvent) -> (Seq<Binding>, Seq<
    BackendEventView,
>) {
    match event {
        PlatformEvent::Ready { .. } => (Seq::<Binding>::empty(), Seq::<BackendEventView>::empty()),
        PlatformEvent::GuildJoin { guild_id, channels } => (
            spec_join_map(m, guild_id@, channels.deep_view()),
            spec_join_events(channels.deep_view()),
        ),
        PlatformEvent::GuildLeave { guild_id, channels } => (
            spec_leave_map(m, guild_id@, channels.deep_view()),
            spec_leave_events(m, guild_id@, channels.deep_view()),
        ),
        PlatformEvent::Message { channel_id, author_id, text, .. } => (
            m,
            spec_message_events(m, channel_id@, author_id@, text@),
        ),
    }
}

/// Whether one inbound backend command succeeds against the given table.
pub open spec fn spec_backend_ok(m: Seq<Binding>, command: BackendCommand) -> bool {
    match command {
        BackendCommand::SendMessage { backend_channel_id, .. } => spec_lookup_platform(
            m,
            backend_channel_id@,
        ) is Some,
        BackendCommand::Typing { .. } => true,
    }
}

/// The platform actions one inbound backend command produces on success.
pub open spec fn spec_backend_actions(m: Seq<Binding>, command: BackendCommand) -> Seq<
    PlatformActionView,
> {
    match command {
        BackendCommand::SendMessage { backend_channel_id, text } => spec_send_actions(
            m,
            backend_channel_id@,
            text@,
        ),
        BackendCommand::Typing { .. } => Seq::<PlatformActionView>::empty(),
    }
}

/// Joining one more channel extends the fold by one registration.
pub proof fn lemma_join_map_push(
    m: Seq<Binding>,
    g: Seq<char>,
    cs: Seq<ChannelIdentityView>,
    c: ChannelIdentityView,
)
    ensures
        spec_join_map(m, g, cs.push(c)) == spec_register(
            spec_join_map(m, g, cs),
            g,
            c.platform_channel_id,
            c.backend_channel_id,
        ),
    decreases cs.len(),
{
    if cs.len() == 0 {
        let step = spec_register(m, g, c.platform_channel_id, c.backend_channel_id);
        assert(cs.push(c)[0] == c);
        assert(cs.push(c).drop_first() =~= cs);
        assert(spec_join_map(m, g, cs.push(c)) == spec_join_map(step, g, cs));
        assert(spec_join_map(step, g, cs) == step);
        assert(spec_join_map(m, g, cs) == m);
    } else {
        let step = spec_register(m, g, cs[0].platform_channel_id, cs[0].backend_channel_id);
        assert(cs.push(c)[0] == cs[0]);
        assert(cs.push(c).drop_first() =~= cs.drop_first().push(c));
        assert(spec_join_map(m, g, cs.push(c)) == spec_join_map(step, g, cs.drop_first().push(c)));
        lemma_join_map_push(step, g, cs.drop_first(), c);
        assert(spec_join_map(m, g, cs) == spec_join_map(step, g, cs.drop_first()));
    }
}

/// Leaving one more channel extends the fold by one unregistration and, if
/// the channel was mapped at that point, one `ChannelLeave`.
pub proof fn lemma_leave_step(m: Seq<Binding>, g: Seq<char>, ps: Seq<Seq<char>>, p: Seq<char>)
    ensures
        spec_leave_map(m, g, ps.push(p)) == spec_unregister(spec_leave_map(m, g, ps), g, p),
        spec_leave_events(m, g, ps.push(p)) == spec_leave_events(m, g, ps) + (match
        spec_lookup_backend(spec_leave_map(m, g, ps), g, p) {
            Some(b) => seq![BackendEventView::ChannelLeave { backend_channel_id: b }],
            None => Seq::<BackendEventView>::empty(),
        }),
    decreases ps.len(),
{
    let tail = (match spec_lookup_backend(spec_leave_map(m, g, ps), g, p) {
        Some(b) => seq![BackendEventView::ChannelLeave { backend_channel_id: b }],
        None => Seq::<BackendEventView>::empty(),
    });
    if ps.len() == 0 {
        let step = spec_unregister(m, g, p);
        assert(ps.push(p)[0] == p);
        assert(ps.push(p).drop_first() =~= ps);
        assert(spec_leave_map(m, g, ps.push(p)) == spec_leave_map(step, g, ps));
        assert(spec_leave_map(step, g, ps) == step);
        assert(spec_leave_map(m, g, ps) == m);
        assert(spec_leave_events(step, g, ps) =~= Seq::<BackendEventView>::empty());
        assert(spec_leave_events(m, g, ps.push(p)) == (match spec_lookup_backend(m, g, p) {
            Some(b) => seq![BackendEventView::ChannelLeave { backend_channel_id: b }]
                + spec_leave_events(step, g, ps),
            None => spec_leave_events(step, g, ps),
        }));
        assert(spec_leave_events(m, g, ps.push(p)) =~= spec_leave_events(m, g, ps) + tail);
    } else {
        let step = spec_unregister(m, g, ps[0]);
        assert(ps.push(p)[0] == ps[0]);
        assert(ps.push(p).drop_first() =~= ps.drop_first().push(p));
        lemma_leave_step(step, g, ps.drop_first(), p);
        assert(spec_leave_map(m, g, ps.push(p)) == spec_leave_map(step, g, ps.drop_first().push(p)));
        assert(spec_leave_map(m, g, ps) == spec_leave_map(step, g, ps.drop_first()));
        assert(spec_leave_events(m, g, ps.push(p)) == (match spec_lookup_backend(m, g, ps[0]) {
            Some(b) => seq![BackendEventView::ChannelLeave { backend_channel_id: b }]
                + spec_leave_events(step, g, ps.drop_first().push(p)),
            None => spec_leave_events(step, g, ps.drop_first().push(p)),
        }));
        assert(spec_leave_events(m, g, ps.push(p)) =~= spec_leave_events(m, g, ps) + tail);
    }
}

/// Translates one inbound platform event, updating the channel table as the
/// event demands, and returns the backend events to forward, in order.
pub fn translate_platform(event: &PlatformEvent, map: &mut ChannelMap) -> (r: Vec<BackendEvent>)
    requires
        old(map).wf(),
    ensures
        final(map).wf(),
        final(map)@ == spec_platform_step(old(map)@, *event).0,
        r.deep_view() == spec_platform_step(old(map)@, *event).1,
{
    match event {
        PlatformEvent::Ready { user: _ } => {
            map.clear();
            let r: Vec<BackendEvent> = Vec::new();
            proof {
                assert(r.deep_view() =~= Seq::<BackendEventView>::empty());
            }
            r
        },
        PlatformEvent::GuildJoin { guild_id, channels } => {
            let ghost m0 = map@;
            let ghost cs = channels.deep_view();
            let mut out: Vec<BackendEvent> = Vec::new();
            let n = channels.len();
            let mut i: usize = 0;
            proof {
                assert(cs.take(0) =~= Seq::<ChannelIdentityView>::empty());
                assert(out.deep_view() =~= spec_join_events(cs.take(0)));
            }
            while i < n
                invariant
                    n == channels.len(),
                    i <= n,
                    cs == channels.deep_view(),
                    map.wf(),
                    map@ == spec_join_map(m0, guild_id@, cs.take(i as int)),
                    out.deep_view() == spec_join_events(cs.take(i as int)),
                decreases n - i,
            {
                let c = &channels[i];
                let ghost out0 = out.deep_view();
                let _ = map.register(guild_id, &c.platform_channel_id, &c.backend_channel_id);
                out.push(
                    BackendEvent::ChannelJoin {
                        backend_channel_id: c.backend_channel_id.clone(),
                    },
                );
                proof {
                    assert(cs.take(i as int + 1) =~= cs.take(i as int).push(cs[i as int]));
                    lemma_join_map_push(m0, guild_id@, cs.take(i as int), cs[i as int]);
                    assert(out.deep_view() =~= out0.push(
                        BackendEventView::ChannelJoin {
                            backend_channel_id: cs[i as int].backend_channel_id,
                        },
                    ));
                    assert(spec_join_events(cs.take(i as int + 1)) =~= out0.push(
                        BackendEventView::ChannelJoin {
                            backend_channel_id: cs[i as int].backend_channel_id,
                        },
                    ));
                }
                i += 1;
            }
            proof {
                assert(cs.take(n as int) =~= cs);
            }
            out
        },
        PlatformEvent::GuildLeave { guild_id, channels } => {
            let ghost m0 = map@;
            let ghost ps = channels.deep_view();
            let mut out: Vec<BackendEvent> = Vec::new();
            let n = channels.len();
            let mut i: usize = 0;
            proof {
                assert(ps.take(0) =~= Seq::<Seq<char>>::empty());
                assert(out.deep_view() =~= spec_leave_events(m0, guild_id@, ps.take(0)));
            }
            while i < n
                invariant
                    n == channels.len(),
                    i <= n,
                    ps == channels.deep_view(),
                    map.wf(),
                    map@ == spec_leave_map(m0, guild_id@, ps.take(i as int)),
                    out.deep_view() == spec_leave_events(m0, guild_id@, ps.take(i as int)),
                decreases n - i,
            {
                let p = &channels[i];
                let ghost out0 = out.deep_view();
                proof {
                    assert(ps.take(i as int + 1) =~= ps.take(i as int).push(ps[i as int]));
                    lemma_leave_step(m0, guild_id@, ps.take(i as int), ps[i as int]);
                }
                let found = map.lookup_backend(guild_id, p);
                match found {
                    Some(b) => {
                        let ghost bv = b@;
                        out.push(BackendEvent::ChannelLeave { backend_channel_id: b });
                        proof {
                            assert(out.deep_view() =~= out0.push(
                                BackendEventView::ChannelLeave { backend_channel_id: bv },
                            ));
                            assert(spec_leave_events(m0, guild_id@, ps.take(i as int + 1))
                                =~= out0.push(
                                BackendEventView::ChannelLeave { backend_channel_id: bv },
                            ));
                        }
                    },
                    None => {
                        proof {
                            assert(spec_leave_events(m0, guild_id@, ps.take(i as int + 1))
                                =~= out0);
                        }
                    },
                }
                map.unregister(guild_id, p);
                i += 1;
            }
            proof {
                assert(ps.take(n as int) =~= ps);
            }
            out
        },
        PlatformEvent::Message { channel_id, author_id, text, message_id: _ } => {
            let mut out: Vec<BackendEvent> = Vec::new();
            let found = map.resolve_backend(channel_id);
            match found {
                Some(b) => {
                    let ghost bv = b@;
                    out.push(
                        BackendEvent::Message {
                            backend_channel_id: b,
                            author: author_id.clone(),
                            text: text.clone(),
                        },
                    );
                    proof {
                        assert(out.deep_view() =~= seq![
                            BackendEventView::Message {
                                backend_channel_id: bv,
                                author: author_id@,
                                text: text@,
                            },
                        ]);
                    }
                },
                None => {
                    proof {
                        assert(out.deep_view() =~= Seq::<BackendEventView>::empty());
                    }
                },
            }
            out
        },
    }
}

/// Translates one inbound backend command into the platform actions to
/// perform. A send to an unmapped backend channel fails with
/// `UnknownChannelError` and produces no action; command variants the bridge
/// does not act on are forward-compatible no-ops.
pub fn translate_backend(command: &BackendCommand, map: &ChannelMap) -> (r: Result<
    Vec<PlatformAction>,
    UnknownChannelError,
>)
    ensures
        r is Ok <==> spec_backend_ok(map@, *command),
        r matches Ok(actions) ==> actions.deep_view() == spec_backend_actions(map@, *command),
{
    match command {
        BackendCommand::SendMessage { backend_channel_id, text } => {
            match map.lookup_platform(backend_channel_id) {
                Some(gp) => {
                    let mut actions: Vec<PlatformAction> = Vec::new();
                    actions.push(
                        PlatformAction::SendMessage { channel_id: gp.1, text: text.clone() },
                    );
                    proof {
                        assert(actions.deep_view() =~= spec_send_actions(
                            map@,
                            backend_channel_id@,
                            text@,
                        ));
                    }
                    Ok(actions)
                },
                None => Err(UnknownChannelError),
            }
        },
        BackendCommand::Typing { .. } => {
            let actions: Vec<PlatformAction> = Vec::new();
            proof {
                assert(actions.deep_view() =~= Seq::<PlatformActionView>::empty());
            }
            Ok(actions)
        },
    }
}

} // verus!
