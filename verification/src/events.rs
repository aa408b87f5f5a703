//! The event vocabulary of the bridge: platform-side events as delivered by
//! the gateway session, backend-side events and commands as exchanged with
//! the ingest session, and the platform actions produced for outbound sends.
//!
//! Each executable type with string payloads has a mathematical view whose
//! fields are `Seq<char>`, so that contracts can speak of the payloads by
//! value.

use vstd::prelude::*;
use vstd::string::StringExecFns;

verus! {

/// One channel of a guild-join payload: the platform's native channel id
/// paired with the backend channel identity derived for it.
#[derive(Debug, PartialEq, Eq)]
pub struct ChannelIdentity {
    pub platform_channel_id: String,
    pub backend_channel_id: String,
}

/// The backend channel identity derived for a platform channel: the guild id
/// and the channel id joined by a separator. Deterministic, and injective in
/// the channel id within one guild, which is what the per-guild bijection
/// rests on.
pub open spec fn spec_derive_backend_id(g: Seq<char>, c: Seq<char>) -> Seq<char> {
    g + seq!['/'] + c
}

/// Within one guild, distinct platform channels get distinct backend
/// identities.
pub proof fn lemma_derive_backend_id_injective(g: Seq<char>, c1: Seq<char>, c2: Seq<char>)
    requires
        spec_derive_backend_id(g, c1) == spec_derive_backend_id(g, c2),
    ensures
        c1 == c2,
{
    let f1 = spec_derive_backend_id(g, c1);
    let f2 = spec_derive_backend_id(g, c2);
    assert(c1 =~= f1.subrange(g.len() as int + 1, f1.len() as int));
    assert(c2 =~= f2.subrange(g.len() as int + 1, f2.len() as int));
}

impl ChannelIdentity {
    /// The channel identity derived for `platform_channel_id` in `guild_id`.
    pub fn derive(guild_id: &String, platform_channel_id: &String) -> (r: ChannelIdentity)
        ensures
            r.platform_channel_id@ == platform_channel_id@,
            r.backend_channel_id@ == spec_derive_backend_id(guild_id@, platform_channel_id@),
    {
        let mut backend = guild_id.clone();
        backend.append("/");
        backend.append(platform_channel_id.as_str());
        proof {
            reveal_strlit("/");
            assert(backend@ =~= spec_derive_backend_id(guild_id@, platform_channel_id@));
        }
        ChannelIdentity {
            platform_channel_id: platform_channel_id.clone(),
            backend_channel_id: backend,
        }
    }
}

/// Mathematical value of a `ChannelIdentity`.
pub struct ChannelIdentityView {
    pub platform_channel_id: Seq<char>,
    pub backend_channel_id: Seq<char>,
}

impl View for ChannelIdentity {
    type V = ChannelIdentityView;

    open spec fn view(&self) -> ChannelIdentityView {
        ChannelIdentityView {
            platform_channel_id: self.platform_channel_id@,
            backend_channel_id: self.backend_channel_id@,
        }
    }
}

impl DeepView for ChannelIdentity {
    type V = ChannelIdentityView;

    open spec fn deep_view(&self) -> ChannelIdentityView {
        self.view()
    }
}

/// An inbound platform event, produced only by the gateway session.
#[derive(Debug, PartialEq, Eq)]
#[allow(inconsistent_fields)]
pub enum PlatformEvent {
    /// The gateway (re)established its session; the platform will re-deliver
    /// the full guild state after this, so all mappings start over.
    Ready { user: String },
    /// The account joined a guild (also delivered once per already-joined
    /// guild at startup), listing its channels in platform order.
    GuildJoin { guild_id: String, channels: Vec<ChannelIdentity> },
    /// The account left a guild; lists the platform channel ids affected.
    GuildLeave { guild_id: String, channels: Vec<String> },
    /// A chat message arrived in a platform channel.
    Message { channel_id: String, author_id: String, text: String, message_id: String },
}

/// An outbound backend event, sent to the ingest session.
#[derive(Debug, PartialEq, Eq)]
pub enum BackendEvent {
    ChannelJoin { backend_channel_id: String },
    ChannelLeave { backend_channel_id: String },
    Message { backend_channel_id: String, author: String, text: String },
}

/// Mathematical value of a `BackendEvent`.
pub enum BackendEventView {
    ChannelJoin { backend_channel_id: Seq<char> },
    ChannelLeave { backend_channel_id: Seq<char> },
    Message { backend_channel_id: Seq<char>, author: Seq<char>, text: Seq<char> },
}

impl View for BackendEvent {
    type V = BackendEventView;

    open spec fn view(&self) -> BackendEventView {
        match self {
            BackendEvent::ChannelJoin { backend_channel_id } => BackendEventView::ChannelJoin {
                backend_channel_id: backend_channel_id@,
            },
            BackendEvent::ChannelLeave { backend_channel_id } => BackendEventView::ChannelLeave {
                backend_channel_id: backend_channel_id@,
            },
            BackendEvent::Message { backend_channel_id, author, text } => BackendEventView::Message {
                backend_channel_id: backend_channel_id@,
                author: author@,
                text: text@,
            },
        }
    }
}

impl DeepView for BackendEvent {
    type V = BackendEventView;

    open spec fn deep_view(&self) -> BackendEventView {
        self.view()
    }
}

/// An inbound backend command, received from the ingest session. The variant
/// set is expected to grow; anything the bridge does not act on is a
/// forward-compatible no-op.
#[derive(Debug, PartialEq, Eq)]
pub enum BackendCommand {
    SendMessage { backend_channel_id: String, text: String },
    Typing { backend_channel_id: String },
}

/// An outbound platform action, handed to the gateway session.
#[derive(Debug, PartialEq, Eq)]
pub enum PlatformAction {
    SendMessage { channel_id: String, text: String },
}

/// Mathematical value of a `PlatformAction`.
pub enum PlatformActionView {
    SendMessage { channel_id: Seq<char>, text: Seq<char> },
}

impl View for PlatformAction {
    type V = PlatformActionView;

    open spec fn view(&self) -> PlatformActionView {
        match self {
            PlatformAction::SendMessage { channel_id, text } => PlatformActionView::SendMessage {
                channel_id: channel_id@,
                text: text@,
            },
        }
    }
}

impl DeepView for PlatformAction {
    type V = PlatformActionView;

    open spec fn deep_view(&self) -> PlatformActionView {
        self.view()
    }
}

} // verus!
