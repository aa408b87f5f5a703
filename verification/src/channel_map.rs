//! The in-memory bidirectional channel table: per guild, an association of
//! platform channel ids with backend channel identities.
//!
//! The mathematical model of the table is a sequence of `Binding`s in
//! insertion order. Within one guild the bindings form a bijection: no
//! platform channel and no backend identity appears twice (`bindings_wf`).
//! Registration displaces whatever the new binding would collide with
//! (last write wins), so the bijection is an invariant, not an assumption
//! about the input.

use vstd::prelude::*;

use crate::errors::ConflictError;

verus! {

broadcast use vstd::seq_lib::group_filter_ensures;

/// Mathematical value of one table entry: a guild-scoped association of a
/// platform channel id with a backend channel identity.
pub struct Binding {
    pub guild: Seq<char>,
    pub platform: Seq<char>,
    pub backend: Seq<char>,
}

/// The binding of platform channel `p` to backend identity `b` in guild `g`.
pub open spec fn binding(g: Seq<char>, p: Seq<char>, b: Seq<char>) -> Binding {
    Binding { guild: g, platform: p, backend: b }
}

/// Two bindings that cannot coexist in a well-formed table: same guild and
/// either the same platform channel or the same backend identity.
pub open spec fn colliding(x: Binding, y: Binding) -> bool {
    x.guild == y.guild && (x.platform == y.platform || x.backend == y.backend)
}

/// Guild-scoped bijection: within one guild, no platform channel appears
/// twice and no backend identity appears twice.
pub open spec fn bindings_wf(m: Seq<Binding>) -> bool {
    forall|i: int, j: int|
        #![trigger m[i], m[j]]
        0 <= i < j < m.len() ==> !colliding(m[i], m[j])
}

/// The backend identity bound to platform channel `p` in guild `g`: the
/// first matching binding, if any.
pub open spec fn spec_lookup_backend(m: Seq<Binding>, g: Seq<char>, p: Seq<char>) -> Option<
    Seq<char>,
>
    decreases m.len(),
{
    if m.len() == 0 {
        None
    } else if m[0].guild == g && m[0].platform == p {
        Some(m[0].backend)
    } else {
        spec_lookup_backend(m.drop_first(), g, p)
    }
}

/// The guild and platform channel bound to backend identity `b`: the first
/// matching binding, if any.
pub open spec fn spec_lookup_platform(m: Seq<Binding>, b: Seq<char>) -> Option<
    (Seq<char>, Seq<char>),
>
    decreases m.len(),
{
    if m.len() == 0 {
        None
    } else if m[0].backend == b {
        Some((m[0].guild, m[0].platform))
    } else {
        spec_lookup_platform(m.drop_first(), b)
    }
}

/// The backend identity bound to platform channel `p` in any guild: the
/// first matching binding, if any. Message events carry no guild id, so the
/// inbound message path resolves by platform channel alone.
pub open spec fn spec_resolve_backend(m: Seq<Binding>, p: Seq<char>) -> Option<Seq<char>>
    decreases m.len(),
{
    if m.len() == 0 {
        None
    } else if m[0].platform == p {
        Some(m[0].backend)
    } else {
        spec_resolve_backend(m.drop_first(), p)
    }
}

/// The bindings that survive a registration of (`g`, `p`, `b`): everything
/// the new binding would not collide with.
pub open spec fn keeps_on_register(g: Seq<char>, p: Seq<char>, b: Seq<char>) -> spec_fn(
    Binding,
) -> bool {
    |x: Binding| !colliding(x, binding(g, p, b))
}

/// The bindings that survive removal of the key (`g`, `p`).
pub open spec fn keeps_on_unregister(g: Seq<char>, p: Seq<char>) -> spec_fn(Binding) -> bool {
    |x: Binding| !(x.guild == g && x.platform == p)
}

/// Registration of (`g`, `p`, `b`): a no-op if the exact binding is already
/// present, otherwise every colliding binding is displaced and the new
/// binding appended.
pub open spec fn spec_register(m: Seq<Binding>, g: Seq<char>, p: Seq<char>, b: Seq<char>) -> Seq<
    Binding,
> {
    if m.contains(binding(g, p, b)) {
        m
    } else {
        m.filter(keeps_on_register(g, p, b)).push(binding(g, p, b))
    }
}

/// A registration of (`g`, `p`, `b`) is a conflict when `b` is already bound
/// to a different platform channel in the same guild.
pub open spec fn spec_conflict(m: Seq<Binding>, g: Seq<char>, p: Seq<char>, b: Seq<char>) -> bool {
    exists|i: int|
        0 <= i < m.len() && m[i].guild == g && m[i].backend == b && m[i].platform != p
}

/// Removal of the key (`g`, `p`); a no-op if the key is absent.
pub open spec fn spec_unregister(m: Seq<Binding>, g: Seq<char>, p: Seq<char>) -> Seq<Binding> {
    m.filter(keeps_on_unregister(g, p))
}

/// One stored table entry.
struct ChannelEntry {
    guild_id: String,
    platform_channel_id: String,
    backend_channel_id: String,
}

impl View for ChannelEntry {
    type V = Binding;

    closed spec fn view(&self) -> Binding {
        Binding {
            guild: self.guild_id@,
            platform: self.platform_channel_id@,
            backend: self.backend_channel_id@,
        }
    }
}

impl DeepView for ChannelEntry {
    type V = Binding;

    closed spec fn deep_view(&self) -> Binding {
        self.view()
    }
}

impl Clone for ChannelEntry {
    fn clone(&self) -> (r: Self)
        ensures
            r@ == self@,
    {
        ChannelEntry {
            guild_id: self.guild_id.clone(),
            platform_channel_id: self.platform_channel_id.clone(),
            backend_channel_id: self.backend_channel_id.clone(),
        }
    }
}

/// The channel table. Owned by the coordinator; consulted on every message
/// translation in both directions and mutated only on guild lifecycle
/// events and on session reset.
pub struct ChannelMap {
    entries: Vec<ChannelEntry>,
}

impl View for ChannelMap {
    type V = Seq<Binding>;

    closed spec fn view(&self) -> Seq<Binding> {
        self.entries.deep_view()
    }
}

impl ChannelMap {
    /// The guild-scoped bijection invariant; established by `new` and
    /// preserved by every mutation.
    pub open spec fn wf(self) -> bool {
        bindings_wf(self@)
    }

    /// An empty table.
    pub fn new() -> (r: ChannelMap)
        ensures
            r@ == Seq::<Binding>::empty(),
            r.wf(),
    {
        let r = ChannelMap { entries: Vec::new() };
        proof {
            assert(r@ =~= Seq::<Binding>::empty());
        }
        r
    }

    /// Drops every binding; used when the platform session starts over and
    /// will re-deliver the full guild state.
    pub fn clear(&mut self)
        ensures
            final(self)@ == Seq::<Binding>::empty(),
            final(self).wf(),
    {
        self.entries = Vec::new();
        proof {
            assert(self@ =~= Seq::<Binding>::empty());
        }
    }

    /// How many bindings the table holds.
    pub fn len(&self) -> (n: usize)
        ensures
            n == self@.len(),
    {
        self.entries.len()
    }

    /// Binds `platform_channel_id` to `backend_channel_id` in `guild_id`,
    /// displacing whatever binding of the same guild the new one collides
    /// with (last write wins). Reports `ConflictError` exactly when the
    /// backend identity was bound to a different platform channel of the
    /// same guild; the overwrite has happened regardless.
    pub fn register(
        &mut self,
        guild_id: &String,
        platform_channel_id: &String,
        backend_channel_id: &String,
    ) -> (r: Result<(), ConflictError>)
        requires
            old(self).wf(),
        ensures
            final(self).wf(),
            final(self)@ == spec_register(
                old(self)@,
                guild_id@,
                platform_channel_id@,
                backend_channel_id@,
            ),
            r is Err <==> spec_conflict(
                old(self)@,
                guild_id@,
                platform_channel_id@,
                backend_channel_id@,
            ),
    {
        let ghost m0 = self@;
        let ghost bnew = binding(guild_id@, platform_channel_id@, backend_channel_id@);
        let n = self.entries.len();
        let mut i: usize = 0;
        while i < n
            invariant
                n == self.entries.len(),
                i <= n,
                self@ == m0,
                bindings_wf(m0),
                bnew == binding(guild_id@, platform_channel_id@, backend_channel_id@),
                forall|j: int| 0 <= j < i ==> #[trigger] m0[j] != bnew,
            decreases n - i,
        {
            let e = &self.entries[i];
            if e.guild_id == *guild_id && e.platform_channel_id == *platform_channel_id
                && e.backend_channel_id == *backend_channel_id {
                proof {
                    assert(self@[i as int] == bnew);
                    assert(m0.contains(bnew));
                    assert(!spec_conflict(m0, guild_id@, platform_channel_id@, backend_channel_id@))
                        by {
                        if spec_conflict(m0, guild_id@, platform_channel_id@, backend_channel_id@) {
                            let j = choose|j: int|
                                0 <= j < m0.len() && m0[j].guild == guild_id@
                                    && m0[j].backend == backend_channel_id@ && m0[j].platform
                                    != platform_channel_id@;
                            assert(colliding(m0[i as int], m0[j]));
                        }
                    }
                }
                return Ok(());
            }
            i += 1;
        }
        proof {
            assert(!m0.contains(bnew));
        }
        let mut kept: Vec<ChannelEntry> = Vec::new();
        let mut conflict = false;
        let mut i: usize = 0;
        while i < n
            invariant
                n == self.entries.len(),
                i <= n,
                self@ == m0,
                bnew == binding(guild_id@, platform_channel_id@, backend_channel_id@),
                kept.deep_view() == m0.take(i as int).filter(
                    keeps_on_register(guild_id@, platform_channel_id@, backend_channel_id@),
                ),
                conflict == spec_conflict(
                    m0.take(i as int),
                    guild_id@,
                    platform_channel_id@,
                    backend_channel_id@,
                ),
            decreases n - i,
        {
            let ghost keep = keeps_on_register(guild_id@, platform_channel_id@, backend_channel_id@);
            let ghost prefix = m0.take(i as int);
            proof {
                assert(m0.take(i as int + 1) =~= prefix.push(m0[i as int]));
                prefix.lemma_filter_push(m0[i as int], keep);
            }
            let e = &self.entries[i];
            let same_guild = e.guild_id == *guild_id;
            let same_platform = e.platform_channel_id == *platform_channel_id;
            let same_backend = e.backend_channel_id == *backend_channel_id;
            if same_guild && same_backend && !same_platform {
                conflict = true;
                proof {
                    assert(spec_conflict(
                        m0.take(i as int + 1),
                        guild_id@,
                        platform_channel_id@,
                        backend_channel_id@,
                    )) by {
                        assert(m0.take(i as int + 1)[i as int] == m0[i as int]);
                    }
                }
            } else {
                proof {
                    if conflict {
                        let j = choose|j: int|
                            0 <= j < prefix.len() && prefix[j].guild == guild_id@
                                && prefix[j].backend == backend_channel_id@ && prefix[j].platform
                                != platform_channel_id@;
                        assert(m0.take(i as int + 1)[j] == prefix[j]);
                    } else {
                        assert forall|j: int|
                            0 <= j < i as int + 1 && #[trigger] m0.take(i as int + 1)[j].guild
                                == guild_id@ && m0.take(i as int + 1)[j].backend
                                == backend_channel_id@ implies m0.take(i as int + 1)[j].platform
                            == platform_channel_id@ by {
                            assert(m0.take(i as int + 1)[j] == m0[j]);
                            if j < i as int {
                                assert(prefix[j] == m0[j]);
                                assert(!spec_conflict(
                                    prefix,
                                    guild_id@,
                                    platform_channel_id@,
                                    backend_channel_id@,
                                ));
                            }
                        }
                    }
                }
            }
            if !(same_guild && (same_platform || same_backend)) {
                kept.push(e.clone());
                proof {
                    assert(keep(m0[i as int]));
                    assert(kept.deep_view() =~= m0.take(i as int + 1).filter(keep));
                }
            } else {
                proof {
                    assert(!keep(m0[i as int]));
                    assert(kept.deep_view() =~= m0.take(i as int + 1).filter(keep));
                }
            }
            i += 1;
        }
        kept.push(
            ChannelEntry {
                guild_id: guild_id.clone(),
                platform_channel_id: platform_channel_id.clone(),
                backend_channel_id: backend_channel_id.clone(),
            },
        );
        proof {
            let keep = keeps_on_register(guild_id@, platform_channel_id@, backend_channel_id@);
            assert(m0.take(n as int) =~= m0);
            assert(kept.deep_view() =~= m0.filter(keep).push(bnew));
            lemma_register_preserves_wf(
                m0,
                guild_id@,
                platform_channel_id@,
                backend_channel_id@,
            );
        }
        self.entries = kept;
        if conflict {
            Err(ConflictError)
        } else {
            Ok(())
        }
    }

    /// Removes the binding of `platform_channel_id` in `guild_id`; a no-op
    /// (not an error) if no such binding exists, since leave events may race
    /// with never-materialized joins.
    pub fn unregister(&mut self, guild_id: &String, platform_channel_id: &String)
        requires
            old(self).wf(),
        ensures
            final(self).wf(),
            final(self)@ == spec_unregister(old(self)@, guild_id@, platform_channel_id@),
    {
        let ghost m0 = self@;
        let n = self.entries.len();
        let mut kept: Vec<ChannelEntry> = Vec::new();
        let mut i: usize = 0;
        while i < n
            invariant
                n == self.entries.len(),
                i <= n,
                self@ == m0,
                kept.deep_view() == m0.take(i as int).filter(
                    keeps_on_unregister(guild_id@, platform_channel_id@),
                ),
            decreases n - i,
        {
            let ghost keep = keeps_on_unregister(guild_id@, platform_channel_id@);
            let ghost prefix = m0.take(i as int);
            proof {
                assert(m0.take(i as int + 1) =~= prefix.push(m0[i as int]));
                prefix.lemma_filter_push(m0[i as int], keep);
            }
            let e = &self.entries[i];
            if !(e.guild_id == *guild_id && e.platform_channel_id == *platform_channel_id) {
                kept.push(e.clone());
                proof {
                    assert(keep(m0[i as int]));
                    assert(kept.deep_view() =~= m0.take(i as int + 1).filter(keep));
                }
            } else {
                proof {
                    assert(!keep(m0[i as int]));
                    assert(kept.deep_view() =~= m0.take(i as int + 1).filter(keep));
                }
            }
            i += 1;
        }
        proof {
            assert(m0.take(n as int) =~= m0);
            lemma_filter_preserves_wf(m0, keeps_on_unregister(guild_id@, platform_channel_id@));
        }
        self.entries = kept;
    }

    /// The backend identity bound to `platform_channel_id` in `guild_id`.
    pub fn lookup_backend(&self, guild_id: &String, platform_channel_id: &String) -> (r: Option<
        String,
    >)
        ensures
            r.deep_view() == spec_lookup_backend(self@, guild_id@, platform_channel_id@),
    {
        let n = self.entries.len();
        let mut i: usize = 0;
        while i < n
            invariant
                n == self.entries.len(),
                i <= n,
                forall|j: int|
                    0 <= j < i ==> !(#[trigger] self@[j].guild == guild_id@
                        && self@[j].platform == platform_channel_id@),
            decreases n - i,
        {
            let e = &self.entries[i];
            if e.guild_id == *guild_id && e.platform_channel_id == *platform_channel_id {
                proof {
                    lemma_lookup_backend_skip(self@, guild_id@, platform_channel_id@, i as int);
                    assert(self@.skip(i as int)[0] == self@[i as int]);
                }
                return Some(e.backend_channel_id.clone());
            }
            i += 1;
        }
        proof {
            lemma_lookup_backend_skip(self@, guild_id@, platform_channel_id@, n as int);
            assert(self@.skip(n as int) =~= Seq::<Binding>::empty());
        }
        None
    }

    /// The guild and platform channel bound to `backend_channel_id`.
    pub fn lookup_platform(&self, backend_channel_id: &String) -> (r: Option<(String, String)>)
        ensures
            match r {
                Some(gp) => spec_lookup_platform(self@, backend_channel_id@) == Some(
                    (gp.0@, gp.1@),
                ),
                None => spec_lookup_platform(self@, backend_channel_id@) is None,
            },
    {
        let n = self.entries.len();
        let mut i: usize = 0;
        while i < n
            invariant
                n == self.entries.len(),
                i <= n,
                forall|j: int| 0 <= j < i ==> #[trigger] self@[j].backend != backend_channel_id@,
            decreases n - i,
        {
            let e = &self.entries[i];
            if e.backend_channel_id == *backend_channel_id {
                proof {
                    lemma_lookup_platform_skip(self@, backend_channel_id@, i as int);
                    assert(self@.skip(i as int)[0] == self@[i as int]);
                }
                return Some((e.guild_id.clone(), e.platform_channel_id.clone()));
            }
            i += 1;
        }
        proof {
            lemma_lookup_platform_skip(self@, backend_channel_id@, n as int);
            assert(self@.skip(n as int) =~= Seq::<Binding>::empty());
        }
        None
    }

    /// The backend identity bound to `platform_channel_id` in any guild.
    pub fn resolve_backend(&self, platform_channel_id: &String) -> (r: Option<String>)
        ensures
            r.deep_view() == spec_resolve_backend(self@, platform_channel_id@),
    {
        let n = self.entries.len();
        let mut i: usize = 0;
        while i < n
            invariant
                n == self.entries.len(),
                i <= n,
                forall|j: int| 0 <= j < i ==> #[trigger] self@[j].platform != platform_channel_id@,
            decreases n - i,
        {
            let e = &self.entries[i];
            if e.platform_channel_id == *platform_channel_id {
                proof {
                    lemma_resolve_backend_skip(self@, platform_channel_id@, i as int);
                    assert(self@.skip(i as int)[0] == self@[i as int]);
                }
                return Some(e.backend_channel_id.clone());
            }
            i += 1;
        }
        proof {
            lemma_resolve_backend_skip(self@, platform_channel_id@, n as int);
            assert(self@.skip(n as int) =~= Seq::<Binding>::empty());
        }
        None
    }
}

/// In a well-formed table, the lookup finds `b` exactly when the binding
/// (`g`, `p`, `b`) is present.
pub proof fn lemma_lookup_backend_some_iff(
    m: Seq<Binding>,
    g: Seq<char>,
    p: Seq<char>,
    b: Seq<char>,
)
    requires
        bindings_wf(m),
    ensures
        spec_lookup_backend(m, g, p) == Some(b) <==> m.contains(binding(g, p, b)),
    decreases m.len(),
{
    if m.len() == 0 {
    } else if m[0].guild == g && m[0].platform == p {
        if m[0].backend == b {
            assert(m[0] == binding(g, p, b));
            assert(m.contains(binding(g, p, b)));
        } else {
            if m.contains(binding(g, p, b)) {
                let k = choose|k: int| 0 <= k < m.len() && m[k] == binding(g, p, b);
                assert(colliding(m[0], m[k]));
                assert(false);
            }
        }
    } else {
        let t = m.drop_first();
        lemma_wf_drop_first(m);
        lemma_lookup_backend_some_iff(t, g, p, b);
        if m.contains(binding(g, p, b)) {
            let k = choose|k: int| 0 <= k < m.len() && m[k] == binding(g, p, b);
            assert(k != 0);
            assert(t[k - 1] == m[k]);
            assert(t.contains(binding(g, p, b)));
        }
        if t.contains(binding(g, p, b)) {
            let k = choose|k: int| 0 <= k < t.len() && t[k] == binding(g, p, b);
            assert(m[k + 1] == t[k]);
            assert(m.contains(binding(g, p, b)));
        }
    }
}

/// The lookup comes back empty exactly when no binding carries the key.
pub proof fn lemma_lookup_backend_none_iff(m: Seq<Binding>, g: Seq<char>, p: Seq<char>)
    ensures
        spec_lookup_backend(m, g, p) is None <==> (forall|i: int|
            #![trigger m[i]]
            0 <= i < m.len() ==> !(m[i].guild == g && m[i].platform == p)),
    decreases m.len(),
{
    if m.len() == 0 {
    } else if m[0].guild == g && m[0].platform == p {
    } else {
        let t = m.drop_first();
        lemma_lookup_backend_none_iff(t, g, p);
        if spec_lookup_backend(m, g, p) is None {
            assert forall|i: int|
                #![trigger m[i]]
                0 <= i < m.len() implies !(m[i].guild == g && m[i].platform == p) by {
                if i > 0 {
                    assert(t[i - 1] == m[i]);
                }
            }
        } else {
            let k = choose|k: int| 0 <= k < t.len() && t[k].guild == g && t[k].platform == p;
            assert(m[k + 1] == t[k]);
        }
    }
}

/// A registration leaves every binding it does not collide with in place.
pub proof fn lemma_register_keeps(
    m: Seq<Binding>,
    g: Seq<char>,
    p: Seq<char>,
    b: Seq<char>,
    x: Binding,
)
    requires
        m.contains(x),
        !colliding(x, binding(g, p, b)),
    ensures
        spec_register(m, g, p, b).contains(x),
{
    if m.contains(binding(g, p, b)) {
    } else {
        let keep = keeps_on_register(g, p, b);
        let k = choose|k: int| 0 <= k < m.len() && m[k] == x;
        assert(keep(m[k]));
        m.lemma_filter_contains(keep, k);
        let f = m.filter(keep);
        let q = choose|q: int| 0 <= q < f.len() && f[q] == x;
        assert(f.push(binding(g, p, b))[q] == x);
    }
}

/// A registration makes its own binding present.
pub proof fn lemma_register_adds(m: Seq<Binding>, g: Seq<char>, p: Seq<char>, b: Seq<char>)
    ensures
        spec_register(m, g, p, b).contains(binding(g, p, b)),
{
    if m.contains(binding(g, p, b)) {
    } else {
        let f = m.filter(keeps_on_register(g, p, b));
        assert(f.push(binding(g, p, b))[f.len() as int] == binding(g, p, b));
    }
}

/// An unregistration leaves every binding of a different key in place.
pub proof fn lemma_unregister_keeps(
    m: Seq<Binding>,
    g: Seq<char>,
    p: Seq<char>,
    x: Binding,
)
    requires
        m.contains(x),
        !(x.guild == g && x.platform == p),
    ensures
        spec_unregister(m, g, p).contains(x),
{
    let keep = keeps_on_unregister(g, p);
    let k = choose|k: int| 0 <= k < m.len() && m[k] == x;
    assert(keep(m[k]));
    m.lemma_filter_contains(keep, k);
}

/// Filtering cannot bring a key back: a table without the key (`g`, `p`)
/// still lacks it after any filter.
pub proof fn lemma_filter_keeps_no_key(
    m: Seq<Binding>,
    pred: spec_fn(Binding) -> bool,
    g: Seq<char>,
    p: Seq<char>,
)
    requires
        forall|i: int| #![trigger m[i]] 0 <= i < m.len() ==> !(m[i].guild == g && m[i].platform == p),
    ensures
        forall|i: int|
            #![trigger m.filter(pred)[i]]
            0 <= i < m.filter(pred).len() ==> !(m.filter(pred)[i].guild == g
                && m.filter(pred)[i].platform == p),
{
    let f = m.filter(pred);
    assert forall|i: int|
        0 <= i < f.len() implies !((#[trigger] f[i]).guild == g && f[i].platform == p) by {
        assert(f.contains(f[i]));
        m.lemma_filter_contains_rev(pred, f[i]);
        let k = choose|k: int| 0 <= k < m.len() && m[k] == f[i];
        assert(!(m[k].guild == g && m[k].platform == p));
    }
}

/// Unregistering a key removes it: no binding of the key survives.
pub proof fn lemma_unregister_removes_key(m: Seq<Binding>, g: Seq<char>, p: Seq<char>)
    ensures
        forall|i: int|
            #![trigger spec_unregister(m, g, p)[i]]
            0 <= i < spec_unregister(m, g, p).len() ==> !(spec_unregister(m, g, p)[i].guild == g
                && spec_unregister(m, g, p)[i].platform == p),
{
    let keep = keeps_on_unregister(g, p);
    let f = spec_unregister(m, g, p);
    assert forall|i: int|
        0 <= i < f.len() implies !((#[trigger] f[i]).guild == g && f[i].platform == p) by {
        m.lemma_filter_pred(keep, i);
        assert(keep(f[i]));
    }
}

/// Dropping the first binding keeps the table well formed.
pub proof fn lemma_wf_drop_first(m: Seq<Binding>)
    requires
        bindings_wf(m),
        m.len() > 0,
    ensures
        bindings_wf(m.drop_first()),
{
    let t = m.drop_first();
    assert forall|i: int, j: int|
        #![trigger t[i], t[j]]
        0 <= i < j < t.len() implies !colliding(t[i], t[j]) by {
        assert(t[i] == m[i + 1]);
        assert(t[j] == m[j + 1]);
    }
}

/// Removing the last binding keeps the table well formed.
proof fn lemma_wf_drop_last(m: Seq<Binding>)
    requires
        bindings_wf(m),
        m.len() > 0,
    ensures
        bindings_wf(m.drop_last()),
{
    let t = m.drop_last();
    assert forall|i: int, j: int|
        #![trigger t[i], t[j]]
        0 <= i < j < t.len() implies !colliding(t[i], t[j]) by {
        assert(t[i] == m[i]);
        assert(t[j] == m[j]);
    }
}

/// A filtered table is still well formed, being a subsequence.
pub proof fn lemma_filter_preserves_wf(m: Seq<Binding>, pred: spec_fn(Binding) -> bool)
    requires
        bindings_wf(m),
    ensures
        bindings_wf(m.filter(pred)),
    decreases m.len(),
{
    reveal(Seq::filter);
    if m.len() == 0 {
    } else {
        let t = m.drop_last();
        lemma_wf_drop_last(m);
        lemma_filter_preserves_wf(t, pred);
        let tf = t.filter(pred);
        if pred(m.last()) {
            assert(m.filter(pred) == tf.push(m.last()));
            assert forall|k: int| 0 <= k < tf.len() implies !colliding(tf[k], m.last()) by {
                assert(tf.contains(tf[k]));
                t.lemma_filter_contains_rev(pred, tf[k]);
                let q = choose|q: int| 0 <= q < t.len() && t[q] == tf[k];
                assert(t[q] == m[q]);
                assert(m.last() == m[m.len() - 1]);
                assert(!colliding(m[q], m[m.len() - 1]));
            }
            let f = tf.push(m.last());
            assert forall|i: int, j: int|
                #![trigger f[i], f[j]]
                0 <= i < j < f.len() implies !colliding(f[i], f[j]) by {
                if j < f.len() - 1 {
                    assert(f[i] == tf[i]);
                    assert(f[j] == tf[j]);
                } else {
                    assert(f[i] == tf[i]);
                    assert(f[j] == m.last());
                }
            }
        } else {
            assert(m.filter(pred) == tf);
        }
    }
}

/// Registration keeps the table well formed: every binding the new one
/// would collide with is displaced before the new one is appended.
pub proof fn lemma_register_preserves_wf(m: Seq<Binding>, g: Seq<char>, p: Seq<char>, b: Seq<char>)
    requires
        bindings_wf(m),
    ensures
        bindings_wf(spec_register(m, g, p, b)),
{
    if m.contains(binding(g, p, b)) {
    } else {
        let keep = keeps_on_register(g, p, b);
        lemma_filter_preserves_wf(m, keep);
        let mf = m.filter(keep);
        let f = mf.push(binding(g, p, b));
        assert forall|i: int, j: int|
            #![trigger f[i], f[j]]
            0 <= i < j < f.len() implies !colliding(f[i], f[j]) by {
            if j < f.len() - 1 {
                assert(f[i] == mf[i]);
                assert(f[j] == mf[j]);
            } else {
                assert(f[i] == mf[i]);
                assert(keep(mf[i]));
                assert(f[j] == binding(g, p, b));
            }
        }
    }
}

/// When no binding among the first `i` matches the key, the lookup is
/// decided by the rest of the sequence.
proof fn lemma_lookup_backend_skip(m: Seq<Binding>, g: Seq<char>, p: Seq<char>, i: int)
    requires
        0 <= i <= m.len(),
        forall|j: int| 0 <= j < i ==> !(#[trigger] m[j].guild == g && m[j].platform == p),
    ensures
        spec_lookup_backend(m, g, p) == spec_lookup_backend(m.skip(i), g, p),
    decreases i,
{
    if i == 0 {
        assert(m.skip(0) =~= m);
    } else {
        lemma_lookup_backend_skip(m, g, p, i - 1);
        let t = m.skip(i - 1);
        assert(t[0] == m[i - 1]);
        assert(t.drop_first() =~= m.skip(i));
    }
}

/// When no binding among the first `i` carries the backend identity, the
/// lookup is decided by the rest of the sequence.
proof fn lemma_lookup_platform_skip(m: Seq<Binding>, b: Seq<char>, i: int)
    requires
        0 <= i <= m.len(),
        forall|j: int| 0 <= j < i ==> #[trigger] m[j].backend != b,
    ensures
        spec_lookup_platform(m, b) == spec_lookup_platform(m.skip(i), b),
    decreases i,
{
    if i == 0 {
        assert(m.skip(0) =~= m);
    } else {
        lemma_lookup_platform_skip(m, b, i - 1);
        let t = m.skip(i - 1);
        assert(t[0] == m[i - 1]);
        assert(t.drop_first() =~= m.skip(i));
    }
}

/// When no binding among the first `i` carries the platform channel, the
/// resolution is decided by the rest of the sequence.
proof fn lemma_resolve_backend_skip(m: Seq<Binding>, p: Seq<char>, i: int)
    requires
        0 <= i <= m.len(),
        forall|j: int| 0 <= j < i ==> #[trigger] m[j].platform != p,
    ensures
        spec_resolve_backend(m, p) == spec_resolve_backend(m.skip(i), p),
    decreases i,
{
    if i == 0 {
        assert(m.skip(0) =~= m);
    } else {
        lemma_resolve_backend_skip(m, p, i - 1);
        let t = m.skip(i - 1);
        assert(t[0] == m[i - 1]);
        assert(t.drop_first() =~= m.skip(i));
    }
}

} // verus!
