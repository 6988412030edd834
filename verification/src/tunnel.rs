//! The tunnels that are up, shared between the sessions that run over them.
//!
//! Two profiles that reach the same database through the same bastion get one
//! tunnel between them. Each session holds a lease, and the last lease given back
//! is what closes the tunnel. A tunnel that has ended is never handed out again
//! and never repaired; it stays on record until the leases on it are gone.

use vstd::prelude::*;

use crate::connection::ConnectError;
use crate::keyed::{first_is_matched, first_match, first_match_is_first};
use crate::profile::{TunnelConfig, TunnelText};
use crate::text::{maybe_text, same_text};

verus! {

/// Identity of a tunnel, for the purpose of sharing one: the bastion, the target
/// and the local port that was asked for. How the bastion is logged in to is not
/// part of it.
#[derive(Debug, PartialEq, Eq)]
pub struct TunnelKey {
    pub host: String,
    pub port: u16,
    pub username: String,
    pub remote_host: String,
    pub remote_port: u16,
    pub local_port: u16,
}

/// Identity of a tunnel.
#[verifier::ext_equal]
pub ghost struct KeyText {
    pub host: Seq<char>,
    pub port: u16,
    pub username: Seq<char>,
    pub remote_host: Seq<char>,
    pub remote_port: u16,
    pub local_port: u16,
}

impl View for TunnelKey {
    type V = KeyText;

    open spec fn view(&self) -> KeyText {
        KeyText {
            host: self.host@,
            port: self.port,
            username: self.username@,
            remote_host: self.remote_host@,
            remote_port: self.remote_port,
            local_port: self.local_port,
        }
    }
}

/// The identity of the tunnel a profile asks for.
pub open spec fn key_of(config: TunnelText) -> KeyText {
    KeyText {
        host: config.host,
        port: config.port,
        username: config.username,
        remote_host: config.remote_host,
        remote_port: config.remote_port,
        local_port: config.local_port,
    }
}

impl TunnelKey {
    /// The identity of the tunnel a profile asks for.
    pub fn of(config: &TunnelConfig) -> (r: Self)
        ensures
            r@ == key_of(config@),
    {
        TunnelKey {
            host: config.host.clone(),
            port: config.port,
            username: config.username.clone(),
            remote_host: config.remote_host.clone(),
            remote_port: config.remote_port,
            local_port: config.local_port,
        }
    }

    fn same(&self, other: &TunnelKey) -> (r: bool)
        ensures
            r == (self@ == other@),
    {
        same_text(self.host.as_str(), other.host.as_str()) && self.port == other.port && same_text(
            self.username.as_str(),
            other.username.as_str(),
        ) && same_text(self.remote_host.as_str(), other.remote_host.as_str()) && self.remote_port
            == other.remote_port && self.local_port == other.local_port
    }
}

/// One shared tunnel.
#[derive(Debug)]
pub struct Shared {
    /// What tells this tunnel from any other that was ever opened.
    pub id: u64,
    pub key: TunnelKey,
    /// The port that was actually bound.
    pub local_port: u16,
    /// How many sessions run over it.
    pub leases: usize,
    /// Whether it has ended.
    pub dead: bool,
    /// Whether it is the one a new session with its key may join.
    pub listed: bool,
    /// Who is told when it ends.
    pub watchers: Vec<u64>,
}

/// One shared tunnel.
#[verifier::ext_equal]
pub ghost struct SharedText {
    pub id: u64,
    pub key: KeyText,
    pub local_port: u16,
    pub leases: nat,
    pub dead: bool,
    pub listed: bool,
    pub watchers: Seq<u64>,
}

impl View for Shared {
    type V = SharedText;

    open spec fn view(&self) -> SharedText {
        SharedText {
            id: self.id,
            key: self.key@,
            local_port: self.local_port,
            leases: self.leases as nat,
            dead: self.dead,
            listed: self.listed,
            watchers: self.watchers@,
        }
    }
}

/// One session's claim on a shared tunnel.
#[derive(Clone, Copy, Debug, PartialEq, Eq, Structural)]
pub struct TunnelLease {
    /// The tunnel it is a claim on.
    pub tunnel: u64,
    /// The local port the tunnel is listening on.
    pub local_port: u16,
}

impl TunnelLease {
    /// The local port the tunnel is listening on.
    pub fn local_port(&self) -> (r: u16)
        ensures
            r == self.local_port,
    {
        self.local_port
    }
}

/// The tunnels that sessions run over.
#[derive(Debug)]
pub struct TunnelRegistry {
    /// Every tunnel with a lease on it.
    pub tunnels: Vec<Shared>,
    /// How many have ever been opened.
    pub opened: u64,
}

/// The tunnels that sessions run over.
#[verifier::ext_equal]
pub ghost struct RegistryText {
    pub tunnels: Seq<SharedText>,
    pub opened: u64,
}

impl View for TunnelRegistry {
    type V = RegistryText;

    open spec fn view(&self) -> RegistryText {
        RegistryText {
            tunnels: self.tunnels@.map_values(|t: Shared| t@),
            opened: self.opened,
        }
    }
}

/// Whether a tunnel is the one to join for a key.
pub open spec fn joinable(key: KeyText) -> spec_fn(SharedText) -> bool {
    |t: SharedText| t.listed && t.key == key
}

/// Whether a tunnel is the one a lease is a claim on.
pub open spec fn is_tunnel(id: u64) -> spec_fn(SharedText) -> bool {
    |t: SharedText| t.id == id
}

/// What is true of the tunnels at any time: each has a lease and a number of its
/// own, and no two can be joined under one key.
pub open spec fn sound(registry: RegistryText) -> bool {
    &&& forall|i: int|
        0 <= i < registry.tunnels.len() ==> (#[trigger] registry.tunnels[i]).leases > 0
            && registry.tunnels[i].id < registry.opened
    &&& forall|i: int, j: int|
        0 <= i < j < registry.tunnels.len() ==> (#[trigger] registry.tunnels[i]).id != (
        #[trigger] registry.tunnels[j]).id
    &&& forall|i: int, j: int|
        0 <= i < j < registry.tunnels.len() && (#[trigger] registry.tunnels[i]).listed && (
        #[trigger] registry.tunnels[j]).listed ==> registry.tunnels[i].key
            != registry.tunnels[j].key
}

/// The tunnels once a session has tried to join one: a lease more on the one that
/// is up, and one that has ended can no longer be joined.
pub open spec fn after_join(registry: RegistryText, key: KeyText) -> RegistryText {
    match first_match(registry.tunnels, joinable(key)) {
        Some(at) => {
            let tunnel = registry.tunnels[at];
            let changed = if tunnel.dead {
                SharedText { listed: false, ..tunnel }
            } else {
                SharedText { leases: tunnel.leases + 1, ..tunnel }
            };
            RegistryText { tunnels: registry.tunnels.update(at, changed), ..registry }
        },
        None => registry,
    }
}

/// The lease a session that tries to join gets, if any.
pub open spec fn join_lease(registry: RegistryText, key: KeyText) -> Option<TunnelLease> {
    match first_match(registry.tunnels, joinable(key)) {
        Some(at) => {
            let tunnel = registry.tunnels[at];
            if tunnel.dead {
                None
            } else {
                Some(TunnelLease { tunnel: tunnel.id, local_port: tunnel.local_port })
            }
        },
        None => None,
    }
}

/// The tunnels with none to join under the key.
pub open spec fn unlisted(tunnels: Seq<SharedText>, key: KeyText) -> Seq<SharedText> {
    match first_match(tunnels, joinable(key)) {
        Some(at) => tunnels.update(at, SharedText { listed: false, ..tunnels[at] }),
        None => tunnels,
    }
}

/// The tunnels once one has come up.
pub open spec fn after_open(registry: RegistryText, key: KeyText, port: u16) -> RegistryText {
    RegistryText {
        tunnels: unlisted(registry.tunnels, key).push(
            SharedText {
                id: registry.opened,
                key,
                local_port: port,
                leases: 1,
                dead: false,
                listed: true,
                watchers: Seq::empty(),
            },
        ),
        opened: (registry.opened + 1) as u64,
    }
}

/// The tunnels once a lease has been given back.
pub open spec fn after_release(registry: RegistryText, id: u64) -> RegistryText {
    match first_match(registry.tunnels, is_tunnel(id)) {
        Some(at) => {
            let tunnel = registry.tunnels[at];
            RegistryText {
                tunnels: if tunnel.leases <= 1 {
                    registry.tunnels.remove(at)
                } else {
                    registry.tunnels.update(
                        at,
                        SharedText { leases: (tunnel.leases - 1) as nat, ..tunnel },
                    )
                },
                ..registry
            }
        },
        None => registry,
    }
}

/// Whether giving a lease back closes the tunnel: it does where it is the last.
pub open spec fn release_closes(registry: RegistryText, id: u64) -> bool {
    match first_match(registry.tunnels, is_tunnel(id)) {
        Some(at) => registry.tunnels[at].leases <= 1,
        None => false,
    }
}

/// The tunnels once one has ended.
pub open spec fn after_end(registry: RegistryText, id: u64) -> RegistryText {
    match first_match(registry.tunnels, is_tunnel(id)) {
        Some(at) => RegistryText {
            tunnels: registry.tunnels.update(
                at,
                SharedText { dead: true, watchers: Seq::empty(), ..registry.tunnels[at] },
            ),
            ..registry
        },
        None => registry,
    }
}

/// Who is told that a tunnel has ended.
pub open spec fn told(registry: RegistryText, id: u64) -> Seq<u64> {
    match first_match(registry.tunnels, is_tunnel(id)) {
        Some(at) => registry.tunnels[at].watchers,
        None => Seq::empty(),
    }
}

/// Whether a tunnel is up.
pub open spec fn is_up(registry: RegistryText, id: u64) -> bool {
    match first_match(registry.tunnels, is_tunnel(id)) {
        Some(at) => !registry.tunnels[at].dead,
        None => false,
    }
}

/// The tunnels once somebody has asked to be told of the end of one.
pub open spec fn after_watch(registry: RegistryText, id: u64, watcher: u64) -> RegistryText {
    match first_match(registry.tunnels, is_tunnel(id)) {
        Some(at) => if registry.tunnels[at].dead {
            registry
        } else {
            let tunnel = registry.tunnels[at];
            RegistryText {
                tunnels: registry.tunnels.update(
                    at,
                    SharedText { watchers: tunnel.watchers.push(watcher), ..tunnel },
                ),
                ..registry
            }
        },
        None => registry,
    }
}

/// How many of the tunnels can be joined.
pub open spec fn listed_count(tunnels: Seq<SharedText>) -> nat
    decreases tunnels.len(),
{
    if tunnels.len() == 0 {
        0
    } else {
        listed_count(tunnels.drop_last()) + if tunnels.last().listed {
            1nat
        } else {
            0
        }
    }
}

impl Default for TunnelRegistry {
    fn default() -> (r: Self)
        ensures
            r@ == (RegistryText { tunnels: Seq::empty(), opened: 0 }),
            sound(r@),
    {
        let r = TunnelRegistry { tunnels: Vec::new(), opened: 0 };
        assert(r@.tunnels =~= Seq::<SharedText>::empty());
        r
    }
}

impl TunnelRegistry {
    fn joinable_at(&self, key: &TunnelKey) -> (r: usize)
        ensures
            r <= self@.tunnels.len(),
            first_match(self@.tunnels, joinable(key@)) == (if r < self@.tunnels.len() {
                Some(r as int)
            } else {
                None
            }),
    {
        let mut i: usize = 0;
        while i < self.tunnels.len()
            invariant
                i <= self@.tunnels.len(),
                self@.tunnels.len() == self.tunnels@.len(),
                forall|k: int| 0 <= k < i ==> !joinable(key@)(#[trigger] self@.tunnels[k]),
            decreases self.tunnels.len() - i,
        {
            if self.tunnels[i].listed && self.tunnels[i].key.same(key) {
                proof {
                    first_is_matched(self@.tunnels, joinable(key@), i as int);
                }
                return i;
            }
            i = i + 1;
        }
        proof {
            first_match_is_first(self@.tunnels, joinable(key@));
        }
        i
    }

    fn tunnel_at(&self, id: u64) -> (r: usize)
        ensures
            r <= self@.tunnels.len(),
            first_match(self@.tunnels, is_tunnel(id)) == (if r < self@.tunnels.len() {
                Some(r as int)
            } else {
                None
            }),
    {
        let mut i: usize = 0;
        while i < self.tunnels.len()
            invariant
                i <= self@.tunnels.len(),
                self@.tunnels.len() == self.tunnels@.len(),
                forall|k: int| 0 <= k < i ==> !is_tunnel(id)(#[trigger] self@.tunnels[k]),
            decreases self.tunnels.len() - i,
        {
            if self.tunnels[i].id == id {
                proof {
                    first_is_matched(self@.tunnels, is_tunnel(id), i as int);
                }
                return i;
            }
            i = i + 1;
        }
        proof {
            first_match_is_first(self@.tunnels, is_tunnel(id));
        }
        i
    }

    fn part(&mut self, at: usize) -> (r: Shared)
        requires
            at < old(self).tunnels@.len(),
        ensures
            r == old(self).tunnels@[at as int],
            final(self)@.tunnels == old(self)@.tunnels.remove(at as int),
            final(self).opened == old(self).opened,
            final(self).tunnels@.len() == old(self).tunnels@.len() - 1,
    {
        let ghost before = self@.tunnels;
        let r = self.tunnels.remove(at);
        assert(self@.tunnels =~= before.remove(at as int));
        r
    }

    fn put_back(&mut self, at: usize, tunnel: Shared)
        requires
            at <= old(self).tunnels@.len(),
        ensures
            final(self)@.tunnels == old(self)@.tunnels.insert(at as int, tunnel@),
            final(self).opened == old(self).opened,
    {
        let ghost before = self@.tunnels;
        let ghost shown = tunnel@;
        self.tunnels.insert(at, tunnel);
        assert(self@.tunnels =~= before.insert(at as int, shown));
    }

    /// Takes a lease on the tunnel that is up under `key`, without touching the
    /// network. One that has ended is not handed out, and is not asked again.
    pub fn join(&mut self, key: &TunnelKey) -> (r: Option<TunnelLease>)
        requires
            forall|i: int|
                0 <= i < old(self)@.tunnels.len() ==> (#[trigger] old(self)@.tunnels[i]).leases
                    < usize::MAX,
        ensures
            final(self)@ == after_join(old(self)@, key@),
            r == join_lease(old(self)@, key@),
    {
        let ghost before = self@;
        let at: usize = self.joinable_at(key);
        if at < self.tunnels.len() {
            assert(before.tunnels[at as int] == self.tunnels@[at as int]@);
            let mut tunnel = self.part(at);
            let lease = if tunnel.dead {
                tunnel.listed = false;
                None
            } else {
                tunnel.leases = tunnel.leases + 1;
                Some(TunnelLease { tunnel: tunnel.id, local_port: tunnel.local_port })
            };
            let ghost shown = tunnel@;
            self.put_back(at, tunnel);
            assert(self@.tunnels =~= before.tunnels.update(at as int, shown));
            lease
        } else {
            None
        }
    }

    /// Puts a tunnel that has just come up on record, with one lease on it.
    pub fn open(&mut self, key: TunnelKey, local_port: u16) -> (r: TunnelLease)
        requires
            old(self)@.opened < u64::MAX,
        ensures
            final(self)@ == after_open(old(self)@, key@, local_port),
            r == (TunnelLease { tunnel: old(self)@.opened, local_port }),
    {
        let ghost before = self@;
        let at: usize = self.joinable_at(&key);
        if at < self.tunnels.len() {
            assert(before.tunnels[at as int] == self.tunnels@[at as int]@);
            let mut tunnel = self.part(at);
            tunnel.listed = false;
            let ghost shown = tunnel@;
            self.put_back(at, tunnel);
            assert(self@.tunnels =~= before.tunnels.update(at as int, shown));
        }
        assert(self@.tunnels =~= unlisted(before.tunnels, key@));
        let ghost middle = self@.tunnels;
        let id: u64 = self.opened;
        let tunnel = Shared {
            id,
            key,
            local_port,
            leases: 1,
            dead: false,
            listed: true,
            watchers: Vec::new(),
        };
        let ghost shown = tunnel@;
        self.tunnels.push(tunnel);
        self.opened = id + 1;
        assert(self@.tunnels =~= middle.push(shown));
        assert(shown.watchers =~= Seq::<u64>::empty());
        TunnelLease { tunnel: id, local_port }
    }

    /// Gives a lease back. Says whether it was the last, and the tunnel is to be
    /// closed.
    pub fn release(&mut self, lease: TunnelLease) -> (r: bool)
        ensures
            final(self)@ == after_release(old(self)@, lease.tunnel),
            r == release_closes(old(self)@, lease.tunnel),
    {
        let ghost before = self@;
        let at: usize = self.tunnel_at(lease.tunnel);
        if at < self.tunnels.len() {
            assert(before.tunnels[at as int] == self.tunnels@[at as int]@);
            let mut tunnel = self.part(at);
            if tunnel.leases <= 1 {
                return true;
            }
            tunnel.leases = tunnel.leases - 1;
            let ghost shown = tunnel@;
            self.put_back(at, tunnel);
            assert(self@.tunnels =~= before.tunnels.update(at as int, shown));
        }
        false
    }

    /// Marks a tunnel as ended. Gives back who is to be told, once each.
    pub fn end(&mut self, id: u64) -> (r: Vec<u64>)
        ensures
            final(self)@ == after_end(old(self)@, id),
            r@ == told(old(self)@, id),
    {
        let ghost before = self@;
        let at: usize = self.tunnel_at(id);
        if at < self.tunnels.len() {
            assert(before.tunnels[at as int] == self.tunnels@[at as int]@);
            let mut tunnel = self.part(at);
            let mut watchers: Vec<u64> = Vec::new();
            std::mem::swap(&mut watchers, &mut tunnel.watchers);
            tunnel.dead = true;
            let ghost shown = tunnel@;
            self.put_back(at, tunnel);
            assert(self@.tunnels =~= before.tunnels.update(at as int, shown));
            assert(shown.watchers =~= Seq::<u64>::empty());
            watchers
        } else {
            Vec::new()
        }
    }

    /// Asks to be told of the end of the tunnel a lease is a claim on. Says
    /// whether it has ended already, and whoever asks is told at once.
    pub fn watch(&mut self, lease: TunnelLease, watcher: u64) -> (r: bool)
        ensures
            final(self)@ == after_watch(old(self)@, lease.tunnel, watcher),
            r == !is_up(old(self)@, lease.tunnel),
    {
        let ghost before = self@;
        let at: usize = self.tunnel_at(lease.tunnel);
        if at < self.tunnels.len() {
            assert(before.tunnels[at as int] == self.tunnels@[at as int]@);
            if self.tunnels[at].dead {
                return true;
            }
            let mut tunnel = self.part(at);
            tunnel.watchers.push(watcher);
            let ghost shown = tunnel@;
            self.put_back(at, tunnel);
            assert(self@.tunnels =~= before.tunnels.update(at as int, shown));
            false
        } else {
            true
        }
    }
}

/// How many tunnels are up for joining.
pub fn open_tunnel_count(registry: &TunnelRegistry) -> (r: usize)
    ensures
        r == listed_count(registry@.tunnels),
{
    let mut count: usize = 0;
    let mut i: usize = 0;
    while i < registry.tunnels.len()
        invariant
            i <= registry@.tunnels.len(),
            registry@.tunnels.len() == registry.tunnels@.len(),
            count <= i,
            count == listed_count(registry@.tunnels.take(i as int)),
        decreases registry.tunnels.len() - i,
    {
        let ghost next = registry@.tunnels.take(i + 1);
        assert(next.drop_last() =~= registry@.tunnels.take(i as int));
        assert(next.last() == registry.tunnels@[i as int]@);
        if registry.tunnels[i].listed {
            count = count + 1;
        }
        i = i + 1;
    }
    assert(registry@.tunnels.take(i as int) =~= registry@.tunnels);
    count
}

/// Whatever is done to the tunnels, each has a lease and a number of its own
/// afterwards, and no two can be joined under one key.
pub proof fn the_tunnels_stay_sound(
    registry: RegistryText,
    key: KeyText,
    port: u16,
    id: u64,
    watcher: u64,
)
    requires
        sound(registry),
    ensures
        sound(after_join(registry, key)),
        registry.opened < u64::MAX ==> sound(after_open(registry, key, port)),
        sound(after_release(registry, id)),
        sound(after_end(registry, id)),
        sound(after_watch(registry, id, watcher)),
{
    let tunnels = registry.tunnels;
    first_match_is_first(tunnels, joinable(key));
    first_match_is_first(tunnels, is_tunnel(id));
    if registry.opened < u64::MAX {
        let rest = unlisted(tunnels, key);
        assert forall|i: int| 0 <= i < rest.len() && (#[trigger] rest[i]).listed implies rest[i].key
            != key by {
            assert(tunnels[i].key == rest[i].key);
            if first_match(tunnels, joinable(key)) is Some {
                let at = first_match(tunnels, joinable(key)).unwrap();
                assert(i != at);
                assert(tunnels[at].listed && tunnels[at].key == key);
            } else {
                assert(!joinable(key)(tunnels[i]));
            }
        }
        assert(sound(RegistryText { tunnels: rest, ..registry }));
        assert(sound(after_open(registry, key, port)));
    }
    if first_match(tunnels, is_tunnel(id)) is Some {
        let at = first_match(tunnels, is_tunnel(id)).unwrap();
        let after = after_release(registry, id);
        if tunnels[at].leases <= 1 {
            assert forall|i: int| 0 <= i < after.tunnels.len() implies (
            #[trigger] after.tunnels[i]) == tunnels[if i < at {
                i
            } else {
                i + 1
            }] by {}
        }
        assert(sound(after));
    }
}

/// A session that joins gets a claim on a tunnel that is up, under the key it
/// asked for: one that has ended is never handed out.
pub proof fn an_ended_tunnel_is_never_handed_out(registry: RegistryText, key: KeyText)
    requires
        sound(registry),
    ensures
        join_lease(registry, key) matches Some(lease) ==> {
            &&& is_up(registry, lease.tunnel)
            &&& is_up(after_join(registry, key), lease.tunnel)
            &&& exists|i: int|
                0 <= i < registry.tunnels.len() && (#[trigger] registry.tunnels[i]).id
                    == lease.tunnel && registry.tunnels[i].key == key
                    && registry.tunnels[i].local_port == lease.local_port
        },
{
    first_match_is_first(registry.tunnels, joinable(key));
    if first_match(registry.tunnels, joinable(key)) is Some {
        let at = first_match(registry.tunnels, joinable(key)).unwrap();
        let id = registry.tunnels[at].id;
        assert forall|k: int| 0 <= k < at implies !is_tunnel(id)(#[trigger] registry.tunnels[k]) by {
            assert(registry.tunnels[k].id != registry.tunnels[at].id);
        }
        first_is_matched(registry.tunnels, is_tunnel(id), at);
        let after = after_join(registry, key).tunnels;
        assert forall|k: int| 0 <= k < at implies !is_tunnel(id)(#[trigger] after[k]) by {
            assert(after[k] == registry.tunnels[k]);
        }
        first_is_matched(after, is_tunnel(id), at);
    }
}

/// How many leases there are on a tunnel.
pub open spec fn leases_on(registry: RegistryText, id: u64) -> nat {
    match first_match(registry.tunnels, is_tunnel(id)) {
        Some(at) => registry.tunnels[at].leases,
        None => 0,
    }
}

/// The last lease given back is what closes a tunnel, and no other is: a release
/// takes one lease off its own tunnel, closes it exactly where none is left, and
/// leaves every other tunnel with the leases it had.
pub proof fn the_last_lease_closes_the_tunnel(registry: RegistryText, id: u64, other: u64)
    requires
        sound(registry),
    ensures
        ({
            let after = after_release(registry, id);
            &&& leases_on(registry, id) > 0 ==> leases_on(after, id) + 1 == leases_on(registry, id)
            &&& leases_on(registry, id) == 0 ==> after == registry
            &&& release_closes(registry, id) <==> leases_on(registry, id) == 1
            &&& other != id ==> leases_on(after, other) == leases_on(registry, other)
                && is_up(after, other) == is_up(registry, other)
        }),
{
    let tunnels = registry.tunnels;
    first_match_is_first(tunnels, is_tunnel(id));
    if first_match(tunnels, is_tunnel(id)) is Some {
        let at = first_match(tunnels, is_tunnel(id)).unwrap();
        let after = after_release(registry, id).tunnels;
        first_match_is_first(after, is_tunnel(id));
        first_match_is_first(tunnels, is_tunnel(other));
        first_match_is_first(after, is_tunnel(other));
        if tunnels[at].leases <= 1 {
            assert forall|i: int| 0 <= i < after.len() implies (#[trigger] after[i]) == tunnels[if i
                < at {
                i
            } else {
                i + 1
            }] by {}
            if first_match(after, is_tunnel(id)) is Some {
                let found = first_match(after, is_tunnel(id)).unwrap();
                assert(after[found].id == id);
            }
            if other != id {
                if first_match(tunnels, is_tunnel(other)) is Some {
                    let was = first_match(tunnels, is_tunnel(other)).unwrap();
                    let now = if was < at {
                        was
                    } else {
                        was - 1
                    };
                    assert(after[now] == tunnels[was]);
                    assert forall|k: int| 0 <= k < now implies !is_tunnel(other)(
                        #[trigger] after[k],
                    ) by {
                        assert(!is_tunnel(other)(tunnels[k]));
                        assert(k >= at ==> !is_tunnel(other)(tunnels[k + 1]));
                    }
                    first_is_matched(after, is_tunnel(other), now);
                } else if first_match(after, is_tunnel(other)) is Some {
                    let now = first_match(after, is_tunnel(other)).unwrap();
                    assert(!is_tunnel(other)(tunnels[now]));
                    assert(now >= at ==> !is_tunnel(other)(tunnels[now + 1]));
                }
            }
        } else {
            assert forall|k: int| 0 <= k < at implies !is_tunnel(id)(#[trigger] after[k]) by {
                assert(after[k] == tunnels[k]);
            }
            first_is_matched(after, is_tunnel(id), at);
            if other != id {
                if first_match(tunnels, is_tunnel(other)) is Some {
                    let was = first_match(tunnels, is_tunnel(other)).unwrap();
                    assert(was != at);
                    assert(after[was] == tunnels[was]);
                    assert forall|k: int| 0 <= k < was implies !is_tunnel(other)(
                        #[trigger] after[k],
                    ) by {
                        assert(!is_tunnel(other)(tunnels[k]));
                        assert(after[k].id == tunnels[k].id);
                    }
                    first_is_matched(after, is_tunnel(other), was);
                } else if first_match(after, is_tunnel(other)) is Some {
                    let now = first_match(after, is_tunnel(other)).unwrap();
                    assert(after[now].id == tunnels[now].id);
                    assert(!is_tunnel(other)(tunnels[now]));
                }
            }
        }
    }
}

/// Nobody is told twice: whoever is told of the end of a tunnel is on its record
/// no longer, and who asks once it has ended is told at once and not put on it.
pub proof fn the_end_is_told_once(registry: RegistryText, id: u64, watcher: u64)
    ensures
        told(after_end(registry, id), id) == Seq::<u64>::empty(),
        !is_up(after_end(registry, id), id),
        after_watch(after_end(registry, id), id, watcher) == after_end(registry, id),
{
    first_match_is_first(registry.tunnels, is_tunnel(id));
    let after = after_end(registry, id).tunnels;
    if first_match(registry.tunnels, is_tunnel(id)) is Some {
        let at = first_match(registry.tunnels, is_tunnel(id)).unwrap();
        assert forall|k: int| 0 <= k < at implies !is_tunnel(id)(#[trigger] after[k]) by {
            assert(after[k] == registry.tunnels[k]);
        }
        first_is_matched(after, is_tunnel(id), at);
    }
}

/// What whoever asks once a tunnel has ended is told.
pub const TUNNEL_IS_DOWN: &'static str = "the tunnel is down";

/// What a bastion's key is to the list of known hosts.
#[derive(Debug)]
pub enum HostKeyStatus {
    /// It is the one on record.
    Trusted,
    /// There is none on record.
    Unknown,
    /// Another one is on record.
    Mismatch { stored_fingerprint: String },
}

/// What ended a tunnel.
#[derive(Debug)]
pub struct TunnelFault {
    /// Whether the bastion's host key was refused.
    pub host_key_rejected: bool,
    /// The kind of fault, in words.
    pub kind: String,
    pub message: String,
}

/// What a tunnel reports.
#[derive(Debug)]
pub enum TunnelEvent {
    /// The port is bound.
    Ready { local_port: u16 },
    /// The tunnel has failed.
    Error(TunnelFault),
    /// The tunnel has ended.
    Disconnected { reason: String },
    /// Anything else: the transport is still healthy.
    Progress,
}

/// A key a bastion presented.
#[derive(Debug)]
pub struct SeenKey {
    pub algorithm: String,
    pub fingerprint: String,
    pub trusted: bool,
}

/// The host key policy for one bastion: the list of known hosts decides, and an
/// unknown key is refused. What was presented is put on record, so that the
/// failure can name it.
#[derive(Debug)]
pub struct StoredHostKeys {
    pub host: String,
    pub port: u16,
    pub seen: Option<SeenKey>,
}

/// A fault in one line.
pub open spec fn fault_line(fault: TunnelFault) -> Seq<char> {
    fault.kind@ + ": "@ + fault.message@
}

/// A fault in one line.
fn fault_text(fault: &TunnelFault) -> (r: String)
    ensures
        r@ == fault_line(*fault),
{
    let mut line = fault.kind.clone();
    line.append(": ");
    line.append(fault.message.as_str());
    line
}

/// Whether a failure is the one a tunnel's fault comes to: a refused host key is
/// reported as the key that was seen, either as one that contradicts the one on
/// record or as one nobody has trusted; anything else in its own words.
pub open spec fn explains(
    error: ConnectError,
    keys: StoredHostKeys,
    fault: TunnelFault,
    status: Option<HostKeyStatus>,
) -> bool {
    if !fault.host_key_rejected || keys.seen is None {
        error matches ConnectError::Tunnel(line) && line@ == fault_line(fault)
    } else {
        let seen = keys.seen.unwrap();
        match status {
            Some(HostKeyStatus::Mismatch { stored_fingerprint }) => error == (
            ConnectError::HostKeyMismatch {
                host: keys.host,
                presented: seen.fingerprint,
                stored: stored_fingerprint,
            }),
            _ => error == (ConnectError::HostKeyUnknown {
                host: keys.host,
                fingerprint: seen.fingerprint,
                algorithm: seen.algorithm,
            }),
        }
    }
}

impl StoredHostKeys {
    /// The policy for one bastion.
    pub fn new(host: String, port: u16) -> (r: Self)
        ensures
            r == (StoredHostKeys { host, port, seen: None }),
    {
        StoredHostKeys { host, port, seen: None }
    }

    /// Whether a key is trusted: only where the list of known hosts could be read
    /// and says so. Puts the key on record either way.
    pub fn verify(
        &mut self,
        algorithm: String,
        fingerprint: String,
        status: Option<HostKeyStatus>,
    ) -> (r: bool)
        ensures
            r == (status == Some(HostKeyStatus::Trusted)),
            *final(self) == (StoredHostKeys {
                seen: Some(SeenKey { algorithm, fingerprint, trusted: r }),
                ..*old(self)
            }),
    {
        let trusted = match status {
            Some(HostKeyStatus::Trusted) => true,
            _ => false,
        };
        self.seen = Some(SeenKey { algorithm, fingerprint, trusted });
        trusted
    }

    /// Turns a tunnel's fault into the failure that is shown. `status` is what the
    /// list of known hosts says of the key that was seen, or nothing where it
    /// could not be read.
    pub fn explain(&self, fault: &TunnelFault, status: Option<HostKeyStatus>) -> (r: ConnectError)
        ensures
            explains(r, *self, *fault, status),
    {
        if !fault.host_key_rejected {
            return ConnectError::Tunnel(fault_text(fault));
        }
        match &self.seen {
            Some(seen) => match status {
                Some(HostKeyStatus::Mismatch { stored_fingerprint }) => {
                    ConnectError::HostKeyMismatch {
                        host: self.host.clone(),
                        presented: seen.fingerprint.clone(),
                        stored: stored_fingerprint,
                    }
                },
                _ => ConnectError::HostKeyUnknown {
                    host: self.host.clone(),
                    fingerprint: seen.fingerprint.clone(),
                    algorithm: seen.algorithm.clone(),
                },
            },
            None => ConnectError::Tunnel(fault_text(fault)),
        }
    }
}

/// What an event means for a tunnel that is being opened.
#[derive(Debug)]
pub enum Opening {
    /// The port is real.
    Bound(u16),
    /// Nothing yet.
    Pending,
    /// The tunnel is to be closed.
    Failed(ConnectError),
}

/// Whether an outcome is the one an event, or the end of all events, comes to
/// while a tunnel is being opened.
pub open spec fn opens(
    outcome: Opening,
    event: Option<TunnelEvent>,
    keys: StoredHostKeys,
    status: Option<HostKeyStatus>,
) -> bool {
    match event {
        Some(TunnelEvent::Ready { local_port }) => outcome == Opening::Bound(local_port),
        Some(TunnelEvent::Error(fault)) => outcome matches Opening::Failed(error) && explains(
            error,
            keys,
            fault,
            status,
        ),
        Some(TunnelEvent::Disconnected { reason }) => outcome == Opening::Failed(
            ConnectError::Tunnel(reason),
        ),
        Some(TunnelEvent::Progress) => outcome == Opening::Pending,
        None => outcome matches Opening::Failed(ConnectError::Tunnel(line)) && line@
            == "the tunnel ended without ever reporting a bound port"@,
    }
}

/// What an event means for a tunnel that is being opened.
pub fn open_tunnel(
    event: Option<TunnelEvent>,
    keys: &StoredHostKeys,
    status: Option<HostKeyStatus>,
) -> (r: Opening)
    ensures
        opens(r, event, *keys, status),
{
    match event {
        Some(TunnelEvent::Ready { local_port }) => Opening::Bound(local_port),
        Some(TunnelEvent::Error(fault)) => Opening::Failed(keys.explain(&fault, status)),
        Some(TunnelEvent::Disconnected { reason }) => Opening::Failed(ConnectError::Tunnel(reason)),
        Some(TunnelEvent::Progress) => Opening::Pending,
        None => Opening::Failed(
            ConnectError::Tunnel("the tunnel ended without ever reporting a bound port".to_owned()),
        ),
    }
}

/// Why a tunnel that was up has ended, if an event, or the end of all events,
/// says that it has.
pub open spec fn end_reason(event: Option<TunnelEvent>) -> Option<Seq<char>> {
    match event {
        Some(TunnelEvent::Error(fault)) => Some(fault_line(fault)),
        Some(TunnelEvent::Disconnected { reason }) => Some(reason@),
        Some(_) => None,
        None => Some("the tunnel ended"@),
    }
}

/// Why a tunnel that was up has ended, if it has.
pub fn ended(event: Option<TunnelEvent>) -> (r: Option<String>)
    ensures
        maybe_text(r) == end_reason(event),
{
    match event {
        Some(TunnelEvent::Error(fault)) => Some(fault_text(&fault)),
        Some(TunnelEvent::Disconnected { reason }) => Some(reason),
        Some(_) => None,
        None => Some("the tunnel ended".to_owned()),
    }
}

} // verus!
