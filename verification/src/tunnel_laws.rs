//! What becomes of each tunnel when one is joined, opened, given back, watched or
//! ended, and how a tunnel that does not come up is reported.

use vstd::prelude::*;

use crate::connection::ConnectError;
use crate::keyed::{first_is_matched, first_match, first_match_is_first};
use crate::profile::TunnelConfig;
use crate::profile::TunnelText;
use crate::tunnel::{
    after_end, after_join, after_open, after_release, after_watch, end_reason, explains, is_tunnel,
    is_up, join_lease, joinable, key_of, listed_count, opens, release_closes, sound, told,
    unlisted, HostKeyStatus, KeyText, Opening, RegistryText, Shared, SharedText,
    StoredHostKeys, TunnelEvent, TunnelFault, TunnelKey, TunnelLease,
};

verus! {

/// Whether two records of tunnels agree everywhere but at one place.
pub open spec fn differ_only_at(a: RegistryText, b: RegistryText, at: int) -> bool {
    &&& a.opened == b.opened
    &&& a.tunnels.len() == b.tunnels.len()
    &&& forall|i: int|
        0 <= i < a.tunnels.len() && i != at ==> #[trigger] a.tunnels[i] == b.tunnels[i]
}

/// Whether no tunnel of a record has a number.
pub open spec fn nobody_has(registry: RegistryText, id: u64) -> bool {
    forall|i: int| 0 <= i < registry.tunnels.len() ==> (#[trigger] registry.tunnels[i]).id != id
}

/// A tunnel has a number of its own, so it is the one that answers to it.
proof fn lemma_found_by_number(registry: RegistryText, at: int)
    requires
        sound(registry),
        0 <= at < registry.tunnels.len(),
    ensures
        first_match(registry.tunnels, is_tunnel(registry.tunnels[at].id)) == Some(at),
{
    let id = registry.tunnels[at].id;
    assert forall|k: int| 0 <= k < at implies !is_tunnel(id)(#[trigger] registry.tunnels[k]) by {
        assert(registry.tunnels[k].id != registry.tunnels[at].id);
    }
    first_is_matched(registry.tunnels, is_tunnel(id), at);
}

/// No tunnel answers to a number that none has.
proof fn lemma_nobody(registry: RegistryText, id: u64)
    requires
        nobody_has(registry, id),
    ensures
        first_match(registry.tunnels, is_tunnel(id)) is None,
{
    first_match_is_first(registry.tunnels, is_tunnel(id));
}

/// A tunnel that can be joined is the one that answers to its key.
proof fn lemma_found_by_key(registry: RegistryText, at: int)
    requires
        sound(registry),
        0 <= at < registry.tunnels.len(),
        registry.tunnels[at].listed,
    ensures
        first_match(registry.tunnels, joinable(registry.tunnels[at].key)) == Some(at),
{
    let key = registry.tunnels[at].key;
    assert forall|k: int| 0 <= k < at implies !joinable(key)(#[trigger] registry.tunnels[k]) by {
        assert(registry.tunnels[k].listed ==> registry.tunnels[k].key != registry.tunnels[at].key);
    }
    first_is_matched(registry.tunnels, joinable(key), at);
}

/// A session whose key a tunnel that is up answers to gets a lease on that tunnel
/// and its port; the tunnel has one lease more, and nothing else changes. A tunnel
/// that has ended gives no lease, and cannot be joined from there on.
pub proof fn joining_adds_one_lease(registry: RegistryText, at: int)
    requires
        sound(registry),
        0 <= at < registry.tunnels.len(),
        registry.tunnels[at].listed,
    ensures
        ({
            let tunnel = registry.tunnels[at];
            let after = after_join(registry, tunnel.key);
            &&& differ_only_at(after, registry, at)
            &&& after.tunnels[at].id == tunnel.id
            &&& after.tunnels[at].key == tunnel.key
            &&& after.tunnels[at].local_port == tunnel.local_port
            &&& after.tunnels[at].dead == tunnel.dead
            &&& after.tunnels[at].watchers == tunnel.watchers
            &&& after.tunnels[at].listed == !tunnel.dead
            &&& after.tunnels[at].leases == tunnel.leases + if tunnel.dead {
                0int
            } else {
                1
            }
            &&& match join_lease(registry, tunnel.key) {
                Some(lease) => !tunnel.dead && lease.tunnel == tunnel.id && lease.local_port
                    == tunnel.local_port,
                None => tunnel.dead,
            }
        }),
{
    lemma_found_by_key(registry, at);
}

/// A session whose key no tunnel answers to gets no lease and changes nothing.
pub proof fn nothing_to_join(registry: RegistryText, key: KeyText)
    requires
        forall|i: int|
            0 <= i < registry.tunnels.len() && (#[trigger] registry.tunnels[i]).listed
                ==> registry.tunnels[i].key != key,
    ensures
        join_lease(registry, key) is None,
        after_join(registry, key) == registry,
{
    first_match_is_first(registry.tunnels, joinable(key));
}

/// A tunnel that has come up stands behind the others under the number after all
/// earlier ones, with one lease, and is from there on the one to join under its
/// key. The others stay, whatever leases are on them.
pub proof fn a_new_tunnel_is_the_one_to_join(registry: RegistryText, key: KeyText, port: u16)
    requires
        sound(registry),
        registry.opened < u64::MAX,
    ensures
        ({
            let after = after_open(registry, key, port);
            let last = registry.tunnels.len() as int;
            &&& after.opened == registry.opened + 1
            &&& after.tunnels.len() == registry.tunnels.len() + 1
            &&& after.tunnels[last].id == registry.opened
            &&& after.tunnels[last].key == key
            &&& after.tunnels[last].local_port == port
            &&& after.tunnels[last].leases == 1
            &&& !after.tunnels[last].dead
            &&& after.tunnels[last].listed
            &&& after.tunnels[last].watchers.len() == 0
            &&& forall|i: int|
                0 <= i < registry.tunnels.len() ==> {
                    let was = registry.tunnels[i];
                    let is = #[trigger] after.tunnels[i];
                    &&& is.id == was.id
                    &&& is.key == was.key
                    &&& is.local_port == was.local_port
                    &&& is.leases == was.leases
                    &&& is.dead == was.dead
                    &&& is.watchers == was.watchers
                    &&& is.listed == (was.listed && was.key != key)
                }
        }),
{
    first_match_is_first(registry.tunnels, joinable(key));
    let after = after_open(registry, key, port);
    assert forall|i: int| 0 <= i < registry.tunnels.len() implies (#[trigger] after.tunnels[i])
        == (SharedText {
        listed: registry.tunnels[i].listed && registry.tunnels[i].key != key,
        ..registry.tunnels[i]
    }) by {
        assert(after.tunnels[i] == unlisted(registry.tunnels, key)[i]);
        match first_match(registry.tunnels, joinable(key)) {
            Some(at) => {
                if i < at {
                    assert(!joinable(key)(registry.tunnels[i]));
                } else if at < i {
                    assert(registry.tunnels[at].listed && registry.tunnels[i].listed
                        ==> registry.tunnels[at].key != registry.tunnels[i].key);
                }
            },
            None => {
                assert(!joinable(key)(registry.tunnels[i]));
            },
        }
    }
}

/// A lease given back is taken off its own tunnel. The last one closes the tunnel,
/// which is gone from the record, and the others keep their order.
pub proof fn giving_back_takes_one_lease(registry: RegistryText, at: int)
    requires
        sound(registry),
        0 <= at < registry.tunnels.len(),
    ensures
        ({
            let tunnel = registry.tunnels[at];
            let after = after_release(registry, tunnel.id);
            &&& release_closes(registry, tunnel.id) <==> tunnel.leases == 1
            &&& tunnel.leases == 1 ==> after.tunnels == registry.tunnels.take(at)
                + registry.tunnels.skip(at + 1) && after.opened == registry.opened
            &&& tunnel.leases > 1 ==> differ_only_at(after, registry, at)
                && after.tunnels[at].leases + 1 == tunnel.leases && after.tunnels[at].id
                == tunnel.id && after.tunnels[at].key == tunnel.key && after.tunnels[at].local_port
                == tunnel.local_port && after.tunnels[at].dead == tunnel.dead
                && after.tunnels[at].listed == tunnel.listed && after.tunnels[at].watchers
                == tunnel.watchers
        }),
{
    lemma_found_by_number(registry, at);
    let after = after_release(registry, registry.tunnels[at].id);
    assert(registry.tunnels[at].leases > 0);
    if registry.tunnels[at].leases == 1 {
        assert(after.tunnels =~= registry.tunnels.take(at) + registry.tunnels.skip(at + 1));
    }
}

/// The end of a tunnel is told to everybody who asked to be told, in the order they
/// asked in. The tunnel is down and still on record, with the leases on it, and no
/// other tunnel is touched.
pub proof fn everybody_who_asked_is_told(registry: RegistryText, at: int)
    requires
        sound(registry),
        0 <= at < registry.tunnels.len(),
    ensures
        ({
            let tunnel = registry.tunnels[at];
            let after = after_end(registry, tunnel.id);
            &&& told(registry, tunnel.id) == tunnel.watchers
            &&& differ_only_at(after, registry, at)
            &&& after.tunnels[at].dead
            &&& after.tunnels[at].watchers.len() == 0
            &&& after.tunnels[at].id == tunnel.id
            &&& after.tunnels[at].key == tunnel.key
            &&& after.tunnels[at].local_port == tunnel.local_port
            &&& after.tunnels[at].leases == tunnel.leases
            &&& after.tunnels[at].listed == tunnel.listed
        }),
{
    lemma_found_by_number(registry, at);
}

/// Who asks to be told of the end of a tunnel that is up is put behind those who
/// asked before; of one that has ended, nothing is put down.
pub proof fn who_asks_goes_last(registry: RegistryText, at: int, watcher: u64)
    requires
        sound(registry),
        0 <= at < registry.tunnels.len(),
    ensures
        ({
            let tunnel = registry.tunnels[at];
            let after = after_watch(registry, tunnel.id, watcher);
            &&& is_up(registry, tunnel.id) == !tunnel.dead
            &&& tunnel.dead ==> after == registry
            &&& !tunnel.dead ==> differ_only_at(after, registry, at) && after.tunnels[at].watchers
                == tunnel.watchers + seq![watcher] && after.tunnels[at].id == tunnel.id
                && after.tunnels[at].key == tunnel.key && after.tunnels[at].local_port
                == tunnel.local_port && after.tunnels[at].leases == tunnel.leases
                && !after.tunnels[at].dead && after.tunnels[at].listed == tunnel.listed
        }),
{
    lemma_found_by_number(registry, at);
    assert(registry.tunnels[at].watchers.push(watcher) =~= registry.tunnels[at].watchers
        + seq![watcher]);
}

/// A number that no tunnel has changes nothing, whatever is asked of it, and counts
/// as one whose tunnel has ended.
pub proof fn an_unknown_number_changes_nothing(registry: RegistryText, id: u64, watcher: u64)
    requires
        nobody_has(registry, id),
    ensures
        after_release(registry, id) == registry,
        !release_closes(registry, id),
        after_end(registry, id) == registry,
        told(registry, id).len() == 0,
        after_watch(registry, id, watcher) == registry,
        !is_up(registry, id),
{
    lemma_nobody(registry, id);
}

/// The tunnels counted are those that can be joined, each once.
pub proof fn the_count_is_of_what_can_be_joined(tunnels: Seq<SharedText>)
    ensures
        listed_count(tunnels) == tunnels.filter(|t: SharedText| t.listed).len(),
    decreases tunnels.len(),
{
    reveal(Seq::filter);
    if tunnels.len() > 0 {
        the_count_is_of_what_can_be_joined(tunnels.drop_last());
    }
}

/// Two profiles share a tunnel exactly where they name the same bastion, the same
/// user on it, the same target and the same local port: how they log in is their
/// own affair.
pub proof fn a_tunnel_is_shared_by_where_it_leads(a: TunnelText, b: TunnelText)
    ensures
        key_of(a) == key_of(b) <==> {
            &&& a.host == b.host
            &&& a.port == b.port
            &&& a.username == b.username
            &&& a.remote_host == b.remote_host
            &&& a.remote_port == b.remote_port
            &&& a.local_port == b.local_port
        },
{
}

/// What is known of a tunnel is what its record holds, and two keys that read the
/// same are the same in every part.
pub proof fn a_record_says_all_it_holds(
    config: TunnelConfig,
    key: TunnelKey,
    other: TunnelKey,
    shared: Shared,
)
    ensures
        config@.host == config.host@,
        config@.port == config.port,
        config@.username == config.username@,
        config@.auth == config.auth@,
        config@.remote_host == config.remote_host@,
        config@.remote_port == config.remote_port,
        config@.local_port == config.local_port,
        key@ == other@ <==> {
            &&& key.host@ == other.host@
            &&& key.port == other.port
            &&& key.username@ == other.username@
            &&& key.remote_host@ == other.remote_host@
            &&& key.remote_port == other.remote_port
            &&& key.local_port == other.local_port
        },
        shared@.id == shared.id,
        shared@.key == shared.key@,
        shared@.local_port == shared.local_port,
        shared@.leases == shared.leases,
        shared@.dead == shared.dead,
        shared@.listed == shared.listed,
        shared@.watchers == shared.watchers@,
{
}

/// A tunnel that does not come up is reported for what stopped it. A key that the
/// bastion showed and that was turned down is named as the key it showed: against
/// the one on record where there is another, and as an unknown one where there is
/// none. Anything else is reported in the words it came with, its kind before its
/// message.
pub proof fn a_refused_key_is_named(
    error: ConnectError,
    keys: StoredHostKeys,
    fault: TunnelFault,
    status: Option<HostKeyStatus>,
)
    requires
        explains(error, keys, fault, status),
    ensures
        match error {
            ConnectError::HostKeyMismatch { host, presented, stored } => {
                &&& fault.host_key_rejected
                &&& host == keys.host
                &&& keys.seen matches Some(seen) && seen.fingerprint == presented
                &&& status matches Some(HostKeyStatus::Mismatch { stored_fingerprint })
                    && stored_fingerprint == stored
            },
            ConnectError::HostKeyUnknown { host, fingerprint, algorithm } => {
                &&& fault.host_key_rejected
                &&& host == keys.host
                &&& keys.seen matches Some(seen) && seen.fingerprint == fingerprint
                    && seen.algorithm == algorithm
                &&& !(status matches Some(HostKeyStatus::Mismatch { .. }))
            },
            ConnectError::Tunnel(line) => {
                &&& !fault.host_key_rejected || keys.seen is None
                &&& line@ == fault.kind@ + ": "@ + fault.message@
            },
            _ => false,
        },
{
}

/// A tunnel is up once its port is bound and not before, and failed once it has
/// reported a fault, has been cut off, or has nothing more to report; what it was
/// cut off for is what is reported.
pub proof fn a_tunnel_is_up_once_its_port_is_bound(
    outcome: Opening,
    event: Option<TunnelEvent>,
    keys: StoredHostKeys,
    status: Option<HostKeyStatus>,
)
    requires
        opens(outcome, event, keys, status),
    ensures
        match outcome {
            Opening::Bound(port) => event == Some(TunnelEvent::Ready { local_port: port }),
            Opening::Pending => event == Some(TunnelEvent::Progress),
            Opening::Failed(error) => match event {
                Some(TunnelEvent::Error(fault)) => explains(error, keys, fault, status),
                Some(TunnelEvent::Disconnected { reason }) => error == ConnectError::Tunnel(reason),
                Some(_) => false,
                None => error is Tunnel,
            },
        },
{
}

/// A tunnel that was up goes on through everything but a fault, a cut and the end of
/// its reports, and says why it did not.
pub proof fn a_tunnel_goes_on_until_it_says_so(event: Option<TunnelEvent>)
    ensures
        end_reason(event) is None <==> event matches Some(TunnelEvent::Ready { .. }) || event
            matches Some(TunnelEvent::Progress),
        event matches Some(TunnelEvent::Error(fault)) ==> end_reason(event) == Some(
            fault.kind@ + ": "@ + fault.message@,
        ),
        event matches Some(TunnelEvent::Disconnected { reason }) ==> end_reason(event) == Some(
            reason@,
        ),
{
}

} // verus!
