use rudbman_app::connection::ConnectError;
use rudbman_app::profile::TunnelConfig;
use rudbman_app::tunnel::{
    ended, open_tunnel, open_tunnel_count, HostKeyStatus, Opening, StoredHostKeys, TunnelEvent,
    TunnelFault, TunnelKey, TunnelRegistry, TUNNEL_IS_DOWN,
};

fn key(port: u16) -> TunnelKey {
    TunnelKey::of(&TunnelConfig {
        host: "bastion".to_string(),
        remote_host: "db.internal".to_string(),
        remote_port: port,
        ..TunnelConfig::default()
    })
}

fn rejected() -> TunnelFault {
    TunnelFault {
        host_key_rejected: true,
        kind: "host key".to_string(),
        message: "rejected".to_string(),
    }
}

#[test]
fn the_last_lease_closes_the_tunnel() {
    let mut registry = TunnelRegistry::default();
    assert_eq!(registry.join(&key(5432)), None);
    let first = registry.open(key(5432), 41234);
    assert_eq!(first.local_port(), 41234);
    let second = registry.join(&key(5432)).expect("the tunnel is up");
    assert_eq!(second.local_port(), 41234);
    assert_eq!(registry.join(&key(5433)), None, "another target is another tunnel");
    assert_eq!(open_tunnel_count(&registry), 1);

    assert!(!registry.release(first));
    assert_eq!(open_tunnel_count(&registry), 1);
    assert!(registry.release(second), "the last one closes it");
    assert_eq!(open_tunnel_count(&registry), 0);
    assert_eq!(registry.join(&key(5432)), None);
}

#[test]
fn an_ended_tunnel_is_not_joined_and_its_watchers_are_told_once() {
    let mut registry = TunnelRegistry::default();
    let old = registry.open(key(5432), 1);
    assert!(!registry.watch(old, 10));
    assert!(!registry.watch(old, 11));
    assert_eq!(registry.end(old.tunnel), vec![10, 11]);
    assert_eq!(registry.end(old.tunnel), Vec::<u64>::new());
    assert!(registry.watch(old, 12), "somebody who comes late is told at once");
    assert_eq!(registry.join(&key(5432)), None);

    // A second tunnel of the same key is not touched by what is left of the first.
    let new = registry.open(key(5432), 2);
    registry.release(old);
    assert_eq!(registry.join(&key(5432)).map(|lease| lease.local_port()), Some(2));
    assert!(!registry.release(new));
    assert_eq!(open_tunnel_count(&registry), 1);
}

#[test]
fn a_key_is_trusted_only_where_the_list_says_so() {
    let mut keys = StoredHostKeys::new("bastion".to_string(), 22);
    let verify = |keys: &mut StoredHostKeys, status| {
        keys.verify("ssh-ed25519".to_string(), "SHA256:aa".to_string(), status)
    };
    assert!(verify(&mut keys, Some(HostKeyStatus::Trusted)));
    assert!(!verify(&mut keys, Some(HostKeyStatus::Unknown)));
    assert!(!verify(
        &mut keys,
        Some(HostKeyStatus::Mismatch { stored_fingerprint: "SHA256:bb".to_string() })
    ));
    assert!(!verify(&mut keys, None), "a list that cannot be read trusts nobody");
    let seen = keys.seen.expect("the key is on record");
    assert_eq!(seen.algorithm, "ssh-ed25519");
    assert!(!seen.trusted);
}

#[test]
fn a_refused_key_is_explained_by_what_was_seen() {
    let mut keys = StoredHostKeys::new("bastion".to_string(), 22);
    match keys.explain(&rejected(), None) {
        ConnectError::Tunnel(line) => assert_eq!(line, "host key: rejected"),
        other => panic!("{other:?}"),
    }
    keys.verify("ssh-ed25519".to_string(), "SHA256:aa".to_string(), Some(HostKeyStatus::Unknown));
    let unknown = keys.explain(&rejected(), Some(HostKeyStatus::Unknown));
    assert!(matches!(unknown, ConnectError::HostKeyUnknown { .. }));
    assert_eq!(
        unknown.message(),
        "bastion presented an unknown ssh-ed25519 host key: SHA256:aa"
    );
    let changed = keys.explain(
        &rejected(),
        Some(HostKeyStatus::Mismatch { stored_fingerprint: "SHA256:bb".to_string() }),
    );
    assert!(matches!(changed, ConnectError::HostKeyMismatch { .. }));
    assert_eq!(
        changed.message(),
        "the host key of bastion has changed: SHA256:aa was presented, SHA256:bb is on record"
    );

    let other = TunnelFault { host_key_rejected: false, ..rejected() };
    assert!(matches!(keys.explain(&other, None), ConnectError::Tunnel(_)));
}

#[test]
fn a_tunnel_is_up_when_its_port_is_real() {
    let keys = StoredHostKeys::new("bastion".to_string(), 22);
    let opening = |event| open_tunnel(event, &keys, None);
    assert!(matches!(
        opening(Some(TunnelEvent::Ready { local_port: 9 })),
        Opening::Bound(9)
    ));
    assert!(matches!(opening(Some(TunnelEvent::Progress)), Opening::Pending));
    match opening(Some(TunnelEvent::Disconnected { reason: "gone".to_string() })) {
        Opening::Failed(ConnectError::Tunnel(line)) => assert_eq!(line, "gone"),
        other => panic!("{other:?}"),
    }
    assert!(matches!(
        opening(Some(TunnelEvent::Error(rejected()))),
        Opening::Failed(ConnectError::Tunnel(_))
    ));
    match opening(None) {
        Opening::Failed(error) => {
            assert_eq!(
                error.message(),
                "the tunnel ended without ever reporting a bound port"
            )
        }
        other => panic!("{other:?}"),
    }
}

#[test]
fn a_tunnel_that_was_up_ends_with_its_reason() {
    assert_eq!(ended(Some(TunnelEvent::Progress)), None);
    assert_eq!(ended(Some(TunnelEvent::Ready { local_port: 1 })), None);
    assert_eq!(
        ended(Some(TunnelEvent::Error(rejected()))),
        Some("host key: rejected".to_string())
    );
    assert_eq!(
        ended(Some(TunnelEvent::Disconnected { reason: "idle".to_string() })),
        Some("idle".to_string())
    );
    assert_eq!(ended(None), Some("the tunnel ended".to_string()));
    assert_eq!(TUNNEL_IS_DOWN, "the tunnel is down");
}
