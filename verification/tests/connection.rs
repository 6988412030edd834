use rudbman_app::connection::{
    build_spec, close, connect, is_no_route, mentions_no_route, BridgeError, BridgeErrorKind,
    CloseStep, ConnectAction, ConnectError, ConnectEvent, Connecting, Credentials, JdbcError,
    SessionInfo, Stage, CATALOGUE_PLACEHOLDERS, NO_ROUTE_RETRY_DELAY,
};
use rudbman_app::ordered::TextMap;
use rudbman_app::profile::{ConnectionProfile, DriverDef, KeepAlive, TunnelAuth, TunnelConfig};
use rudbman_app::template::{decompose, placeholders_of, redirect_authority, substitute};
use rudbman_app::tunnel::{open_tunnel_count, TunnelKey, TunnelRegistry};

fn values(pairs: &[(&str, &str)]) -> TextMap<String> {
    let mut map = TextMap::new();
    for (key, value) in pairs {
        map.insert(key.to_string(), value.to_string());
    }
    map
}

fn bridge(kind: BridgeErrorKind, state: Option<&str>, message: &str, causes: &[&str]) -> BridgeError {
    BridgeError {
        kind,
        sql_state: state.map(|state| state.to_string()),
        message: message.to_string(),
        causes: causes.iter().map(|cause| cause.to_string()).collect(),
        shown: message.to_string(),
    }
}

fn driver() -> DriverDef {
    DriverDef {
        id: "h2".to_string(),
        name: "H2".to_string(),
        class: "org.h2.Driver".to_string(),
        jars: vec!["/tmp/h2.jar".to_string()],
        ..DriverDef::default()
    }
}

fn tunnelled() -> ConnectionProfile {
    let mut profile =
        ConnectionProfile::new(1, "x", "h2", "jdbc:postgresql://db.internal:5432/app", "sa");
    profile.tunnel = Some(TunnelConfig {
        host: "bastion".to_string(),
        remote_host: "db.internal".to_string(),
        remote_port: 5432,
        ..TunnelConfig::default()
    });
    profile
}

fn nobody() -> Credentials {
    Credentials::typed(None, None)
}

#[test]
fn a_template_is_filled_hole_by_hole() {
    let filled = substitute(
        "jdbc:postgresql://{host}:{port}/{database}",
        &values(&[("host", "db.example.com"), ("port", "5432"), ("database", "app")]),
    );
    assert_eq!(filled, "jdbc:postgresql://db.example.com:5432/app");

    // SQL Server's semicolon grammar and Oracle's `@//` both go through the same
    // substitution untouched.
    assert_eq!(
        substitute(
            "jdbc:sqlserver://{host}:{port};databaseName={database}",
            &values(&[("host", "sql"), ("port", "1433"), ("database", "app")]),
        ),
        "jdbc:sqlserver://sql:1433;databaseName=app"
    );
    assert_eq!(
        substitute(
            "jdbc:oracle:thin:@//{host}:{port}/{service}",
            &values(&[("host", "ora"), ("port", "1521"), ("service", "ORCLPDB")]),
        ),
        "jdbc:oracle:thin:@//ora:1521/ORCLPDB"
    );
}

#[test]
fn a_hole_nothing_fills_stays_visible() {
    assert_eq!(
        substitute("jdbc:x://{host}/{warehouse}", &values(&[("host", "h")])),
        "jdbc:x://h/{warehouse}"
    );
    // An unbalanced brace is part of the URL.
    assert_eq!(substitute("jdbc:x:{oops", &values(&[])), "jdbc:x:{oops");
}

#[test]
fn the_holes_a_template_uses_are_listed_in_order_and_once_each() {
    assert_eq!(
        placeholders_of("jdbc:postgresql://{host}:{port}/{database}"),
        vec!["host", "port", "database"]
    );
    assert_eq!(placeholders_of("jdbc:sqlite:{file}"), vec!["file"]);
    assert_eq!(
        placeholders_of("jdbc:x://{host}:{port}/?failover={host}"),
        vec!["host", "port"]
    );
    assert!(placeholders_of("jdbc:h2:mem:test").is_empty());
}

#[test]
fn a_tunnel_moves_only_the_authority_of_a_url() {
    assert_eq!(
        redirect_authority("jdbc:postgresql://db.internal:5432/app", "127.0.0.1", 41234),
        "jdbc:postgresql://127.0.0.1:41234/app"
    );
    // The semicolon grammar: the authority ends at the first `;`.
    assert_eq!(
        redirect_authority(
            "jdbc:sqlserver://db.internal:1433;databaseName=app",
            "127.0.0.1",
            41234
        ),
        "jdbc:sqlserver://127.0.0.1:41234;databaseName=app"
    );
    // A query string.
    assert_eq!(
        redirect_authority("jdbc:mysql://db.internal:3306/app?useSSL=false", "127.0.0.1", 1),
        "jdbc:mysql://127.0.0.1:1/app?useSSL=false"
    );
    // A URL with no authority at all has no server to redirect.
    assert_eq!(
        redirect_authority("jdbc:h2:mem:test", "127.0.0.1", 41234),
        "jdbc:h2:mem:test"
    );
    assert_eq!(
        redirect_authority("jdbc:sqlite:/var/db/app.sqlite", "127.0.0.1", 1),
        "jdbc:sqlite:/var/db/app.sqlite"
    );
}

#[test]
fn the_spec_carries_the_profile_and_nothing_it_was_not_given() {
    let mut profile = ConnectionProfile::new(7, "staging", "postgresql", "jdbc:x", "alice");
    profile.read_only = true;
    profile.auto_commit = false;
    profile.props.insert("ssl".to_string(), "true".to_string());
    profile.keep_alive =
        Some(KeepAlive { interval_s: 60, query: "select 1".to_string() });
    let driver = DriverDef {
        id: "postgresql".to_string(),
        class: "org.postgresql.Driver".to_string(),
        jars: vec!["/tmp/pg.jar".to_string()],
        ..DriverDef::default()
    };
    let credentials = Credentials::typed(Some("hunter2".to_string()), None);

    let spec = build_spec(&profile, &driver, &credentials, "jdbc:postgresql://h:1/d");
    assert_eq!(spec.url, "jdbc:postgresql://h:1/d");
    assert_eq!(spec.driver_class, "org.postgresql.Driver");
    assert_eq!(spec.jars, vec!["/tmp/pg.jar".to_string()]);
    assert_eq!(spec.username.as_deref(), Some("alice"));
    assert!(spec.read_only);
    assert!(!spec.auto_commit);
    assert_eq!(spec.props.get("ssl").map(String::as_str), Some("true"));
    assert_eq!(spec.keep_alive.as_ref().map(|keep| keep.interval_s), Some(60));
    assert_eq!(spec.password.as_deref(), Some("hunter2"));
}

#[test]
fn a_profile_with_no_user_name_sends_none_rather_than_an_empty_one() {
    let profile = ConnectionProfile::new(1, "x", "h2", "jdbc:h2:mem:t", "");
    let driver =
        DriverDef { jars: vec!["/tmp/h2.jar".to_string()], ..DriverDef::default() };
    let spec = build_spec(&profile, &driver, &nobody(), "jdbc:h2:mem:t");
    assert_eq!(spec.username, None);
    assert_eq!(spec.password, None);
    assert!(spec.keep_alive.is_none());
}

#[test]
fn a_driver_with_no_jar_is_refused_before_anything_is_opened() {
    // No JVM is started and no tunnel goes up: the check is the first thing a
    // connection does.
    let profile = ConnectionProfile::new(1, "x", "h2", "jdbc:h2:mem:t", "sa");
    let driver = DriverDef { name: "H2".to_string(), ..DriverDef::default() };

    let (state, action) =
        connect(Connecting::new(), ConnectEvent::Asked, &profile, &driver, &nobody(), "");
    assert_eq!(state.stage, Stage::Over);
    match action {
        ConnectAction::Failed { error, undo } => {
            assert!(matches!(error, ConnectError::NoDriverJar(_)), "{error:?}");
            assert!(error.is_driver());
            assert!(undo.is_empty());
            assert_eq!(
                error.message(),
                "the driver “H2” has no JAR; add one in the driver manager"
            );
        }
        _ => panic!("a driver without a JAR cannot connect"),
    }
    assert_eq!(open_tunnel_count(&TunnelRegistry::default()), 0, "nothing may have been opened");
}

#[test]
fn two_profiles_through_one_bastion_share_a_key() {
    let base = || TunnelConfig {
        host: "bastion".to_string(),
        port: 22,
        username: "ops".to_string(),
        remote_host: "db.internal".to_string(),
        remote_port: 5432,
        ..TunnelConfig::default()
    };
    // Same bastion, same target, different auth: one tunnel.
    let with_key = TunnelConfig {
        auth: TunnelAuth::Key { path: "/home/me/.ssh/id".to_string() },
        ..base()
    };
    assert_eq!(TunnelKey::of(&base()), TunnelKey::of(&with_key));

    // A different target is a different tunnel, and so is a pinned local port: a
    // profile that asks for one is asking for that one.
    let other_target = TunnelConfig { remote_port: 5433, ..base() };
    assert_ne!(TunnelKey::of(&base()), TunnelKey::of(&other_target));
    let pinned = TunnelConfig { local_port: 15432, ..base() };
    assert_ne!(TunnelKey::of(&base()), TunnelKey::of(&pinned));
}

#[test]
fn an_authentication_failure_is_told_apart_by_its_sqlstate_class() {
    let refused = |state: &str| {
        ConnectError::Database(bridge(
            BridgeErrorKind::Sql,
            Some(state),
            "invalid credentials",
            &[],
        ))
    };
    assert!(refused("28000").is_authentication());
    assert_eq!(refused("28P01").sql_state_class(), Some("28"));
    assert!(!refused("08001").is_authentication());
    // A failure that never reached the database has no SQLSTATE at all.
    assert_eq!(ConnectError::Tunnel("nope".to_string()).sql_state_class(), None);
}

#[test]
fn a_driver_failure_is_told_apart_from_a_database_one() {
    let driver = bridge(BridgeErrorKind::Driver, None, "no suitable driver", &[]);
    assert!(ConnectError::Database(driver).is_driver());
    let sql = bridge(BridgeErrorKind::Sql, Some("28000"), "nope", &[]);
    assert!(!ConnectError::Database(sql).is_driver());
}

#[test]
fn the_cause_chain_is_appended_to_the_message() {
    let error = bridge(
        BridgeErrorKind::Sql,
        Some("08001"),
        "connection refused",
        &["java.net.ConnectException: Connection refused"],
    );
    let message = ConnectError::Database(error).message();
    assert!(message.contains("connection refused"), "{message}");
    assert!(message.contains("Connection refused"), "{message}");
    // Never the stack.
    assert!(!message.contains("at ..."), "{message}");
    assert_eq!(
        message,
        "connection refused — java.net.ConnectException: Connection refused"
    );
}

#[test]
fn no_route_to_host_is_recognised_from_either_layer() {
    // The SSH tunnel path: the OS error comes as text.
    assert!(is_no_route(&ConnectError::Tunnel(
        "connect: No route to host (os error 65)".to_string()
    )));
    // A differently worded tunnel failure is not the same thing.
    assert!(!is_no_route(&ConnectError::Tunnel(
        "connect: Connection refused (os error 61)".to_string()
    )));

    // The direct JDBC path.
    let error = bridge(
        BridgeErrorKind::Io,
        None,
        "java.net.NoRouteToHostException: No route to host",
        &[],
    );
    assert!(is_no_route(&ConnectError::Database(error)));

    // Variants that fail before any socket is touched are never it, even if their
    // text happened to mention hosts or routes.
    assert!(!is_no_route(&ConnectError::NoDriverJar("no route to host driver".to_string())));
    assert!(!is_no_route(&ConnectError::JvmStart("no route to host".to_string())));
}

#[test]
fn the_words_are_looked_for_in_small_letters() {
    assert!(mentions_no_route("a: no route to host"));
    // The letters are folded before they are looked at, which is the caller's
    // part.
    assert!(!mentions_no_route("a: No route to host"));
    assert!(is_no_route(&ConnectError::Bridge("NO ROUTE TO HOST".to_string())));
}

#[test]
fn a_tunnel_stands_up_before_the_virtual_machine() {
    let profile = tunnelled();
    let driver = driver();
    let credentials = Credentials::typed(Some("pw".to_string()), None);
    let step = |state, event| connect(state, event, &profile, &driver, &credentials, "");

    let (state, action) = step(Connecting::new(), ConnectEvent::Asked);
    assert!(matches!(action, ConnectAction::OpenTunnel));
    let (state, action) = step(state, ConnectEvent::TunnelReady { local_port: 41234 });
    assert!(matches!(action, ConnectAction::StartJvm { default_bridge: true }));
    let (state, action) = step(state, ConnectEvent::JvmReady);
    match action {
        ConnectAction::OpenSession(spec) => {
            assert_eq!(spec.url, "jdbc:postgresql://127.0.0.1:41234/app");
            assert_eq!(spec.password.as_deref(), Some("pw"));
        }
        _ => panic!("the session is opened"),
    }
    let (state, action) = step(state, ConnectEvent::SessionOpened);
    assert!(matches!(action, ConnectAction::ReadInfo));
    let info = SessionInfo {
        product_name: Some("H2".to_string()),
        product_version: Some("2.2".to_string()),
    };
    let (state, action) = step(state, ConnectEvent::InfoRead(info));
    match action {
        ConnectAction::Connected(info) => assert_eq!(info.product().as_deref(), Some("H2 2.2")),
        _ => panic!("the session is open"),
    }
    assert_eq!(state.stage, Stage::Over);

    // An event that does not belong to the stage changes nothing.
    let (after, action) = step(state, ConnectEvent::Waited);
    assert_eq!(after, state);
    assert!(matches!(action, ConnectAction::Nothing));
}

#[test]
fn the_bridge_of_the_settings_is_used_where_they_name_one() {
    let profile = ConnectionProfile::new(1, "x", "h2", "jdbc:h2:mem:t", "sa");
    let (_, action) = connect(
        Connecting::new(),
        ConnectEvent::Asked,
        &profile,
        &driver(),
        &nobody(),
        "/opt/bridge.jar",
    );
    assert!(matches!(action, ConnectAction::StartJvm { default_bridge: false }));
}

#[test]
fn a_host_without_a_route_is_tried_once_more() {
    let profile = tunnelled();
    let driver = driver();
    let credentials = nobody();
    let step = |state, event| connect(state, event, &profile, &driver, &credentials, "");
    let lost = || JdbcError::Bridge(bridge(BridgeErrorKind::Io, None, "No route to host", &[]));

    let (state, _) = step(Connecting::new(), ConnectEvent::Asked);
    let (state, _) = step(state, ConnectEvent::TunnelReady { local_port: 4 });
    let (state, _) = step(state, ConnectEvent::JvmReady);
    let (state, action) = step(state, ConnectEvent::SessionFailed(lost()));
    match action {
        ConnectAction::Wait { millis, undo } => {
            assert_eq!(millis, NO_ROUTE_RETRY_DELAY);
            assert_eq!(
                undo,
                vec![CloseStep::ReleaseTunnel],
                "the lease does not outlive the attempt"
            );
        }
        _ => panic!("a second attempt is made"),
    }
    let (state, action) = step(state, ConnectEvent::Waited);
    assert!(matches!(action, ConnectAction::OpenTunnel));
    let (state, _) = step(state, ConnectEvent::TunnelReady { local_port: 5 });
    let (state, _) = step(state, ConnectEvent::JvmReady);
    let (state, _) = step(state, ConnectEvent::SessionOpened);
    let (state, action) = step(state, ConnectEvent::InfoFailed(lost()));
    match action {
        ConnectAction::Failed { undo, .. } => {
            assert_eq!(undo, vec![CloseStep::CloseSession, CloseStep::ReleaseTunnel])
        }
        _ => panic!("there is no third attempt"),
    }
    assert_eq!(state.stage, Stage::Over);
}

#[test]
fn each_layers_failure_keeps_its_name() {
    assert!(matches!(
        ConnectError::from(JdbcError::JvmStart("no java".to_string())),
        ConnectError::JvmStart(_)
    ));
    assert!(matches!(
        ConnectError::from(JdbcError::Bridge(bridge(BridgeErrorKind::Sql, None, "x", &[]))),
        ConnectError::Database(_)
    ));
    match ConnectError::from(JdbcError::Other("closed".to_string())) {
        ConnectError::Bridge(message) => assert_eq!(message, "closed"),
        other => panic!("{other:?}"),
    }
}

#[test]
fn a_session_is_closed_before_the_tunnel_under_it() {
    assert_eq!(close(false, true), vec![CloseStep::CloseSession, CloseStep::ReleaseTunnel]);
    assert_eq!(close(false, false), vec![CloseStep::CloseSession]);
    assert_eq!(close(true, true), Vec::<CloseStep>::new());
}

#[test]
fn a_stored_tunnel_secret_is_read_only_where_there_is_a_tunnel() {
    let plain = ConnectionProfile::new(1, "x", "h2", "jdbc:h2:mem:t", "sa");
    let read = Credentials::read(&plain, Some("pw".to_string()), Some("pass".to_string()));
    assert_eq!(read.password.as_deref(), Some("pw"));
    assert_eq!(read.tunnel, None);
    let read = Credentials::read(&tunnelled(), None, Some("pass".to_string()));
    assert_eq!(read.tunnel.as_deref(), Some("pass"));
}

#[test]
fn a_product_reads_with_its_version_where_it_has_one() {
    let info = |name: Option<&str>, version: Option<&str>| SessionInfo {
        product_name: name.map(|name| name.to_string()),
        product_version: version.map(|version| version.to_string()),
    };
    assert_eq!(info(Some("H2"), None).product().as_deref(), Some("H2"));
    assert_eq!(info(Some("H2"), Some("")).product().as_deref(), Some("H2"));
    assert_eq!(info(None, Some("2.2")).product(), None);
}

#[test]
fn the_holes_that_name_a_catalogue_are_these() {
    assert_eq!(CATALOGUE_PLACEHOLDERS, ["database", "service", "sid", "file"]);
}

#[test]
fn a_template_without_holes_is_the_address() {
    assert_eq!(substitute("jdbc:h2:mem:test", &values(&[("host", "h")])), "jdbc:h2:mem:test");
    // A repeated hole is taken apart place by place, whatever stands there.
    assert_eq!(
        decompose("{a}-{a}", "x-y"),
        Some(vec![("a".to_string(), "x".to_string()), ("a".to_string(), "y".to_string())])
    );
}
