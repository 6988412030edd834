use rudbman_app::connection::{BridgeError, BridgeErrorKind, ConnectError, JdbcError};
use rudbman_app::connection_dialog::{
    error_hint, profile_to_show, test_outcome, ConnectionDialog, Escape, Level, NewProfile,
    SecretSlot,
};
use rudbman_app::connection_view::{
    label_for, placeholder_for, DialogBody, TunnelControl, COLORS,
};
use rudbman_app::ordered::TextMap;
use rudbman_app::profile::{
    ConnectionProfile, ConnectionStore, DriverDef, DriverStore, TunnelAuth, TunnelConfig,
};
use rudbman_app::profile_list::{profile_rows, ProfileRow};
use rudbman_app::template::{decompose, placeholders_of, substitute};
use rudbman_app::view::{Caption, Tone};

fn filled(pairs: Vec<(String, String)>) -> TextMap<String> {
    let mut map = TextMap::new();
    for (key, value) in pairs {
        map.insert(key, value);
    }
    map
}

fn refused(state: &str) -> ConnectError {
    ConnectError::Database(BridgeError {
        kind: BridgeErrorKind::Sql,
        sql_state: Some(state.to_string()),
        message: "nope".to_string(),
        causes: Vec::new(),
        shown: "nope".to_string(),
    })
}

fn driver(id: &str, template: &str, port: Option<u16>) -> DriverDef {
    DriverDef {
        id: id.to_string(),
        name: id.to_uppercase(),
        class: format!("org.{id}.Driver"),
        jars: vec![format!("/tmp/{id}.jar")],
        url_template: template.to_string(),
        default_port: port,
        ..DriverDef::default()
    }
}

fn drivers() -> DriverStore {
    DriverStore {
        drivers: vec![
            driver("postgresql", "jdbc:postgresql://{host}:{port}/{database}", Some(5432)),
            driver("sqlite", "jdbc:sqlite:{file}", None),
        ],
    }
}

fn fresh(id: u128) -> NewProfile {
    NewProfile { id, name: "New connection".to_string(), confirm_writes: true }
}

/// The dialog open over a saved PostgreSQL profile, with its preview in step.
fn open_over_a_profile() -> ConnectionDialog {
    let mut dialog = ConnectionDialog::new(drivers());
    let profile = ConnectionProfile::new(7, "staging", "postgresql", "", "app");
    dialog.selected = Some(profile.id);
    dialog.store.upsert(profile);
    let driver = dialog.current_driver().map(|driver| driver.copy());
    dialog.form.rebuild_url_parts(driver.as_ref());
    dialog.form.url_parts.insert("host".to_string(), "db".to_string());
    dialog.form.url_parts.insert("database".to_string(), "app".to_string());
    dialog.open = true;
    dialog.keep_in_step(false);
    dialog
}

fn opened() -> ConnectionDialog {
    let mut store = ConnectionStore::default();
    store.upsert(ConnectionProfile::new(
        1,
        "first",
        "postgresql",
        "jdbc:postgresql://db:5432/app",
        "sa",
    ));
    store.upsert(ConnectionProfile::new(2, "second", "sqlite", "jdbc:sqlite:/tmp/a.db", ""));
    let mut dialog = ConnectionDialog::new(drivers());
    dialog.open(Some(store), drivers(), fresh(9));
    dialog
}

#[test]
fn a_dialog_opens_over_the_profile_it_was_asked_for() {
    let mut store = ConnectionStore::default();
    let first = ConnectionProfile::new(11, "first", "h2", "jdbc:h2:mem:a", "sa");
    let second = ConnectionProfile::new(12, "second", "h2", "jdbc:h2:mem:b", "sa");
    store.upsert(first.copy());
    store.upsert(second.copy());

    // The welcome list's "edit…" names a row, and that is the one the form opens
    // over, not whichever profile happens to be first.
    assert_eq!(profile_to_show(&store, Some(second.id)), Some(second.id));
    // The plain door has no opinion and takes the first.
    assert_eq!(profile_to_show(&store, None), Some(first.id));
    // A profile deleted between the screen being drawn and the row being clicked
    // falls back rather than opening a form over nothing.
    assert_eq!(
        profile_to_show(&store, Some(uuid::Uuid::new_v4().as_u128())),
        Some(first.id)
    );
    // And with nothing saved there is nothing to show, which is what makes the
    // dialog start a new profile instead.
    assert_eq!(profile_to_show(&ConnectionStore::default(), Some(first.id)), None);
}

#[test]
fn a_url_is_taken_apart_by_the_template_that_built_it() {
    let parts = decompose(
        "jdbc:postgresql://{host}:{port}/{database}",
        "jdbc:postgresql://db.example.com:5432/app",
    )
    .expect("the URL fits the template");
    assert_eq!(
        parts,
        vec![
            ("host".to_string(), "db.example.com".to_string()),
            ("port".to_string(), "5432".to_string()),
            ("database".to_string(), "app".to_string()),
        ]
    );

    // A hole at the very end of a template runs to the end of the URL.
    assert_eq!(
        decompose("jdbc:sqlite:{file}", "jdbc:sqlite:/var/lib/app.db"),
        Some(vec![("file".to_string(), "/var/lib/app.db".to_string())])
    );
    // SQL Server's semicolon grammar comes apart the same way.
    assert_eq!(
        decompose(
            "jdbc:sqlserver://{host}:{port};databaseName={database}",
            "jdbc:sqlserver://sql:1433;databaseName=app"
        ),
        Some(vec![
            ("host".to_string(), "sql".to_string()),
            ("port".to_string(), "1433".to_string()),
            ("database".to_string(), "app".to_string()),
        ])
    );
}

#[test]
fn a_url_that_does_not_fit_its_template_is_left_whole() {
    // An embedded H2 file against the server template.
    assert_eq!(
        decompose("jdbc:h2:tcp://{host}:{port}/{database}", "jdbc:h2:mem:test"),
        None
    );
    // A URL for another driver entirely.
    assert_eq!(
        decompose("jdbc:postgresql://{host}:{port}/{database}", "jdbc:mysql://h:3306/app"),
        None
    );
    // A template with no holes has nothing to take apart.
    assert_eq!(decompose("jdbc:h2:mem:test", "jdbc:h2:mem:test"), None);
}

#[test]
fn a_trailing_hole_takes_everything_that_follows_it() {
    let parts = decompose(
        "jdbc:postgresql://{host}:{port}/{database}",
        "jdbc:postgresql://h:5432/app?ssl=true",
    )
    .expect("the literal parts still line up");
    assert_eq!(
        parts.last(),
        Some(&("database".to_string(), "app?ssl=true".to_string()))
    );
    assert_eq!(
        substitute("jdbc:postgresql://{host}:{port}/{database}", &filled(parts)),
        "jdbc:postgresql://h:5432/app?ssl=true"
    );
}

#[test]
fn taking_a_url_apart_and_putting_it_back_is_the_identity() {
    for (template, url) in [
        ("jdbc:postgresql://{host}:{port}/{database}", "jdbc:postgresql://db:5432/app"),
        (
            "jdbc:oracle:thin:@//{host}:{port}/{service}",
            "jdbc:oracle:thin:@//ora:1521/ORCLPDB",
        ),
        (
            "jdbc:sqlserver://{host}:{port};databaseName={database}",
            "jdbc:sqlserver://sql:1433;databaseName=app",
        ),
        ("jdbc:sqlite:{file}", "jdbc:sqlite:/tmp/a.db"),
    ] {
        let parts = decompose(template, url).expect(template);
        assert_eq!(substitute(template, &filled(parts)), url, "{template}");
    }
}

#[test]
fn every_url_hole_of_every_built_in_driver_has_a_label() {
    for template in [
        "jdbc:postgresql://{host}:{port}/{database}",
        "jdbc:mysql://{host}:{port}/{database}",
        "jdbc:oracle:thin:@//{host}:{port}/{service}",
        "jdbc:oracle:thin:@{host}:{port}:{sid}",
        "jdbc:sqlserver://{host}:{port};databaseName={database}",
        "jdbc:h2:tcp://{host}:{port}/{database}",
        "jdbc:sqlite:{file}",
    ] {
        for name in placeholders_of(template) {
            match label_for(&name) {
                Caption::Key(key) => assert!(key.starts_with("connect."), "{template} / {name}"),
                Caption::Text(text) => panic!("{template} has no label for {text}"),
            }
        }
    }
    // Anything else is shown under its own name.
    assert_eq!(label_for("warehouse"), Caption::Text("warehouse".to_string()));
    assert_eq!(placeholder_for("file"), "/var/lib/app.sqlite");
    assert_eq!(placeholder_for("warehouse"), "app");
}

#[test]
fn the_colour_tags_are_all_parseable() {
    for color in COLORS {
        let digits = color.strip_prefix('#').expect(color);
        assert_eq!(digits.len(), 6, "{color}");
        assert!(u32::from_str_radix(digits, 16).is_ok(), "{color}");
    }
    let mut unique = COLORS.to_vec();
    unique.sort_unstable();
    unique.dedup();
    assert_eq!(unique.len(), COLORS.len(), "two tags share a colour");
}

#[test]
fn an_authentication_failure_gets_the_password_hint() {
    assert_eq!(error_hint(&refused("28000")), Some("connect.hint_auth"));
    assert_eq!(error_hint(&refused("08001")), Some("connect.hint_network"));
    assert_eq!(
        error_hint(&ConnectError::NoDriverJar("H2".to_string())),
        Some("connect.hint_driver")
    );
    assert_eq!(
        error_hint(&ConnectError::JvmStart("no runtime".to_string())),
        Some("connect.hint_jvm")
    );
    // A failure nothing can be said about gets no hint rather than a platitude.
    assert_eq!(error_hint(&ConnectError::Tunnel("nope".to_string())), None);
    assert_eq!(
        error_hint(&ConnectError::HostKeyMismatch {
            host: "b".to_string(),
            presented: "x".to_string(),
            stored: "y".to_string(),
        }),
        Some("connect.hint_host_key")
    );
}

#[test]
fn a_url_typed_over_the_assembled_one_becomes_an_override() {
    let mut dialog = open_over_a_profile();
    assert_eq!(dialog.form.url, "jdbc:postgresql://db:5432/app");
    assert!(!dialog.form.url_overridden);

    // What typing into the field amounts to: the caret in it, and content the
    // template cannot produce.
    dialog.form.url = "jdbc:postgresql://db:5432/app?ssl=true".to_string();
    dialog.keep_in_step(true);
    assert_eq!(
        dialog.form.url, "jdbc:postgresql://db:5432/app?ssl=true",
        "the field was written back over the user's URL"
    );
    assert!(
        dialog.form.url_overridden,
        "an edited URL field is an override, badge and reset button and all"
    );

    // And having said so, the part fields leave it alone from here.
    dialog.form.url_parts.insert("host".to_string(), "replica".to_string());
    dialog.keep_in_step(false);
    assert_eq!(dialog.form.url, "jdbc:postgresql://db:5432/app?ssl=true");

    let driver = dialog.current_driver().map(|driver| driver.copy());
    assert!(dialog.form.url_section(driver.as_ref()).reset.is_some());
    dialog.form.reset_url(driver.as_ref());
    assert_eq!(dialog.form.url, "jdbc:postgresql://replica:5432/app");
    assert!(!dialog.form.url_overridden);
}

#[test]
fn a_part_field_still_rewrites_the_url_it_is_not_typing_into() {
    let mut dialog = open_over_a_profile();
    dialog.form.url_parts.insert("host".to_string(), "replica".to_string());
    dialog.keep_in_step(false);
    assert_eq!(dialog.form.url, "jdbc:postgresql://replica:5432/app");
    assert!(
        !dialog.form.url_overridden,
        "the preview following its fields is not an override"
    );
}

#[test]
fn opening_a_profile_does_not_rewrite_its_url() {
    let mut dialog = opened();
    assert!(dialog.is_open());
    assert_eq!(dialog.selected, Some(1));
    assert_eq!(dialog.form.url, "jdbc:postgresql://db:5432/app");
    assert!(!dialog.form.url_overridden);
    dialog.keep_in_step(false);
    assert_eq!(dialog.collect().url, "jdbc:postgresql://db:5432/app");
    assert_eq!(dialog.form.url_parts.get("host").map(String::as_str), Some("db"));

    // One that the template cannot express is an override.
    let mut store = ConnectionStore::default();
    store.upsert(ConnectionProfile::new(3, "odd", "postgresql", "jdbc:other:x", "sa"));
    dialog.open_at(3, Some(store), drivers(), fresh(9));
    assert_eq!(dialog.form.url, "jdbc:other:x");
    assert!(dialog.form.url_overridden);
}

#[test]
fn with_nothing_saved_a_new_profile_is_started() {
    let mut dialog = ConnectionDialog::new(drivers());
    dialog.open(Some(ConnectionStore::default()), drivers(), fresh(9));
    assert_eq!(dialog.selected, Some(9));
    assert_eq!(dialog.form.name, "New connection");
    assert!(dialog.form.confirm_writes);
    assert_eq!(dialog.store.connections.len(), 1);
}

#[test]
fn a_profile_is_saved_with_what_the_form_spells() {
    let mut dialog = opened();
    dialog.form.name = "  renamed ".to_string();
    dialog.form.folder = "  work ".to_string();
    dialog.form.password = " secret ".to_string();
    let saved = dialog.persist().expect("it has a name and a URL");
    assert_eq!(saved.name, "renamed");
    assert_eq!(saved.folder.as_deref(), Some("work"));
    assert_eq!(dialog.store.get(1).map(|profile| profile.name.as_str()), Some("renamed"));
    assert_eq!(dialog.store.connections.len(), 2, "in the place it had");

    let writes = dialog.secret_writes();
    assert_eq!(writes.len(), 1);
    assert_eq!(writes[0].slot, SecretSlot::Connection);
    assert_eq!(writes[0].secret.as_deref(), Some("secret"));

    assert!(dialog.persisted(1, None, &Vec::new()));
    dialog.save(true);
    let status = dialog.status.as_ref().expect("it is said");
    assert_eq!(status.level, Level::Success);
    assert_eq!(status.message.key, "connect.saved");
}

#[test]
fn a_profile_without_a_name_or_a_url_is_not_saved() {
    let mut dialog = opened();
    dialog.form.name = "  ".to_string();
    assert!(dialog.persist().is_none());
    assert_eq!(dialog.status.as_ref().map(|s| s.message.key), Some("connect.name_required"));

    let mut dialog = opened();
    dialog.form.url = " ".to_string();
    assert!(dialog.persist().is_none());
    assert_eq!(dialog.status.as_ref().map(|s| s.message.key), Some("connect.url_required"));
    assert!(!dialog.connect(false));
    assert!(dialog.is_open());
}

#[test]
fn what_cannot_be_written_is_said() {
    let mut dialog = opened();
    assert!(!dialog.persisted(1, Some("no room".to_string()), &Vec::new()));
    assert_eq!(dialog.status.as_ref().map(|s| s.message.key), Some("connect.save_failed"));
    assert!(!dialog.connect(true), "an error stands under the form");

    let mut dialog = opened();
    let failures = vec!["locked".to_string(), "denied".to_string()];
    assert!(dialog.persisted(2, None, &failures));
    let status = dialog.status.as_ref().expect("it is said");
    assert_eq!(status.message.key, "connect.keychain_failed");
    assert_eq!(status.message.args, vec![("error", Caption::Text("denied".to_string()))]);
    assert_eq!(dialog.selected, Some(2));

    let mut dialog = opened();
    assert!(dialog.connect(true));
    assert!(!dialog.is_open());
}

#[test]
fn a_test_sends_the_form_and_saves_nothing() {
    let mut dialog = opened();
    dialog.form.username = "alice".to_string();
    dialog.form.password = "pw".to_string();
    let request = dialog.test_connection().expect("the driver is known");
    assert_eq!(request.profile.username, "alice");
    assert_eq!(request.driver.id, "postgresql");
    assert_eq!(request.credentials.password.as_deref(), Some("pw"));
    assert_eq!(request.credentials.tunnel, None);
    assert_eq!(dialog.store.get(1).map(|profile| profile.username.as_str()), Some("sa"));
    assert!(dialog.testing);
    assert!(dialog.footer().buttons.iter().all(|button| !button.enabled));

    dialog.tested(Ok(Some("H2 2.2".to_string())));
    assert!(!dialog.testing);
    let footer = dialog.footer();
    let (tone, message) = footer.status.expect("it is said");
    assert_eq!(tone, Tone::Success);
    assert_eq!(message.key, "connect.test_ok");
    assert_eq!(message.args, vec![("product", Caption::Text("H2 2.2".to_string()))]);
    dialog.tested(Ok(None));
    assert_eq!(dialog.status.as_ref().map(|s| s.message.key), Some("connect.test_ok_unnamed"));
    dialog.tested(Err(refused("28000")));
    let message = &dialog.status.as_ref().expect("it is said").message;
    assert_eq!(message.key, "connect.test_failed_hint");
    assert_eq!(message.args[0], ("error", Caption::Text(refused("28000").message())));
    assert_eq!(message.args[1], ("hint", Caption::Key("connect.hint_auth")));
    dialog.tested(Err(ConnectError::Tunnel("down".to_string())));
    assert_eq!(dialog.status.as_ref().map(|s| s.message.key), Some("connect.test_failed"));
}

#[test]
fn a_profile_of_an_unknown_driver_is_not_tried() {
    let mut dialog = opened();
    dialog.set_driver("gone".to_string());
    assert!(dialog.test_connection().is_none());
    assert_eq!(dialog.status.as_ref().map(|s| s.message.key), Some("connect.no_driver"));
}

#[test]
fn an_unknown_key_can_be_trusted_and_a_changed_one_cannot() {
    let mut dialog = opened();
    dialog.tested(Err(ConnectError::HostKeyUnknown {
        host: "bastion".to_string(),
        fingerprint: "SHA256:aa".to_string(),
        algorithm: "ssh-ed25519".to_string(),
    }));
    let pending = dialog.pending_host_key.as_ref().expect("there is a key to rule on");
    assert_eq!((pending.host.as_str(), pending.port), ("bastion", 22));
    assert_eq!(
        dialog.footer().host_key.expect("a row").trust.id,
        "connect-trust-host-key"
    );
    dialog.host_key_trusted(None);
    assert!(dialog.pending_host_key.is_none());
    assert_eq!(dialog.status.as_ref().map(|s| s.message.key), Some("connect.host_key_trusted"));

    dialog.tested(Err(ConnectError::HostKeyMismatch {
        host: "bastion".to_string(),
        presented: "SHA256:aa".to_string(),
        stored: "SHA256:bb".to_string(),
    }));
    assert!(dialog.pending_host_key.is_none());
    assert!(dialog.footer().host_key.is_none());
    dialog.host_key_trusted(Some("read-only file".to_string()));
    assert_eq!(dialog.status.as_ref().map(|s| s.message.key), Some("connect.save_failed"));
}

#[test]
fn a_session_has_to_answer_and_to_close() {
    let lost = || JdbcError::Other("closed".to_string());
    match test_outcome(Some("H2".to_string()), Ok(()), Ok(())) {
        Ok(product) => assert_eq!(product.as_deref(), Some("H2")),
        Err(error) => panic!("{error:?}"),
    }
    assert!(test_outcome(None, Err(lost()), Ok(())).is_err());
    assert!(test_outcome(None, Ok(()), Err(lost())).is_err());
}

#[test]
fn turning_to_another_profile_keeps_the_edits() {
    let mut dialog = opened();
    dialog.form.name = "edited".to_string();
    dialog.select(2);
    assert_eq!(dialog.selected, Some(2));
    assert_eq!(dialog.form.name, "second");
    assert_eq!(dialog.store.get(1).map(|profile| profile.name.as_str()), Some("edited"));
    dialog.select(1);
    assert_eq!(dialog.form.name, "edited");
    assert_eq!(dialog.secrets_wanted(), Some(1));
}

#[test]
fn a_copy_has_a_name_and_an_identity_of_its_own() {
    let mut dialog = opened();
    let label = dialog.copy_name();
    assert_eq!(label.key, "connect.copy_name");
    assert_eq!(label.args, vec![("name", Caption::Text("first".to_string()))]);
    dialog.fill_secrets(Some("hunter2".to_string()), None);
    dialog.duplicate_profile(5, "first (copy)".to_string());
    assert_eq!(dialog.selected, Some(5));
    assert_eq!(dialog.store.get(1).map(|profile| profile.name.as_str()), Some("first"));
    assert_eq!(dialog.form.name, "first (copy)");
    assert_eq!(dialog.form.url, "jdbc:postgresql://db:5432/app");
    assert_eq!(dialog.store.connections.len(), 3);
    assert_eq!(dialog.form.password, "");
}

#[test]
fn deleting_the_last_profile_starts_a_new_one() {
    let mut dialog = opened();
    dialog.confirming = true;
    assert!(dialog.footer().confirm.is_some());
    assert_eq!(dialog.delete_profile(), Some(1));
    assert!(!dialog.confirming);
    dialog.deleted(None, fresh(9));
    assert_eq!(dialog.selected, Some(2));
    assert_eq!(dialog.delete_profile(), Some(2));
    dialog.deleted(Some("no room".to_string()), fresh(9));
    assert_eq!(dialog.selected, Some(9));
    assert_eq!(dialog.form.name, "New connection");
}

#[test]
fn another_driver_brings_its_own_url() {
    let mut dialog = opened();
    dialog.set_driver("sqlite".to_string());
    assert_eq!(dialog.form.url, "jdbc:sqlite:");
    assert_eq!(dialog.form.url_parts.get("host"), None);
    assert_eq!(dialog.collect().driver_id, "sqlite");

    // A template that changed under the dialog is followed.
    dialog.drivers_changed(Some(DriverStore {
        drivers: vec![driver("sqlite", "jdbc:lite:{file}", None)],
    }));
    assert_eq!(dialog.form.url, "jdbc:lite:");
    let section = dialog.driver_section();
    assert_eq!(section.ids, vec!["sqlite".to_string()]);
    assert!(!section.no_jar);
}

#[test]
fn escape_takes_one_layer_at_a_time() {
    let mut dialog = opened();
    dialog.open_driver_manager();
    assert_eq!(dialog.body(), DialogBody::Manager);
    assert_eq!(dialog.escape(), Escape::Manager);
    dialog.manager_dismissed();
    assert_eq!(dialog.body(), DialogBody::Form);
    dialog.driver_list_open = true;
    dialog.confirming = true;
    assert_eq!(dialog.escape(), Escape::Layer);
    assert!(!dialog.driver_list_open && dialog.confirming);
    assert_eq!(dialog.escape(), Escape::Layer);
    assert_eq!(dialog.escape(), Escape::Dismissed);
    assert_eq!(dialog.body(), DialogBody::Hidden);
}

#[test]
fn a_tunnel_is_collected_where_it_is_switched_on() {
    let mut dialog = opened();
    assert!(dialog.collect().tunnel.is_none());
    dialog.form.set_tunnel(true);
    dialog.form.tunnel_host = "bastion".to_string();
    dialog.form.tunnel_port = "oops".to_string();
    dialog.form.tunnel_remote_port = "5433".to_string();
    dialog.form.choose_auth(1);
    dialog.form.tunnel_key = "/home/me/.ssh/id".to_string();
    let tunnel = dialog.collect().tunnel.expect("it is switched on");
    assert_eq!(tunnel.host, "bastion");
    assert_eq!(tunnel.port, 22);
    assert_eq!(tunnel.remote_port, 5433);
    assert_eq!(tunnel.auth, TunnelAuth::Key { path: "/home/me/.ssh/id".to_string() });
    assert_eq!(dialog.secret_writes().len(), 2);

    let (toggle, rows) = dialog.form.tunnel_section();
    assert!(toggle.checked);
    let controls: Vec<TunnelControl> = rows.iter().map(|row| row.control).collect();
    assert_eq!(
        controls,
        vec![
            TunnelControl::HostAndPort,
            TunnelControl::User,
            TunnelControl::Auth(1),
            TunnelControl::Key,
            TunnelControl::Secret,
            TunnelControl::RemoteHostAndPort,
            TunnelControl::Hint,
        ]
    );
    dialog.form.choose_auth(0);
    assert_eq!(dialog.form.tunnel_section().1.len(), 5, "the agent holds its own");
    dialog.form.set_tunnel(false);
    assert!(dialog.form.tunnel_section().1.is_empty());
}

#[test]
fn an_untouched_form_gives_the_profile_back() {
    let mut profile = ConnectionProfile::new(
        1,
        "first",
        "postgresql",
        "jdbc:postgresql://db:5432/app",
        "sa",
    );
    profile.folder = Some("work".to_string());
    profile.color = Some(COLORS[2].to_string());
    profile.props.insert("ssl".to_string(), "true".to_string());
    profile.read_only = true;
    profile.tunnel = Some(TunnelConfig {
        host: "bastion".to_string(),
        port: 2222,
        username: "ops".to_string(),
        auth: TunnelAuth::Password,
        remote_host: "db.internal".to_string(),
        remote_port: 5432,
        local_port: 0,
    });
    let mut store = ConnectionStore::default();
    store.upsert(profile.copy());
    let mut dialog = ConnectionDialog::new(drivers());
    dialog.open(Some(store), drivers(), fresh(9));
    let back = dialog.collect();
    assert_eq!(back.id, 1);
    assert_eq!(back.name, "first");
    assert_eq!(back.folder.as_deref(), Some("work"));
    assert_eq!(back.color.as_deref(), Some(COLORS[2]));
    assert_eq!(back.url, "jdbc:postgresql://db:5432/app");
    assert_eq!(back.props.get("ssl").map(String::as_str), Some("true"));
    assert!(back.read_only);
    assert_eq!(back.tunnel, profile.tunnel);
    let swatches = dialog.form.swatches();
    assert_eq!(swatches.len(), 7);
    assert!(swatches[3].selected && !swatches[0].selected);
}

#[test]
fn a_property_is_added_and_a_nameless_one_is_dropped() {
    let mut dialog = opened();
    dialog.form.add_prop();
    let last = dialog.form.props.len() - 1;
    dialog.form.props[last] = ("  ssl ".to_string(), "true".to_string());
    dialog.form.add_prop();
    let last = dialog.form.props.len() - 1;
    dialog.form.props[last] = (" ".to_string(), "lost".to_string());
    let props = dialog.collect().props;
    assert_eq!(props.entries().len(), 1);
    assert_eq!(props.get("ssl").map(String::as_str), Some("true"));
}

#[test]
fn the_profiles_are_listed_folder_by_folder() {
    let filed = |id: u128, name: &str, folder: Option<&str>| {
        let mut profile = ConnectionProfile::new(id, name, "h2", "jdbc:h2:mem:a", "sa");
        profile.folder = folder.map(|folder| folder.to_string());
        profile
    };
    let rows = profile_rows(
        &[
            filed(1, "a", Some("work")),
            filed(2, " ", None),
            filed(3, "c", Some("work")),
            filed(4, "d", Some("")),
        ],
        Some(3),
    );
    let shown: Vec<String> = rows
        .iter()
        .map(|row| match row {
            ProfileRow::Folder(name) => format!("[{name}]"),
            ProfileRow::Profile { id, name, selected, tab, .. } => {
                let name = match name {
                    Caption::Text(text) => text.as_str(),
                    Caption::Key(key) => key,
                };
                format!("{id} {name} {selected} {tab}")
            }
        })
        .collect();
    assert_eq!(
        shown,
        [
            "[work]",
            "1 a false 10",
            "3 c true 11",
            "2 connect.unnamed false 12",
            "4 d false 13",
        ]
    );
}

#[test]
fn the_behaviour_has_a_switch_each() {
    let mut dialog = opened();
    dialog.form.read_only = true;
    dialog.form.auto_commit = false;
    dialog.form.confirm_writes = true;
    dialog.form.keep_alive_enabled = false;
    let section = dialog.form.behaviour_section();
    let shown: Vec<(&str, &str, bool, usize)> = section
        .toggles
        .iter()
        .map(|toggle| (toggle.id, toggle.label, toggle.checked, toggle.tab))
        .collect();
    assert_eq!(
        shown,
        vec![
            ("connect-read-only", "connect.read_only", true, 180),
            ("connect-auto-commit", "connect.auto_commit", false, 181),
            ("connect-confirm-writes", "connect.confirm_writes", true, 182),
            ("connect-keep-alive", "connect.keep_alive", false, 190),
        ]
    );
    assert!(!section.keep_alive_fields);
    dialog.form.keep_alive_enabled = true;
    assert!(dialog.form.behaviour_section().keep_alive_fields);
}

#[test]
fn a_secret_is_in_no_profile() {
    let mut dialog = opened();
    dialog.form.set_tunnel(true);
    let before = dialog.collect();
    dialog.form.password = "hunter2".to_string();
    dialog.form.tunnel_secret = "passphrase".to_string();
    let after = dialog.collect();
    assert_eq!(after.url, before.url);
    assert_eq!(after.username, before.username);
    assert_eq!(after.name, before.name);
    let (kept, was) = (after.tunnel.expect("it is on"), before.tunnel.expect("it is on"));
    assert_eq!(kept.host, was.host);
    assert_eq!(kept.username, was.username);
    assert_eq!(kept.auth, was.auth);
}

#[test]
fn what_was_filled_in_is_read_back() {
    let template = "jdbc:postgresql://{host}:{port}/{database}";
    let pairs = |host: &str, port: &str, database: &str| {
        vec![
            ("host".to_string(), host.to_string()),
            ("port".to_string(), port.to_string()),
            ("database".to_string(), database.to_string()),
        ]
    };
    let plain = pairs("db", "5432", "app?ssl=true");
    assert_eq!(decompose(template, &substitute(template, &filled(plain.clone()))), Some(plain));
    // A value that holds the text after its hole ends too early.
    let early = pairs("::1", "5432", "app");
    assert_ne!(decompose(template, &substitute(template, &filled(early.clone()))), Some(early));
    // A hole that nothing fills is read back as it stands.
    let none = substitute(template, &filled(Vec::new()));
    assert_eq!(decompose(template, &none), Some(pairs("{host}", "{port}", "{database}")));
}
