use rudbman_app::connection::{BridgeError, BridgeErrorKind, ConnectError, JdbcError};
use rudbman_app::driver_manager::{
    candidates_of, probe_message, start_failure, unique_id, DownloadError, Downloaded,
    DriverManager, DriverProbe, ManagerEscape, Probe, ProbeFailure,
};
use rudbman_app::driver_view::PROBE_CHOICE_TAB;
use rudbman_app::profile::{DriverDef, DriverStore};
use rudbman_app::view::{Caption, Tone};

fn texts(list: &[&str]) -> Vec<String> {
    list.iter().map(|text| text.to_string()).collect()
}

/// A manager whose selected driver is H2 with `jars` and no class name.
fn manager_over(jars: &[&str]) -> DriverManager {
    let store = DriverStore {
        drivers: vec![
            DriverDef {
                id: "h2".to_string(),
                name: "H2".to_string(),
                jars: texts(jars),
                url_template: "jdbc:h2:tcp://{host}:{port}/{database}".to_string(),
                default_port: Some(9092),
                dialect: "h2".to_string(),
                ..DriverDef::default()
            },
            DriverDef {
                id: "postgresql".to_string(),
                name: "PostgreSQL".to_string(),
                ..DriverDef::default()
            },
        ],
    };
    let manager = DriverManager::new(store, None);
    assert_eq!(manager.selected.as_deref(), Some("h2"));
    manager
}

fn status(manager: &DriverManager) -> (&'static str, bool) {
    let label = manager.status.as_ref().expect("something is said");
    (label.key, manager.status_is_error)
}

fn bridge(kind: BridgeErrorKind, message: &str) -> JdbcError {
    JdbcError::Bridge(BridgeError {
        kind,
        sql_state: None,
        message: message.to_string(),
        causes: Vec::new(),
        shown: format!("bridge: {message}"),
    })
}

#[test]
fn a_generated_driver_id_never_collides() {
    let mut store = DriverStore { drivers: Vec::new() };
    assert_eq!(unique_id("driver", &store), "driver-1");
    store.upsert(DriverDef { id: "driver-1".to_string(), ..DriverDef::default() });
    assert_eq!(unique_id("driver", &store), "driver-2");
}

#[test]
fn the_comment_queries_and_their_boxes_round_trip_through_the_form() {
    let mut manager = manager_over(&[]);
    let query = "SELECT TABLE_NAME, 'x' FROM META WHERE OWNER = '${schema}'";

    manager.form.table_comments = query.to_string();
    manager.toggle_comments(true, true);
    let driver = manager.current().expect("H2 is selected");
    assert!(driver.use_table_comments);
    assert_eq!(driver.table_comments_sql, query);
    // The column query was never touched and stays off and empty.
    assert!(!driver.use_column_comments);
    assert!(driver.column_comments_sql.is_empty());

    // Switching it off keeps the statement.
    manager.toggle_comments(true, false);
    let driver = manager.current().expect("H2 is selected");
    assert!(!driver.use_table_comments);
    assert_eq!(driver.table_comments_sql, query);

    // And leaving the driver and coming back shows what was typed.
    manager.select("postgresql".to_string());
    assert_eq!(manager.form.table_comments, "");
    manager.select("h2".to_string());
    assert_eq!(manager.form.table_comments, query);
}

#[test]
fn detecting_the_class_of_a_real_driver_jar_fills_the_field() {
    let mut manager = manager_over(&["/tmp/h2-2.3.232.jar"]);
    assert_eq!(manager.detect_class(), Some(texts(&["/tmp/h2-2.3.232.jar"])));
    assert!(manager.class_section().detecting);
    assert_eq!(manager.detect_class(), None, "one scan at a time");

    let probed = DriverProbe {
        classes: texts(&["org.h2.Driver"]),
        services: texts(&["org.h2.Driver"]),
    };
    manager.probed(Ok(probed), Some("org.h2.Driver".to_string()));
    assert_eq!(
        manager.form.class, "org.h2.Driver",
        "the declared service is what lands in the field"
    );
    // H2 ships exactly one driver, so there is nothing to choose.
    assert!(manager.probe.is_none());
    assert_eq!(status(&manager), ("driver.probe_found", false));
    let label = manager.status.as_ref().expect("it is said");
    assert_eq!(label.args, vec![("class", Caption::Text("org.h2.Driver".to_string()))]);
}

#[test]
fn an_archive_with_no_driver_says_so_rather_than_failing() {
    let mut manager = manager_over(&["/tmp/empty.jar"]);
    manager.probed(Ok(DriverProbe { classes: Vec::new(), services: Vec::new() }), None);
    assert_eq!(status(&manager), ("driver.probe_none", true));
    // Nothing was written into the field on the way past.
    assert_eq!(manager.form.class, "");
}

#[test]
fn a_damaged_archive_is_reported_as_a_broken_download() {
    let mut manager = manager_over(&["/tmp/truncated.jar"]);
    let failure = ProbeFailure::from(bridge(BridgeErrorKind::Io, "unexpected end of archive"));
    assert!(matches!(failure, ProbeFailure::Damaged(_)));
    manager.probed(Err(failure), None);
    assert_eq!(status(&manager), ("driver.probe_damaged", true));
    let label = manager.status.as_ref().expect("it is said");
    assert_eq!(label.args, vec![("error", Caption::Text("unexpected end of archive".to_string()))]);
}

#[test]
fn a_jar_that_is_not_there_names_the_file_rather_than_the_archive() {
    let mut manager = manager_over(&["/nonexistent/rudbman/nope.jar"]);
    let failure =
        ProbeFailure::from(bridge(BridgeErrorKind::Driver, "/nonexistent/rudbman/nope.jar"));
    assert!(matches!(failure, ProbeFailure::Missing(_)), "expected a driver error");
    manager.probed(Err(failure), None);
    assert_eq!(status(&manager), ("driver.probe_missing", true));
    let label = manager.status.as_ref().expect("it is said");
    assert!(matches!(&label.args[0].1, Caption::Text(text) if text.contains("nope.jar")));
}

#[test]
fn several_drivers_are_offered_rather_than_guessed_between() {
    let mut manager = manager_over(&["/tmp/whatever.jar"]);
    // The shape a driver JAR with an internal second driver has: the scan finds
    // both, the declaration names one.
    let probed = DriverProbe {
        classes: texts(&["com.example.LegacyDriver", "com.example.Driver"]),
        services: texts(&["com.example.Driver"]),
    };
    manager.probed(Ok(probed), Some("com.example.Driver".to_string()));

    match &manager.probe {
        Some(Probe::Choosing { candidates, recommended }) => {
            // The declaration heads the list and is the default.
            assert_eq!(
                candidates,
                &texts(&["com.example.Driver", "com.example.LegacyDriver"])
            );
            assert_eq!(recommended.as_deref(), Some("com.example.Driver"));
        }
        _ => panic!("two drivers must be offered, not picked between"),
    }
    // And nothing has been written into the field yet.
    assert_eq!(manager.form.class, "");
    let choices = manager.class_section().choices.expect("they are offered");
    assert!(choices[0].preferred && !choices[1].preferred);
    assert_eq!((choices[0].tab, choices[1].tab), (PROBE_CHOICE_TAB, PROBE_CHOICE_TAB + 1));

    // Picking one fills the field and puts the chooser away.
    manager.take_class("com.example.LegacyDriver".to_string());
    assert_eq!(manager.form.class, "com.example.LegacyDriver");
    assert!(manager.probe.is_none());
}

#[test]
fn the_declared_service_heads_the_candidate_list_and_duplicates_collapse() {
    let probe = DriverProbe { classes: texts(&["a.B", "a.C"]), services: texts(&["a.C"]) };
    assert_eq!(
        candidates_of(&probe),
        vec!["a.C".to_string(), "a.B".to_string()],
        "the vendor's own declaration comes first and is not repeated"
    );

    // No declaration: the scan order stands.
    let scanned = DriverProbe { classes: texts(&["a.B", "a.C"]), services: Vec::new() };
    assert_eq!(candidates_of(&scanned), vec!["a.B".to_string(), "a.C".to_string()]);

    assert!(candidates_of(&DriverProbe { classes: Vec::new(), services: Vec::new() }).is_empty());
}

#[test]
fn the_four_probe_failures_read_as_four_different_things() {
    let messages = [
        probe_message(&ProbeFailure::Jvm("no runtime".to_string())),
        probe_message(&ProbeFailure::Missing("/nope.jar".to_string())),
        probe_message(&ProbeFailure::Damaged("unexpected end".to_string())),
        probe_message(&ProbeFailure::Other("something".to_string())),
    ];
    let mut unique: Vec<&str> = messages.iter().map(|message| message.key).collect();
    assert_eq!(
        unique,
        [
            "driver.probe_jvm_failed",
            "driver.probe_missing",
            "driver.probe_damaged",
            "driver.probe_failed",
        ]
    );
    unique.sort_unstable();
    unique.dedup();
    assert_eq!(unique.len(), 4, "two failures read the same: {messages:?}");
    // And none of them reads like the empty-archive case, which is not a failure
    // at all.
    assert!(!unique.contains(&"driver.probe_none"));
}

#[test]
fn a_tenth_choice_shares_the_last_place() {
    let mut manager = manager_over(&["/tmp/many.jar"]);
    let classes: Vec<String> = (0..12).map(|n| format!("a.Driver{n}")).collect();
    manager.probed(Ok(DriverProbe { classes, services: Vec::new() }), None);
    let choices = manager.class_section().choices.expect("they are offered");
    assert_eq!(choices.len(), 12);
    // Nine places of their own, and the last of them for the rest.
    let places: Vec<usize> = choices.iter().map(|choice| choice.tab).collect();
    assert_eq!(places, [412, 413, 414, 415, 416, 417, 418, 419, 420, 420, 420, 420]);
}

#[test]
fn a_machine_that_does_not_start_is_a_failure_of_its_own() {
    match start_failure(ConnectError::JvmStart("no java".to_string())) {
        ProbeFailure::Jvm(message) => assert_eq!(message, "no java"),
        other => panic!("{other:?}"),
    }
    match ProbeFailure::from(bridge(BridgeErrorKind::Sql, "odd")) {
        ProbeFailure::Other(message) => assert_eq!(message, "bridge: odd"),
        other => panic!("{other:?}"),
    }
    assert!(matches!(
        ProbeFailure::from(JdbcError::JvmStart("x".to_string())),
        ProbeFailure::Jvm(_)
    ));
}

#[test]
fn archives_go_on_the_class_path_once() {
    let mut manager = manager_over(&["/a.jar"]);
    assert!(manager.install_jars(&texts(&["/b.jar", "/a.jar", "/c.jar", "/b.jar"])));
    assert_eq!(
        manager.current().expect("H2").jars,
        texts(&["/a.jar", "/b.jar", "/c.jar"])
    );
    assert!(manager.remove_jar(1));
    assert_eq!(manager.current().expect("H2").jars, texts(&["/a.jar", "/c.jar"]));
    assert!(!manager.remove_jar(9));

    let rows = manager.jars_section(&vec![true, false]);
    assert_eq!(rows.len(), 2);
    assert!(!rows[0].missing && rows[1].missing);
}

#[test]
fn a_download_is_followed_to_its_end() {
    let mut manager = manager_over(&[]);
    manager.form.maven = "com.h2database:h2:2.3.232".to_string();
    assert_eq!(manager.coordinate(), "com.h2database:h2:2.3.232");
    assert!(manager.download(Some("h2-2.3.232.jar".to_string()), None));
    assert!(!manager.download(Some("h2-2.3.232.jar".to_string()), None), "one at a time");
    manager.progressed(40, Some(100));
    let section = manager.maven_section(Some(40));
    let (label, _) = section.progress.expect("it is shown");
    assert_eq!(label.key, "driver.downloading_percent");
    assert_eq!(
        label.args,
        vec![
            ("file", Caption::Text("h2-2.3.232.jar".to_string())),
            ("percent", Caption::Text("40".to_string())),
        ]
    );
    let (label, _) = manager.maven_section(None).progress.expect("it is shown");
    assert_eq!(label.key, "driver.downloading");

    let file = Downloaded {
        path: "/drivers/h2-2.3.232.jar".to_string(),
        file_name: "h2-2.3.232.jar".to_string(),
    };
    assert!(manager.downloaded(&Ok(file)));
    manager.report_downloaded("h2-2.3.232.jar");
    assert_eq!(status(&manager), ("driver.downloaded", false));
    assert_eq!(manager.current().expect("H2").jars, texts(&["/drivers/h2-2.3.232.jar"]));
    assert!(manager.download.is_none());
}

#[test]
fn a_failed_download_says_why() {
    for (error, key, is_error) in [
        (DownloadError::Cancelled, "driver.download_cancelled", false),
        (DownloadError::NotFound("u".to_string()), "driver.not_found", true),
        (DownloadError::Network("e".to_string()), "driver.network_failed", true),
        (
            DownloadError::Checksum { expected: "a".to_string(), actual: "b".to_string() },
            "driver.checksum_failed",
            true,
        ),
        (DownloadError::Io("e".to_string()), "driver.save_failed", true),
    ] {
        let mut manager = manager_over(&[]);
        assert!(manager.download(Some("x.jar".to_string()), None));
        assert!(!manager.downloaded(&Err(error)));
        assert_eq!(status(&manager), (key, is_error));
    }
    let mut manager = manager_over(&[]);
    manager.form.maven = "nonsense".to_string();
    assert!(!manager.download(None, None));
    assert_eq!(status(&manager), ("driver.bad_coordinate", true));
    assert!(!manager.download(Some("x.jar".to_string()), Some("no room".to_string())));
    assert_eq!(status(&manager), ("driver.save_failed", true));
}

#[test]
fn a_new_definition_is_selected_and_can_be_deleted() {
    let mut manager = manager_over(&[]);
    manager.form.name = "Edited".to_string();
    let id = manager.new_driver("New driver".to_string());
    assert_eq!(id, "driver-1");
    assert_eq!(manager.selected.as_deref(), Some("driver-1"));
    assert_eq!(manager.form.name, "New driver");
    assert_eq!(manager.current().expect("it").dialect, "generic");
    assert_eq!(manager.store.get("h2").map(|d| d.name.as_str()), Some("Edited"));

    manager.confirming = true;
    assert!(manager.footer().confirm.is_some());
    assert!(manager.delete_driver());
    assert!(manager.store.get("driver-1").is_none());
    assert_eq!(manager.selected.as_deref(), Some("h2"));
    assert!(manager.persisted(None));
    assert!(manager.save());
    assert!(!manager.persisted(Some("no room".to_string())));
    assert_eq!(status(&manager), ("driver.save_failed", true));
    assert!(!manager.save());
}

#[test]
fn a_port_is_a_number_or_nothing() {
    let mut manager = manager_over(&[]);
    assert_eq!(manager.form.port, "9092");
    for (typed, read) in [("", None), ("x", None), (" 5432 ", Some(5432)), ("70000", None)] {
        manager.form.port = typed.to_string();
        manager.collect();
        assert_eq!(manager.current().expect("H2").default_port, read, "{typed:?}");
    }
}

#[test]
fn escape_leaves_the_manager_layer_by_layer() {
    let mut manager = manager_over(&["/a.jar"]);
    assert!(manager.download(Some("x.jar".to_string()), None));
    assert!(manager.detect_class().is_some());
    manager.confirming = true;
    assert_eq!(manager.escape(), ManagerEscape::Layer);
    assert!(!manager.confirming && manager.probe.is_some());
    assert_eq!(manager.escape(), ManagerEscape::Layer);
    assert!(manager.probe.is_none());
    assert_eq!(manager.escape(), ManagerEscape::Layer);
    assert!(manager.download.as_ref().expect("it runs").cancelled);
    assert!(!manager.downloaded(&Err(DownloadError::Cancelled)));
    assert_eq!(manager.escape(), ManagerEscape::Dismissed);
}

#[test]
fn the_list_marks_a_definition_without_an_archive() {
    let manager = manager_over(&["/a.jar", "/b.jar"]);
    let rows = manager.list();
    assert_eq!(rows[0].name, "H2");
    assert_eq!(rows[0].subtitle.key, "driver.jar_count");
    assert_eq!(rows[0].subtitle.args, vec![("count", Caption::Text("2".to_string()))]);
    assert!(rows[0].selected);
    assert_eq!(rows[1].subtitle.key, "driver.no_jar");
    assert_eq!(rows[1].tone, Tone::Danger);
    assert_eq!(manager.details_placeholder(), None);
    assert_eq!(manager.title(), "driver.title");
    let empty = DriverManager::new(DriverStore { drivers: Vec::new() }, None);
    assert_eq!(empty.details_placeholder(), Some("driver.none_selected"));
    let failed =
        DriverManager::new(DriverStore { drivers: Vec::new() }, Some("bad json".to_string()));
    assert_eq!(status(&failed), ("driver.load_failed", true));
}

#[test]
fn a_comment_query_has_its_box_and_its_hint() {
    let mut manager = manager_over(&[]);
    manager.toggle_comments(false, true);
    let tables = manager.comment_section(true);
    assert_eq!(tables.toggle.id, "driver-use-table-comments");
    assert_eq!(tables.toggle.label, "driver.use_table_comments");
    assert_eq!(tables.toggle.tab, 470);
    assert!(!tables.toggle.checked);
    assert_eq!(tables.hint, "driver.table_comments_hint");
    let columns = manager.comment_section(false);
    assert_eq!(columns.toggle.id, "driver-use-column-comments");
    assert_eq!(columns.toggle.label, "driver.use_column_comments");
    assert_eq!(columns.toggle.tab, 472);
    assert!(columns.toggle.checked);
    assert_eq!(columns.hint, "driver.column_comments_hint");
}

#[test]
fn saving_keeps_what_was_typed_and_closes() {
    let mut manager = manager_over(&[]);
    manager.form.name = "H2 embedded".to_string();
    manager.begin_save();
    assert_eq!(manager.current().map(|driver| driver.name.as_str()), Some("H2 embedded"));
    assert!(manager.persisted(None));
    assert!(manager.save());

    assert!(!manager.persisted(Some("denied".to_string())));
    assert!(!manager.save(), "a failure stands under the form");
}

#[test]
fn a_failure_that_is_gone_keeps_nothing_open() {
    let mut manager = manager_over(&[]);
    assert!(!manager.persisted(Some("denied".to_string())));
    manager.select("postgresql".to_string());
    assert!(manager.status.is_none());
    manager.begin_save();
    assert!(manager.persisted(None));
    assert!(manager.save());
}
