use rudbman_app::backup_dialog::{
    build_spec, qualified, BackupBody, BackupDialog, BackupDialogEvent, BackupEscape, BackupForm, Compression,
    Constraints, Ended, JobProgress, JobState, Stage,
};
use rudbman_app::erd_pane::{ConnectionId, ErdTarget, Scope};
use rudbman_app::view::{Caption, Tone};

fn scope(schema: &str) -> Scope {
    Scope { catalog: None, schema: Some(schema.to_string()) }
}

fn dialog(schema: &str, output: &str) -> BackupDialog {
    let mut dialog = BackupDialog::new();
    dialog.open(scope(schema));
    dialog.picked(output.to_string());
    dialog
}

fn progress(state: JobState, rows_done: u64, bytes: u64, errors: &[&str]) -> JobProgress {
    JobProgress {
        state,
        phase: "data".to_string(),
        rows_done,
        bytes,
        errors: errors.iter().map(|error| error.to_string()).collect(),
    }
}

#[test]
fn the_form_becomes_the_specification_the_bridge_is_sent() {
    let scope = scope("PUBLIC");

    // Schema only: no data member is switched on at all, so the bridge writes
    // nothing but the CREATEs and the ALTERs.
    let ddl_only = BackupForm {
        output: Some("/tmp/app.sql".to_string()),
        ddl: true,
        include_drop: true,
        data: false,
        ..BackupForm::default()
    };
    let spec = build_spec(&scope, &ddl_only).expect("a path and the schema are enough");
    assert_eq!(spec.path, "/tmp/app.sql");
    assert_eq!(spec.schema.as_deref(), Some("PUBLIC"));
    assert_eq!(spec.catalog, None);
    assert_eq!(spec.compress, Compression::Plain);
    let ddl = spec.ddl.expect("the schema is asked for");
    assert!(ddl.include_drop);
    // Never offered in the form, and never anything else: a whole schema needs
    // its foreign keys out of the CREATEs.
    assert_eq!(ddl.constraints, Constraints::Alter);
    assert!(spec.data.is_none());

    // Rows only, compressed, in batches.
    let rows = BackupForm {
        output: Some("/tmp/app.sql.gz".to_string()),
        compress: true,
        ddl: false,
        data: true,
        batch_rows: 100,
        ..BackupForm::default()
    };
    let spec = build_spec(&scope, &rows).expect("a path and the rows are enough");
    assert_eq!(spec.compress, Compression::Gzip);
    assert!(spec.ddl.is_none());
    assert_eq!(spec.data.expect("the rows are asked for").insert_batch_rows, 100);

    // A count of zero would travel as a row count nobody meant; the form's own
    // field is clamped rather than sent.
    let zero = BackupForm { batch_rows: 0, ..rows };
    assert_eq!(
        build_spec(&scope, &zero)
            .expect("a path and the rows are enough")
            .data
            .expect("the rows are asked for")
            .insert_batch_rows,
        1
    );

    // A catalogue on the scope reaches the request; a blank half does not,
    // because "" is not a name: it is the absence of one.
    let catalogued = Scope {
        catalog: Some("TESTDB".to_string()),
        schema: Some("   ".to_string()),
    };
    let spec = build_spec(&catalogued, &ddl_only).expect("a path and the schema are enough");
    assert_eq!(spec.catalog.as_deref(), Some("TESTDB"));
    assert_eq!(spec.schema, None);
}

#[test]
fn an_incomplete_form_produces_no_specification_at_all() {
    let scope = scope("PUBLIC");

    // No output file: this is what disables the "Back up" button.
    assert!(build_spec(&scope, &BackupForm { output: None, ..BackupForm::default() }).is_none());

    // Neither half asked for: the job would write an empty file.
    assert!(build_spec(
        &scope,
        &BackupForm {
            output: Some("/tmp/app.sql".to_string()),
            ddl: false,
            data: false,
            ..BackupForm::default()
        }
    )
    .is_none());
}

#[test]
fn a_scope_reads_as_its_catalogue_and_its_schema() {
    assert_eq!(
        qualified(&Scope {
            catalog: Some("APP".to_string()),
            schema: Some("PUBLIC".to_string()),
        }),
        "APP.PUBLIC"
    );
    // Whichever half there is, and nothing when there is neither.
    assert_eq!(
        qualified(&Scope { catalog: None, schema: Some("PUBLIC".to_string()) }),
        "PUBLIC"
    );
    assert_eq!(qualified(&Scope { catalog: None, schema: None }), "");
}

#[test]
fn every_shape_of_the_dialog_lays_out() {
    let mut dialog = dialog("PUBLIC", "/tmp/app.sql");
    assert_eq!(dialog.suggested_name(), "PUBLIC-backup.sql");
    dialog.compress = true;
    assert_eq!(dialog.suggested_name(), "PUBLIC-backup.sql.gz");
    dialog.compress = false;

    for (ddl, data, compress) in [(true, true, false), (true, false, true), (false, true, false)] {
        dialog.ddl = ddl;
        dialog.include_drop = ddl;
        dialog.data = data;
        dialog.compress = compress;
        // And the "no file chosen" cell, which the helper filled in.
        dialog.output = if compress { Some("/tmp/app.sql.gz".to_string()) } else { None };
        match dialog.body("") {
            BackupBody::Form { output, chosen, toggles, batch_field } => {
                assert_eq!(chosen, compress);
                assert_eq!(
                    output,
                    if compress {
                        Caption::Text("/tmp/app.sql.gz".to_string())
                    } else {
                        Caption::Key("backup.output_none")
                    }
                );
                // The DROP toggle is only there with the schema, and the batch
                // field only with the rows.
                assert_eq!(toggles.iter().any(|toggle| toggle.id == "backup-drop"), ddl);
                assert_eq!(batch_field, data);
            }
            other => panic!("{other:?}"),
        }
        let footer = dialog.footer();
        assert_eq!(footer[1].id, "backup-start");
        assert_eq!(footer[1].enabled, compress, "a form with no file cannot start");
    }

    // A scope with neither half named falls back to a word rather than drawing a
    // blank row.
    dialog.scope = Some(Scope { catalog: None, schema: None });
    assert_eq!(dialog.scope_row(), Caption::Key("backup.scope_all"));
    assert_eq!(dialog.suggested_name(), "database-backup.sql");

    // And the three cards a job leaves behind, without running one.
    dialog.output = Some("/tmp/app.sql".to_string());
    for (ended, key, tone) in [
        (Ended::Done { rows: 12, bytes: 3_400 }, "backup.done", Tone::Success),
        (Ended::Cancelled, "backup.cancelled", Tone::Normal),
        (
            Ended::Failed(Caption::Text("the schema went away".to_string())),
            "backup.failed",
            Tone::Danger,
        ),
    ] {
        dialog.stage = Stage::Ended(ended);
        match dialog.body("3.4 kB") {
            BackupBody::Ended { message, tone: shown } => {
                assert_eq!(message.key, key);
                assert_eq!(shown, tone);
            }
            other => panic!("{other:?}"),
        }
        let footer = dialog.footer();
        assert_eq!(footer.len(), 1);
        assert_eq!(footer[0].id, "backup-close");
    }
}

#[test]
fn a_job_is_started_watched_and_ended() {
    let mut dialog = dialog("APP", "/tmp/app.sql");
    dialog.batch = " 50 ".to_string();
    let spec = dialog.start().expect("the form is complete");
    assert_eq!(spec.path, "/tmp/app.sql");
    assert_eq!(spec.data.expect("the rows are asked for").insert_batch_rows, 50);

    dialog.enter_progress();
    assert!(dialog.start().is_none(), "one job at a time");
    match dialog.body("0 B") {
        BackupBody::Running { doing, .. } => assert_eq!(doing, Caption::Key("backup.starting")),
        other => panic!("{other:?}"),
    }
    assert!(dialog.deliver(Ok(progress(JobState::Running, 3, 70, &[]))));
    match dialog.body("70 B") {
        BackupBody::Running { doing, counters } => {
            assert_eq!(doing, Caption::Text("data".to_string()));
            assert_eq!(counters.key, "backup.counters");
            assert_eq!(
                counters.args,
                vec![
                    ("rows", Caption::Text("3".to_string())),
                    ("bytes", Caption::Text("70 B".to_string())),
                ]
            );
        }
        other => panic!("{other:?}"),
    }
    assert!(!dialog.deliver(Ok(progress(JobState::Done, 5, 90, &[]))));
    match &dialog.stage {
        Stage::Ended(Ended::Done { rows, bytes }) => assert_eq!((*rows, *bytes), (5, 90)),
        other => panic!("{other:?}"),
    }
    assert!(dialog.notice.is_none());
}

#[test]
fn a_failed_job_says_its_first_error() {
    let mut first = dialog("APP", "/tmp/app.sql");
    first.enter_progress();
    assert!(!first.deliver(Ok(progress(JobState::Failed, 0, 0, &["no such schema", "more"]))));
    match &first.stage {
        Stage::Ended(Ended::Failed(message)) => {
            assert_eq!(*message, Caption::Text("no such schema".to_string()))
        }
        other => panic!("{other:?}"),
    }

    let mut silent = dialog("APP", "/tmp/app.sql");
    silent.enter_progress();
    assert!(!silent.deliver(Ok(progress(JobState::Failed, 0, 0, &[]))));
    match &silent.stage {
        Stage::Ended(Ended::Failed(message)) => {
            assert_eq!(*message, Caption::Key("backup.failed_unknown"))
        }
        other => panic!("{other:?}"),
    }
    match silent.body("0 B") {
        BackupBody::Ended { message, tone } => {
            assert_eq!(message.key, "backup.failed");
            assert_eq!(message.args, vec![("error", Caption::Key("backup.failed_unknown"))]);
            assert_eq!(tone, Tone::Danger);
        }
        other => panic!("{other:?}"),
    }

    let mut lost = dialog("APP", "/tmp/app.sql");
    lost.enter_progress();
    assert!(!lost.deliver(Err("the session is gone".to_string())));
    match &lost.stage {
        Stage::Ended(Ended::Failed(message)) => {
            assert_eq!(*message, Caption::Text("the session is gone".to_string()))
        }
        other => panic!("{other:?}"),
    }
}

#[test]
fn escape_over_a_running_job_asks_it_to_stop() {
    let mut dialog = dialog("APP", "/tmp/app.sql");
    dialog.enter_progress();
    assert_eq!(dialog.escape(), BackupEscape::Cancel);
    assert_eq!(dialog.escape(), BackupEscape::Wait, "asked once");
    assert!(dialog.is_open());
    match dialog.body("0 B") {
        BackupBody::Running { doing, .. } => assert_eq!(doing, Caption::Key("backup.cancelling")),
        other => panic!("{other:?}"),
    }
    assert!(!dialog.footer()[0].enabled);

    // A reading that is still running keeps the request standing.
    assert!(dialog.deliver(Ok(progress(JobState::Running, 1, 2, &[]))));
    assert!(!dialog.request_cancel());
    assert!(!dialog.deliver(Ok(progress(JobState::Cancelled, 1, 2, &[]))));
    assert_eq!(dialog.escape(), BackupEscape::Dismissed);
    assert!(!dialog.is_open());
    assert!(!dialog.deliver(Ok(progress(JobState::Done, 1, 2, &[]))), "closed under it");
    match dialog.body("") {
        BackupBody::Hidden => {}
        other => panic!("{other:?}"),
    }
}

#[test]
fn a_count_that_does_not_read_is_one() {
    let mut dialog = dialog("APP", "/tmp/app.sql");
    for (typed, read) in [("", 1), ("ten", 1), ("-3", 1), ("250", 250), ("4294967296", 1)] {
        dialog.batch = typed.to_string();
        assert_eq!(dialog.form().batch_rows, read, "{typed:?}");
    }
}

#[test]
fn opening_again_forgets_where_the_last_one_went() {
    let mut dialog = dialog("APP", "/tmp/app.sql");
    dialog.refused("no room".to_string());
    assert_eq!(dialog.notice.as_deref(), Some("no room"));
    assert!(dialog.apply_pending_focus());
    assert!(!dialog.apply_pending_focus());
    assert_eq!(dialog.dismiss(), BackupDialogEvent::Dismissed);
    assert!(!dialog.is_open());
    assert!(dialog.start().is_none());
    dialog.open(scope("OTHER"));
    assert_eq!(dialog.output, None);
    assert!(dialog.notice.is_none());
    assert_eq!(dialog.scope_row(), Caption::Text("OTHER".to_string()));
}

#[test]
fn the_dialog_and_the_diagram_name_a_scope_alike() {
    let halves = [None, Some(""), Some(" "), Some("\t\n"), Some("app"), Some(" app ")];
    for catalog in halves {
        for schema in halves {
            let scope = Scope {
                catalog: catalog.map(|half| half.to_string()),
                schema: schema.map(|half| half.to_string()),
            };
            let target = ErdTarget { connection: ConnectionId(1), scope: scope.clone() };
            assert_eq!(qualified(&scope), target.qualified(), "{scope:?}");
        }
    }
    let blank = Scope { catalog: Some(" ".to_string()), schema: None };
    assert_eq!(qualified(&blank), "");
    let target = ErdTarget { connection: ConnectionId(1), scope: blank };
    assert_eq!(target.title().key, "erd.tab_all");
    assert_eq!(target.file_stem(), "diagram");
}
