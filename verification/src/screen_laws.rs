//! What the dialogs show of what they hold: rows, switches, buttons and sentences.

use vstd::prelude::*;

use crate::backup_dialog::{
    asked, batch_of, closed as backup_closed, ends_as, form_of as backup_form, form_toggles,
    fresh_backup, is_body, is_running, is_stopping, scope_caption,
    scope_name, stage_buttons, stopping, BackupBody, BackupDialog, Ended, JobProgress,
    JobState, Stage,
};
use crate::connection_dialog::{current, DialogText, Level};
use crate::connection_form::FormText;
use crate::connection_view::{
    auth_index, behaviour_toggles, driver_ids, driver_names, footer_buttons, is_footer,
    part_label, part_rows, part_sample, shown_body, swatches,
    tunnel_rows, tunnel_toggle, DialogBody, DialogFooter, PartRow, TunnelControl, AUTO_COMMIT_TAB,
    CANCEL_TAB, COLORS, COLOR_TAB, CONFIRM_WRITES_TAB, CONNECT_TAB, DELETE_TAB, DUPLICATE_TAB,
    KEEP_ALIVE_TAB, NEW_TAB, READ_ONLY_TAB, SAVE_TAB, TEST_TAB, TUNNEL_TAB,
};
use crate::driver_manager::{edited_driver, ManagerText};
use crate::driver_view::{
    choice_row, detect_button, driver_row, is_manager_footer, jar_rows, jars_shown,
    progress_label, tab_between, ChoiceRow, DriverRow, JarRow, ManagerFooter,
    CLOSE_MANAGER_TAB, DELETE_DRIVER_TAB, DETECT_TAB, DRIVER_LIST_TAB, DRIVER_LIST_TAB_LIMIT,
    NEW_DRIVER_TAB, PROBE_CHOICE_TAB, PROBE_CHOICE_TAB_LIMIT, REMOVE_JAR_TAB, SAVE_DRIVERS_TAB,
};
use crate::profile::{AuthText, DriverText};
use crate::text::{decimal, parsed, trim};
use crate::view::{ButtonVariant, CaptionText, FormButton, Toggle, Tone};

verus! {

/// Whether a button is the one that is meant.
pub open spec fn is_button(
    button: FormButton,
    id: &'static str,
    label: &'static str,
    variant: ButtonVariant,
    enabled: bool,
    tab: Option<usize>,
) -> bool {
    button.id == id && button.label == label && button.variant == variant && button.enabled
        == enabled && button.tab == tab
}

/// Whether a switch is the one that is meant.
pub open spec fn is_toggle(
    toggle: Toggle,
    id: &'static str,
    label: &'static str,
    checked: bool,
    tab: usize,
) -> bool {
    toggle.id == id && toggle.label == label && toggle.checked == checked && toggle.tab == tab
}

/// A swatch is marked where its colour is the profile's: the first stands for none, and the
/// others for the colours there are, in their order.
pub proof fn the_swatch_of_the_colour_is_marked(color: Option<Seq<char>>, k: int)
    requires
        0 <= k < 7,
    ensures
        swatches(color).len() == 7,
        swatches(color)[k].tab == COLOR_TAB + k,
        k == 0 ==> swatches(color)[k].color is None && swatches(color)[k].selected == (
        color is None),
        k > 0 ==> swatches(color)[k].color == Some(COLORS@[k - 1]) && swatches(color)[k].selected
            == (color == Some(COLORS@[k - 1]@)),
{
}

/// The part fields stand in the order of the template, one for each name there is a part
/// for. A name that is known has a label of its own, any other is its own label.
pub proof fn a_part_field_for_each_part(
    names: Seq<Seq<char>>,
    parts: Map<Seq<char>, Seq<char>>,
    name: Seq<char>,
)
    ensures
        part_rows(Seq::empty(), parts).len() == 0,
        ({
            let before = part_rows(names, parts);
            let after = part_rows(names.push(name), parts);
            &&& !parts.dom().contains(name) ==> after == before
            &&& parts.dom().contains(name) ==> {
                &&& after.len() == before.len() + 1
                &&& after.drop_last() == before
                &&& after.last().name == name
                &&& after.last().label == part_label(name)
                &&& after.last().sample == part_sample(name)
            }
        }),
        part_label(name) == if name == "host"@ {
            CaptionText::Key("connect.host")
        } else if name == "port"@ {
            CaptionText::Key("connect.port")
        } else if name == "database"@ || name == "service"@ || name == "sid"@ || name == "file"@ {
            CaptionText::Key("connect.database")
        } else {
            CaptionText::Text(name)
        },
        part_sample(name) == if name == "host"@ {
            "db.example.com"
        } else if name == "port"@ {
            "5432"
        } else if name == "file"@ {
            "/var/lib/app.sqlite"
        } else {
            "app"
        },
{
    assert(names.push(name).drop_last() =~= names);
    if parts.dom().contains(name) {
        assert(part_rows(names.push(name), parts).drop_last() =~= part_rows(names, parts));
    }
}

/// The fields of a tunnel are shown where it is switched on and unfolded: a key where the
/// login is by key, and a secret unless it is left to the agent.
pub proof fn the_fields_of_a_tunnel(form: FormText)
    ensures
        is_toggle(
            tunnel_toggle(form),
            "connect-tunnel",
            "connect.tunnel_enabled",
            form.tunnel_enabled,
            TUNNEL_TAB,
        ),
        !(form.tunnel_enabled && form.tunnel_open) ==> tunnel_rows(form).len() == 0,
        form.tunnel_enabled && form.tunnel_open ==> {
            let rows = tunnel_rows(form);
            let by_key = form.tunnel_auth is Key;
            let by_agent = form.tunnel_auth is Agent;
            let end: int = 3 + if by_key {
                2int
            } else if by_agent {
                0
            } else {
                1
            };
            &&& rows.len() == end + 2
            &&& rows[0].label == "connect.tunnel_host" && rows[0].control is HostAndPort
            &&& rows[1].label == "connect.tunnel_user" && rows[1].control is User
            &&& rows[2].label == "connect.tunnel_auth" && rows[2].control == TunnelControl::Auth(
                auth_index(form.tunnel_auth),
            )
            &&& by_key ==> rows[3].label == "connect.tunnel_key" && rows[3].control is Key
                && rows[4].label == "connect.tunnel_passphrase" && rows[4].control is Secret
            &&& !by_key && !by_agent ==> rows[3].label == "connect.tunnel_password"
                && rows[3].control is Secret
            &&& rows[end].label == "connect.tunnel_remote" && rows[end].control is RemoteHostAndPort
            &&& rows[end + 1].label == "connect.tunnel_hint" && rows[end + 1].control is Hint
        },
        auth_index(form.tunnel_auth) == match form.tunnel_auth {
            AuthText::Agent => 0usize,
            AuthText::Key(_) => 1,
            AuthText::Password => 2,
        },
{
}

/// Each switch shows what the form holds under its own name.
pub proof fn a_switch_shows_what_the_form_holds(form: FormText)
    ensures
        behaviour_toggles(form).len() == 4,
        is_toggle(
            behaviour_toggles(form)[0],
            "connect-read-only",
            "connect.read_only",
            form.read_only,
            READ_ONLY_TAB,
        ),
        is_toggle(
            behaviour_toggles(form)[1],
            "connect-auto-commit",
            "connect.auto_commit",
            form.auto_commit,
            AUTO_COMMIT_TAB,
        ),
        is_toggle(
            behaviour_toggles(form)[2],
            "connect-confirm-writes",
            "connect.confirm_writes",
            form.confirm_writes,
            CONFIRM_WRITES_TAB,
        ),
        is_toggle(
            behaviour_toggles(form)[3],
            "connect-keep-alive",
            "connect.keep_alive",
            form.keep_alive_enabled,
            KEEP_ALIVE_TAB,
        ),
{
}

/// The list of drivers names every driver, in order, beside the name it is known by.
pub proof fn the_drivers_are_listed(drivers: Seq<DriverText>, k: int)
    ensures
        driver_names(drivers).len() == drivers.len(),
        driver_ids(drivers).len() == drivers.len(),
        0 <= k < drivers.len() ==> driver_names(drivers)[k] == drivers[k].name && driver_ids(
            drivers,
        )[k] == drivers[k].id,
{
}

/// The foot of the dialog shows what is said, in the tone it is said in, the key that is to
/// be ruled on with all that identifies it, the question before a profile goes with its
/// name, and the buttons, none of which can be used while a test runs.
pub proof fn the_foot_of_the_dialog(footer: DialogFooter, dialog: DialogText)
    requires
        is_footer(footer, dialog),
    ensures
        footer.status is Some <==> dialog.status is Some,
        footer.status matches Some(shown) ==> shown.1@ == dialog.status.unwrap().message
            && shown.0 == match dialog.status.unwrap().level {
            Level::Success => Tone::Success,
            Level::Error => Tone::Danger,
            Level::Busy => Tone::Muted,
        },
        footer.host_key is Some <==> dialog.pending_host_key is Some,
        footer.host_key matches Some(row) ==> {
            let pending = dialog.pending_host_key.unwrap();
            &&& row.question@.key == "connect.host_key_question"
            &&& row.question@.args == seq![
                ("host", CaptionText::Text(pending.host@)),
                ("algorithm", CaptionText::Text(pending.algorithm@)),
                ("fingerprint", CaptionText::Text(pending.fingerprint@)),
            ]
            &&& is_button(
                row.trust,
                "connect-trust-host-key",
                "connect.trust_host_key",
                ButtonVariant::Secondary,
                true,
                None,
            )
        },
        footer.confirm is Some <==> dialog.confirming,
        footer.confirm matches Some(row) ==> {
            &&& row.question@.key == "connect.delete_confirm"
            &&& row.question@.args == seq![
                (
                    "name",
                    CaptionText::Text(
                        match current(dialog) {
                            Some(profile) => profile.name,
                            None => Seq::empty(),
                        },
                    ),
                ),
            ]
            &&& is_button(
                row.cancel,
                "connect-delete-cancel",
                "common.cancel",
                ButtonVariant::Secondary,
                true,
                None,
            )
            &&& is_button(
                row.delete,
                "connect-delete-confirm",
                "connect.delete",
                ButtonVariant::Danger,
                true,
                None,
            )
        },
        footer.buttons@ == footer_buttons(dialog.testing),
{
}

/// The buttons of the dialog, in their order; the last is the one that connects.
pub proof fn the_buttons_of_the_dialog(testing: bool)
    ensures
        ({
            let buttons = footer_buttons(testing);
            let second = ButtonVariant::Secondary;
            &&& buttons.len() == 7
            &&& is_button(buttons[0], "connect-new", "connect.new", second, !testing, Some(NEW_TAB))
            &&& is_button(
                buttons[1],
                "connect-duplicate",
                "connect.duplicate",
                second,
                !testing,
                Some(DUPLICATE_TAB),
            )
            &&& is_button(
                buttons[2],
                "connect-delete",
                "connect.delete",
                second,
                !testing,
                Some(DELETE_TAB),
            )
            &&& is_button(
                buttons[3],
                "connect-test",
                "connect.test",
                second,
                !testing,
                Some(TEST_TAB),
            )
            &&& is_button(
                buttons[4],
                "connect-cancel",
                "common.cancel",
                second,
                !testing,
                Some(CANCEL_TAB),
            )
            &&& is_button(
                buttons[5],
                "connect-save",
                "common.save",
                second,
                !testing,
                Some(SAVE_TAB),
            )
            &&& is_button(
                buttons[6],
                "connect-connect",
                "connect.connect",
                ButtonVariant::Primary,
                !testing,
                Some(CONNECT_TAB),
            )
        }),
{
}

/// The dialog shows the driver manager while that is up, else the form, and nothing while it
/// is closed.
pub proof fn what_the_dialog_shows(dialog: DialogText)
    ensures
        match shown_body(dialog) {
            DialogBody::Hidden => !dialog.open,
            DialogBody::Manager => dialog.open && dialog.managing,
            DialogBody::Form => dialog.open && !dialog.managing,
        },
{
}

/// A place in the tab order is one further for each row, up to the last there is.
pub proof fn places_go_up_to_the_last(first: usize, last: usize, index: int)
    requires
        first <= last,
        0 <= index,
    ensures
        first + index <= last ==> tab_between(first, last, index) == first + index,
        first + index > last ==> tab_between(first, last, index) == last,
{
}

/// A row of the drivers names the driver, by what it is known by where it has no name, and
/// counts its archives; one without any is marked as lacking them.
pub proof fn a_driver_row_counts_its_archives(
    driver: DriverText,
    selected: Option<Seq<char>>,
    index: int,
)
    ensures
        ({
            let row = driver_row(driver, selected, index);
            &&& row.id == driver.id
            &&& driver.name.len() > 0 ==> row.name == driver.name
            &&& driver.name.len() == 0 ==> row.name == driver.id
            &&& driver.jars.len() == 0 ==> row.subtitle.key == "driver.no_jar"
                && row.subtitle.args.len() == 0 && row.tone == Tone::Danger
            &&& driver.jars.len() > 0 ==> row.subtitle.key == "driver.jar_count"
                && row.subtitle.args == seq![
                ("count", CaptionText::Text(decimal(driver.jars.len()))),
            ] && row.tone == Tone::Muted
            &&& row.selected <==> selected == Some(driver.id)
            &&& row.tab == tab_between(DRIVER_LIST_TAB, DRIVER_LIST_TAB_LIMIT, index)
        }),
{
}

/// A class to choose is shown as it is, and preferred where it is the one recommended; a
/// scan can be asked for where the driver has archives and none is under way.
pub proof fn a_class_is_shown_to_be_chosen(
    class: Seq<char>,
    recommended: Option<Seq<char>>,
    index: int,
    manager: ManagerText,
)
    ensures
        choice_row(class, recommended, index).class == class,
        choice_row(class, recommended, index).preferred <==> recommended == Some(class),
        choice_row(class, recommended, index).tab == tab_between(
            PROBE_CHOICE_TAB,
            PROBE_CHOICE_TAB_LIMIT,
            index,
        ),
        is_button(
            detect_button(manager),
            "driver-detect",
            "driver.detect",
            ButtonVariant::Secondary,
            (edited_driver(manager) matches Some(driver) && driver.jars.len() > 0 && !(
            manager.probe matches Some(probe) && probe is Running)),
            Some(DETECT_TAB),
        ),
{
}

/// Every archive of the driver at hand has a row, in order, which says whether it is missing.
pub proof fn every_archive_has_a_row(
    manager: ManagerText,
    jars: Seq<Seq<char>>,
    present: Seq<bool>,
    k: int,
)
    ensures
        edited_driver(manager) is None ==> jars_shown(manager).len() == 0,
        edited_driver(manager) matches Some(driver) ==> jars_shown(manager) == driver.jars,
        jar_rows(jars, present).len() == jars.len(),
        0 <= k < jars.len() ==> {
            let row = jar_rows(jars, present)[k];
            &&& row.path == jars[k]
            &&& row.missing == !present[k]
            &&& row.tab == tab_between(REMOVE_JAR_TAB, usize::MAX, k)
        },
{
}

/// The foot of the driver manager shows what is said, the question before a driver goes with
/// its name, and the buttons; a driver can be deleted where one is selected and nothing is
/// being asked.
pub proof fn the_foot_of_the_manager(footer: ManagerFooter, manager: ManagerText)
    requires
        is_manager_footer(footer, manager),
    ensures
        footer.status is Some <==> manager.status is Some,
        footer.status matches Some(shown) ==> shown.1@ == manager.status.unwrap() && shown.0
            == if manager.status_is_error {
            Tone::Danger
        } else {
            Tone::Success
        },
        footer.confirm is Some <==> manager.confirming,
        footer.confirm matches Some(row) ==> {
            &&& row.question@.key == "driver.delete_confirm"
            &&& row.question@.args == seq![
                (
                    "name",
                    CaptionText::Text(
                        match edited_driver(manager) {
                            Some(driver) => driver.name,
                            None => Seq::empty(),
                        },
                    ),
                ),
            ]
            &&& is_button(
                row.cancel,
                "driver-delete-cancel",
                "common.cancel",
                ButtonVariant::Secondary,
                true,
                None,
            )
            &&& is_button(
                row.delete,
                "driver-delete-confirm",
                "driver.delete",
                ButtonVariant::Danger,
                true,
                None,
            )
        },
        footer.buttons@.len() == 4,
        is_button(
            footer.buttons@[0],
            "driver-new",
            "driver.new",
            ButtonVariant::Secondary,
            true,
            Some(NEW_DRIVER_TAB),
        ),
        is_button(
            footer.buttons@[1],
            "driver-delete",
            "driver.delete",
            ButtonVariant::Secondary,
            manager.selected is Some && !manager.confirming,
            Some(DELETE_DRIVER_TAB),
        ),
        is_button(
            footer.buttons@[2],
            "driver-close",
            "common.close",
            ButtonVariant::Secondary,
            true,
            Some(CLOSE_MANAGER_TAB),
        ),
        is_button(
            footer.buttons@[3],
            "driver-save",
            "common.save",
            ButtonVariant::Primary,
            true,
            Some(SAVE_DRIVERS_TAB),
        ),
{
}

/// A download says which file is coming, and how much of it where that is known.
pub proof fn a_download_says_how_far_it_is(file: Seq<char>, percent: u32)
    ensures
        progress_label(file, None).key == "driver.downloading",
        progress_label(file, None).args == seq![("file", CaptionText::Text(file))],
        progress_label(file, Some(percent)).key == "driver.downloading_percent",
        progress_label(file, Some(percent)).args == seq![
            ("file", CaptionText::Text(file)),
            ("percent", CaptionText::Text(decimal(percent as nat))),
        ],
{
}

/// A row of the driver manager reads as what it holds.
pub proof fn a_driver_row_reads_as_it_is(
    row: DriverRow,
    choice: ChoiceRow,
    jar: JarRow,
    part: PartRow,
)
    ensures
        row@.id == row.id@,
        row@.name == row.name@,
        row@.subtitle == row.subtitle@,
        row@.tone == row.tone,
        row@.selected == row.selected,
        row@.tab == row.tab,
        choice@.class == choice.class@,
        choice@.preferred == choice.preferred,
        choice@.tab == choice.tab,
        jar@.path == jar.path@,
        jar@.missing == jar.missing,
        jar@.tab == jar.tab,
        part@.name == part.name@,
        part@.label == part.label@,
        part@.sample == part.sample,
{
}

/// A backup starts from both halves, nothing dropped first, not compressed, and one row to a
/// statement; its form is what the dialog shows, and a number that cannot be read is the
/// usual one.
pub proof fn a_backup_form_is_what_the_dialog_shows(dialog: BackupDialog)
    ensures
        fresh_backup().output is None,
        !fresh_backup().compress,
        fresh_backup().ddl,
        !fresh_backup().include_drop,
        fresh_backup().data,
        fresh_backup().batch_rows == 1,
        backup_form(dialog).output == dialog.output,
        backup_form(dialog).compress == dialog.compress,
        backup_form(dialog).ddl == dialog.ddl,
        backup_form(dialog).include_drop == dialog.include_drop,
        backup_form(dialog).data == dialog.data,
        backup_form(dialog).batch_rows == match parsed(trim(dialog.batch@), u32::MAX as nat) {
            Some(rows) => rows as u32,
            None => 1,
        },
        backup_form(dialog).batch_rows == batch_of(dialog.batch@),
{
}

/// Closing the backup dialog ends what was going on in it, and keeps what was chosen.
pub proof fn closing_a_backup_keeps_the_choices(dialog: BackupDialog)
    ensures
        ({
            let after = backup_closed(dialog);
            &&& !after.open
            &&& !after.pending_focus
            &&& after.stage is Form
            &&& !after.polling
            &&& !after.attached
            &&& after.scope is None
            &&& after.notice is None
            &&& after.output == dialog.output
            &&& after.compress == dialog.compress
            &&& after.ddl == dialog.ddl
            &&& after.include_drop == dialog.include_drop
            &&& after.data == dialog.data
            &&& after.batch == dialog.batch
        }),
{
}

/// A backup that is asked to stop goes on as it was until it has stopped, and one that does
/// not run is not touched. Once it has ended it says so: what it wrote, that it was stopped,
/// or the first thing that went wrong.
pub proof fn a_backup_ends_as_it_was_reported(stage: Stage, ended: Stage, progress: JobProgress)
    ensures
        is_running(stage) <==> stage is Running,
        match stage {
            Stage::Running { phase, rows_done, bytes, cancelling } => {
                &&& is_stopping(stage) == cancelling
                &&& stopping(stage) == (Stage::Running { phase, rows_done, bytes, cancelling: true })
            },
            _ => !is_stopping(stage) && stopping(stage) == stage,
        },
        ends_as(ended, progress) ==> match ended {
            Stage::Ended(Ended::Done { rows, bytes }) => progress.state == JobState::Done && rows
                == progress.rows_done && bytes == progress.bytes,
            Stage::Ended(Ended::Cancelled) => progress.state == JobState::Cancelled,
            Stage::Ended(Ended::Failed(message)) => progress.state != JobState::Done
                && progress.state != JobState::Cancelled && message@ == if progress.errors@.len()
                > 0 {
                CaptionText::Text(progress.errors@[0]@)
            } else {
                CaptionText::Key("backup.failed_unknown")
            },
            _ => false,
        },
{
}

/// What is backed up is called by its scope, and by a sentence where it is everything. Each
/// switch shows what was chosen, and dropping is offered only with the definitions.
pub proof fn the_form_of_a_backup(dialog: BackupDialog)
    ensures
        ({
            let name = match dialog.scope {
                Some(scope) => scope_name(scope),
                None => Seq::empty(),
            };
            scope_caption(dialog.scope) == if name.len() > 0 {
                CaptionText::Text(name)
            } else {
                CaptionText::Key("backup.scope_all")
            }
        }),
        ({
            let toggles = form_toggles(dialog);
            &&& toggles.len() == if dialog.ddl {
                4int
            } else {
                3
            }
            &&& is_toggle(
                toggles[0],
                "backup-compress",
                "backup.compress",
                dialog.compress,
                crate::backup_dialog::COMPRESS_TAB,
            )
            &&& is_toggle(
                toggles[1],
                "backup-ddl",
                "backup.ddl",
                dialog.ddl,
                crate::backup_dialog::DDL_TAB,
            )
            &&& dialog.ddl ==> is_toggle(
                toggles[2],
                "backup-drop",
                "backup.drop",
                dialog.include_drop,
                crate::backup_dialog::DROP_TAB,
            )
            &&& is_toggle(
                toggles.last(),
                "backup-data",
                "backup.data",
                dialog.data,
                crate::backup_dialog::DATA_TAB,
            )
        }),
{
}

/// A backup can be started where it is ready, stopped once while it runs, and closed when it
/// has ended.
pub proof fn the_buttons_of_a_backup(dialog: BackupDialog)
    ensures
        match dialog.stage {
            Stage::Form => {
                &&& stage_buttons(dialog).len() == 2
                &&& is_button(
                    stage_buttons(dialog)[0],
                    "backup-cancel",
                    "common.cancel",
                    ButtonVariant::Secondary,
                    true,
                    Some(crate::backup_dialog::DISMISS_TAB),
                )
                &&& is_button(
                    stage_buttons(dialog)[1],
                    "backup-start",
                    "backup.start",
                    ButtonVariant::Primary,
                    asked(dialog) is Some,
                    Some(crate::backup_dialog::START_TAB),
                )
            },
            Stage::Running { cancelling, .. } => {
                &&& stage_buttons(dialog).len() == 1
                &&& is_button(
                    stage_buttons(dialog)[0],
                    "backup-stop",
                    "common.cancel",
                    ButtonVariant::Secondary,
                    !cancelling,
                    Some(crate::backup_dialog::DISMISS_TAB),
                )
            },
            Stage::Ended(_) => {
                &&& stage_buttons(dialog).len() == 1
                &&& is_button(
                    stage_buttons(dialog)[0],
                    "backup-close",
                    "common.close",
                    ButtonVariant::Primary,
                    true,
                    Some(crate::backup_dialog::DISMISS_TAB),
                )
            },
        },
{
}

/// The body of the backup dialog is of its stage: the form, what is being done with how many
/// rows and bytes, or how it ended, with the file it is about.
pub proof fn the_body_of_a_backup(body: BackupBody, dialog: BackupDialog, bytes: Seq<char>)
    requires
        is_body(body, dialog, bytes),
    ensures
        body is Hidden <==> !dialog.open,
        body matches BackupBody::Form { output, chosen, toggles, batch_field } ==> {
            &&& dialog.stage is Form
            &&& dialog.output matches Some(path) ==> output@ == CaptionText::Text(path@)
            &&& dialog.output is None ==> output@ == CaptionText::Key("backup.output_none")
            &&& chosen == (dialog.output is Some)
            &&& toggles@ == form_toggles(dialog)
            &&& batch_field == dialog.data
        },
        body matches BackupBody::Running { doing, counters } ==> {
            &&& dialog.stage matches Stage::Running { phase, rows_done, cancelling, .. } && {
                &&& cancelling ==> doing@ == CaptionText::Key("backup.cancelling")
                &&& !cancelling && phase@.len() == 0 ==> doing@ == CaptionText::Key(
                    "backup.starting",
                )
                &&& !cancelling && phase@.len() > 0 ==> doing@ == CaptionText::Text(phase@)
                &&& counters@.key == "backup.counters"
                &&& counters@.args == seq![
                    ("rows", CaptionText::Text(decimal(rows_done as nat))),
                    ("bytes", CaptionText::Text(bytes)),
                ]
            }
        },
        body matches BackupBody::Ended { message, tone } ==> {
            let path = match dialog.output {
                Some(path) => path@,
                None => Seq::empty(),
            };
            match dialog.stage {
                Stage::Ended(Ended::Done { rows, .. }) => tone == Tone::Success && message@.key
                    == "backup.done" && message@.args == seq![
                    ("path", CaptionText::Text(path)),
                    ("rows", CaptionText::Text(decimal(rows as nat))),
                    ("bytes", CaptionText::Text(bytes)),
                ],
                Stage::Ended(Ended::Cancelled) => tone == Tone::Normal && message@.key
                    == "backup.cancelled" && message@.args == seq![
                    ("path", CaptionText::Text(path)),
                ],
                Stage::Ended(Ended::Failed(error)) => tone == Tone::Danger && message@.key
                    == "backup.failed" && message@.args == seq![("error", error@)],
                _ => false,
            }
        },
{
}

} // verus!
