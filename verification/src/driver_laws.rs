//! What the driver manager keeps of what is typed into it, what it does with the
//! archives and classes of a driver, and what it says about it.

use vstd::prelude::*;

use crate::connection::{BridgeErrorKind, JdbcError};
use crate::driver_manager::{
    adding, after_probe, after_write, collecting, download_message, driver_form, driver_from,
    dropping, each_once, edited_driver, failure_label, failure_stands, first_free_id, holding,
    ids_of, installing, manager_escaped, named_driver, offered, probe_failure, refilled, removing,
    selecting, stopping, taking_class, telling, toggled, typed_port, with_jars, DownloadError,
    DriverForm, DriverFormText, DriverManager, DriverProbe, ManagerText, Probe,
    ProbeFailure, ProbeText,
};
use crate::keyed::{found, only_the_first_is_touched, put, put_is_found, what_is_missing_goes_last};
use crate::profile::{blank_driver, has_driver_id, DriverText};
use crate::text::{decimal, maybe_text, parsed, texts, trim};
use crate::view::{CaptionText, LabelText};

verus! {

/// Whether two managers agree on everything but the drivers and the form.
pub open spec fn same_beside(a: ManagerText, b: ManagerText) -> bool {
    &&& a.selected == b.selected
    &&& a.download == b.download
    &&& a.probe == b.probe
    &&& a.status == b.status
    &&& a.status_is_error == b.status_is_error
    &&& a.confirming == b.confirming
}

/// A driver is what the form says, without the white space around what was typed. A
/// port that is none is not set, an empty dialect is the generic one and an empty
/// coordinate none. Which driver it is, its archives and which comments are read are
/// not the form's to say.
pub proof fn a_driver_is_what_the_form_says(form: DriverFormText, existing: DriverText)
    ensures
        ({
            let driver = driver_from(form, existing);
            &&& driver.id == existing.id
            &&& driver.jars == existing.jars
            &&& driver.use_table_comments == existing.use_table_comments
            &&& driver.use_column_comments == existing.use_column_comments
            &&& driver.name == trim(form.name)
            &&& driver.class == trim(form.class)
            &&& driver.url_template == trim(form.url_template)
            &&& driver.default_port == typed_port(form.port)
            &&& trim(form.dialect).len() > 0 ==> driver.dialect == trim(form.dialect)
            &&& trim(form.dialect).len() == 0 ==> driver.dialect == "generic"@
            &&& driver.maven is None <==> trim(form.maven).len() == 0
            &&& driver.maven matches Some(maven) ==> maven == trim(form.maven)
            &&& driver.table_comments_sql == trim(form.table_comments)
            &&& driver.column_comments_sql == trim(form.column_comments)
        }),
        match typed_port(form.port) {
            Some(port) => port > 0 && (parsed(trim(form.port), u16::MAX as nat) matches Some(n)
                && n as u16 == port),
            None => match parsed(trim(form.port), u16::MAX as nat) {
                Some(n) => n == 0,
                None => true,
            },
        },
{
}

/// The form shows what the driver holds, and nothing where it holds nothing.
pub proof fn the_form_shows_what_the_driver_holds(driver: DriverText)
    ensures
        ({
            let form = driver_form(driver);
            &&& form.name == driver.name
            &&& form.class == driver.class
            &&& form.url_template == driver.url_template
            &&& driver.default_port matches Some(port) ==> form.port == decimal(port as nat)
            &&& driver.default_port is None ==> form.port.len() == 0
            &&& form.dialect == driver.dialect
            &&& driver.maven matches Some(maven) ==> form.maven == maven
            &&& driver.maven is None ==> form.maven.len() == 0
            &&& form.table_comments == driver.table_comments_sql
            &&& form.column_comments == driver.column_comments_sql
        }),
{
}

/// The driver at hand is the one with the selected name; what is typed is put down in
/// it and in no other, and showing it fills the form from it.
pub proof fn the_driver_at_hand(manager: ManagerText, at: int)
    requires
        0 <= at < manager.store.len(),
        manager.selected == Some(manager.store[at].id),
        forall|k: int|
            0 <= k < at ==> (#[trigger] manager.store[k]).id != manager.store[at].id,
    ensures
        edited_driver(manager) == Some(manager.store[at]),
        collecting(manager).store == manager.store.take(at).push(
            driver_from(manager.form, manager.store[at]),
        ) + manager.store.skip(at + 1),
        collecting(manager).form == manager.form,
        same_beside(collecting(manager), manager),
        refilled(manager).form == driver_form(manager.store[at]),
        refilled(manager).store == manager.store,
        same_beside(refilled(manager), manager),
{
    let same = has_driver_id(manager.store[at].id);
    assert forall|k: int| 0 <= k < at implies !same(#[trigger] manager.store[k]) by {}
    only_the_first_is_touched(
        manager.store,
        same,
        driver_from(manager.form, manager.store[at]),
        at,
    );
}

/// With no driver selected, or one that is not there, what is typed goes nowhere and the
/// form is emptied.
pub proof fn no_driver_at_hand(manager: ManagerText)
    requires
        manager.selected matches Some(id) ==> forall|k: int|
            0 <= k < manager.store.len() ==> (#[trigger] manager.store[k]).id != id,
    ensures
        edited_driver(manager) is None,
        collecting(manager) == manager,
        refilled(manager).form == driver_form(blank_driver()),
        refilled(manager).store == manager.store,
        same_beside(refilled(manager), manager),
{
    if let Some(id) = manager.selected {
        what_is_missing_goes_last(manager.store, has_driver_id(id), blank_driver());
    }
}

/// Holding a driver puts it in place of the one with its name, or behind the rest; saying
/// something changes what is said; neither touches anything else.
pub proof fn holding_and_telling(
    manager: ManagerText,
    driver: DriverText,
    message: LabelText,
    is_error: bool,
)
    ensures
        holding(manager, driver).store == put(manager.store, has_driver_id(driver.id), driver),
        holding(manager, driver).form == manager.form,
        same_beside(holding(manager, driver), manager),
        telling(manager, message, is_error) == (ManagerText {
            status: Some(message),
            status_is_error: is_error,
            ..manager
        }),
        failure_stands(manager) <==> manager.status is Some && manager.status_is_error,
{
}

/// Switching the comments of tables or of columns on or off keeps what was typed, and
/// changes that one switch.
pub proof fn one_switch_is_turned(manager: ManagerText, table: bool, enabled: bool)
    ensures
        edited_driver(manager) is None ==> toggled(manager, table, enabled) == manager,
        edited_driver(manager) matches Some(driver) ==> {
            let typed = driver_from(manager.form, driver);
            let after = toggled(manager, table, enabled);
            &&& after.form == manager.form
            &&& same_beside(after, manager)
            &&& edited_driver(after) == Some(
                DriverText {
                    use_table_comments: if table {
                        enabled
                    } else {
                        driver.use_table_comments
                    },
                    use_column_comments: if table {
                        driver.use_column_comments
                    } else {
                        enabled
                    },
                    ..typed
                },
            )
        },
{
    if let Some(driver) = edited_driver(manager) {
        let own = manager.selected.unwrap();
        crate::keyed::first_match_is_first(manager.store, has_driver_id(own));
        assert(driver.id == own);
        let typed = driver_from(manager.form, driver);
        put_is_found(manager.store, has_driver_id(own), typed);
        let collected = collecting(manager);
        let switched = if table {
            DriverText { use_table_comments: enabled, ..typed }
        } else {
            DriverText { use_column_comments: enabled, ..typed }
        };
        assert(edited_driver(collected) == Some(typed));
        put_is_found(collected.store, has_driver_id(own), switched);
    }
}

/// Selecting a driver keeps what was typed into the one left, shows the other, and ends
/// what was asked, said or looked for.
pub proof fn selecting_a_driver_shows_it(manager: ManagerText, id: Seq<char>)
    ensures
        ({
            let after = selecting(manager, id);
            &&& after.store == collecting(manager).store
            &&& after.selected == Some(id)
            &&& !after.confirming
            &&& after.status is None
            &&& after.probe is None
            &&& after.download == manager.download
            &&& after.form == driver_form(
                match found(after.store, has_driver_id(id)) {
                    Some(driver) => driver,
                    None => blank_driver(),
                },
            )
        }),
{
}

/// A driver that is added holds its name and the generic dialect, stands in the list with
/// what was typed before kept, and is the one shown.
pub proof fn adding_a_driver_shows_it(manager: ManagerText, id: Seq<char>, name: Seq<char>)
    ensures
        ({
            let after = adding(manager, id, name);
            let driver = named_driver(id, name);
            &&& driver.id == id
            &&& driver.name == name
            &&& driver.dialect == "generic"@
            &&& driver.class.len() == 0
            &&& driver.jars.len() == 0
            &&& driver.url_template.len() == 0
            &&& driver.default_port is None
            &&& driver.maven is None
            &&& !driver.use_table_comments
            &&& driver.table_comments_sql.len() == 0
            &&& !driver.use_column_comments
            &&& driver.column_comments_sql.len() == 0
            &&& after.store == put(collecting(manager).store, has_driver_id(id), driver)
            &&& after.selected == Some(id)
            &&& after.form == driver_form(driver)
            &&& after.probe is None
            &&& after.status is None
            &&& !after.confirming
            &&& after.download == manager.download
        }),
{
    put_is_found(collecting(manager).store, has_driver_id(id), named_driver(id, name));
}

/// A driver that is deleted is gone, and the first of those left is shown; with none
/// selected nothing is deleted.
pub proof fn deleting_a_driver_shows_the_first(manager: ManagerText)
    ensures
        manager.selected is None ==> removing(manager) == (ManagerText {
            confirming: false,
            ..manager
        }),
        manager.selected matches Some(id) ==> {
            let rest = crate::keyed::without(manager.store, has_driver_id(id));
            let after = removing(manager);
            &&& !after.confirming
            &&& after.download == manager.download
            &&& after.probe == manager.probe
            &&& after.status == manager.status
            &&& after.status_is_error == manager.status_is_error
            &&& rest.len() == 0 ==> after.store == rest && after.selected is None && after.form
                == driver_form(blank_driver())
            &&& rest.len() > 0 ==> after.selected == Some(rest[0].id) && after.form == driver_form(
                rest[0],
            ) && after.store == rest.update(0, driver_from(driver_form(rest[0]), rest[0]))
        },
{
    if let Some(id) = manager.selected {
        let rest = crate::keyed::without(manager.store, has_driver_id(id));
        if rest.len() > 0 {
            let next = ManagerText {
                confirming: false,
                store: rest,
                selected: Some(rest[0].id),
                ..manager
            };
            the_driver_at_hand(next, 0);
            the_driver_at_hand(refilled(next), 0);
            let shown = driver_from(driver_form(rest[0]), rest[0]);
            assert(rest.take(0).push(shown) + rest.skip(1) =~= rest.update(0, shown));
        }
    }
}

/// One archive more goes behind the others, unless it is there already.
pub proof fn an_archive_is_added_once(
    jars: Seq<Seq<char>>,
    paths: Seq<Seq<char>>,
    path: Seq<char>,
)
    ensures
        with_jars(jars, Seq::empty()) == jars,
        with_jars(jars, paths.push(path)) == if with_jars(jars, paths).contains(path) {
            with_jars(jars, paths)
        } else {
            with_jars(jars, paths).push(path)
        },
{
    assert(paths.push(path).drop_last() =~= paths);
}

/// Archives that are installed are added to the driver at hand, with what was typed into
/// it, and what was said is over; an archive that is taken out leaves the others in their
/// order. Neither touches another driver, and without one nothing happens.
pub proof fn archives_go_to_the_driver_at_hand(
    manager: ManagerText,
    paths: Seq<Seq<char>>,
    index: int,
)
    requires
        0 <= index,
    ensures
        edited_driver(manager) is None ==> installing(manager, paths) == manager && dropping(
            manager,
            index,
        ) == manager,
        edited_driver(manager) matches Some(driver) ==> {
            let typed = driver_from(manager.form, driver);
            let after = installing(manager, paths);
            let fewer = dropping(manager, index);
            &&& edited_driver(after) == Some(
                (DriverText { jars: with_jars(driver.jars, paths), ..typed }),
            )
            &&& after.status is None
            &&& after.status_is_error == manager.status_is_error
            &&& after.selected == manager.selected
            &&& after.download == manager.download
            &&& after.probe == manager.probe
            &&& after.confirming == manager.confirming
            &&& after.form == manager.form
            &&& index >= driver.jars.len() ==> fewer == manager
            &&& index < driver.jars.len() ==> edited_driver(fewer) == Some(
                (DriverText {
                    jars: driver.jars.take(index) + driver.jars.skip(index + 1),
                    ..typed
                }),
            ) && same_beside(fewer, manager) && fewer.form == manager.form
        },
{
    if let Some(driver) = edited_driver(manager) {
        let own = manager.selected.unwrap();
        crate::keyed::first_match_is_first(manager.store, has_driver_id(own));
        assert(driver.id == own);
        let more = DriverText { jars: with_jars(driver.jars, paths), ..driver };
        put_is_found(manager.store, has_driver_id(own), more);
        let held = ManagerText { status: None, ..holding(manager, more) };
        assert(edited_driver(held) == Some(more));
        put_is_found(held.store, has_driver_id(own), driver_from(manager.form, more));
        if index < driver.jars.len() {
            let less = DriverText { jars: driver.jars.remove(index), ..driver };
            assert(driver.jars.remove(index) =~= driver.jars.take(index) + driver.jars.skip(
                index + 1,
            ));
            put_is_found(manager.store, has_driver_id(own), less);
            let rest = holding(manager, less);
            assert(edited_driver(rest) == Some(less));
            put_is_found(rest.store, has_driver_id(own), driver_from(manager.form, less));
        }
    }
}

/// What could not be written is said with its reason, and what was written says nothing.
pub proof fn a_failed_write_is_said(manager: ManagerText, error: Seq<char>)
    ensures
        after_write(manager, None) == manager,
        after_write(manager, Some(error)).status matches Some(said) && said.key
            == "driver.save_failed" && said.args == seq![("error", CaptionText::Text(error))],
        after_write(manager, Some(error)).status_is_error,
        after_write(manager, Some(error)).store == manager.store,
        after_write(manager, Some(error)).form == manager.form,
        after_write(manager, Some(error)).selected == manager.selected,
        after_write(manager, Some(error)).download == manager.download,
        after_write(manager, Some(error)).probe == manager.probe,
        after_write(manager, Some(error)).confirming == manager.confirming,
{
}

/// A download that did not come to anything says why, with what it is about; one the user
/// stopped is no error.
pub proof fn a_download_says_what_stopped_it(error: DownloadError)
    ensures
        download_message(error).1 <==> !(error is Cancelled),
        match error {
            DownloadError::Cancelled => download_message(error).0.key
                == "driver.download_cancelled" && download_message(error).0.args.len() == 0,
            DownloadError::NotFound(url) => download_message(error).0.key == "driver.not_found"
                && download_message(error).0.args == seq![("url", CaptionText::Text(url@))],
            DownloadError::Network(message) => download_message(error).0.key
                == "driver.network_failed" && download_message(error).0.args == seq![
                ("error", CaptionText::Text(message@)),
            ],
            DownloadError::Checksum { expected, actual } => download_message(error).0.key
                == "driver.checksum_failed" && download_message(error).0.args == seq![
                ("expected", CaptionText::Text(expected@)),
                ("actual", CaptionText::Text(actual@)),
            ],
            DownloadError::Io(message) => download_message(error).0.key == "driver.save_failed"
                && download_message(error).0.args == seq![("error", CaptionText::Text(message@))],
        },
{
}

/// A scan that failed is told apart by what failed: the virtual machine, a class that is
/// missing, an archive that is damaged, or anything else in its own words; and it is said
/// with those words.
pub proof fn a_failed_scan_is_told_apart(error: JdbcError, failure: ProbeFailure)
    ensures
        match error {
            JdbcError::JvmStart(message) => probe_failure(error) == ProbeFailure::Jvm(message),
            JdbcError::Bridge(bridge) => {
                &&& bridge.kind == BridgeErrorKind::Driver ==> probe_failure(error)
                    == ProbeFailure::Missing(bridge.message)
                &&& bridge.kind == BridgeErrorKind::Io ==> probe_failure(error)
                    == ProbeFailure::Damaged(bridge.message)
                &&& bridge.kind != BridgeErrorKind::Driver && bridge.kind != BridgeErrorKind::Io
                    ==> probe_failure(error) == ProbeFailure::Other(bridge.shown)
            },
            JdbcError::Other(shown) => probe_failure(error) == ProbeFailure::Other(shown),
        },
        match failure {
            ProbeFailure::Jvm(text) => failure_label(failure).key == "driver.probe_jvm_failed"
                && failure_label(failure).args == seq![("error", CaptionText::Text(text@))],
            ProbeFailure::Missing(text) => failure_label(failure).key == "driver.probe_missing"
                && failure_label(failure).args == seq![("error", CaptionText::Text(text@))],
            ProbeFailure::Damaged(text) => failure_label(failure).key == "driver.probe_damaged"
                && failure_label(failure).args == seq![("error", CaptionText::Text(text@))],
            ProbeFailure::Other(text) => failure_label(failure).key == "driver.probe_failed"
                && failure_label(failure).args == seq![("error", CaptionText::Text(text@))],
        },
{
}

/// One class more is offered behind the others, unless it is offered already; the classes
/// an archive declares are offered before those that were found in it.
pub proof fn a_class_is_offered_once(
    list: Seq<Seq<char>>,
    class: Seq<char>,
    probe: DriverProbe,
)
    ensures
        each_once(Seq::empty()) == Seq::<Seq<char>>::empty(),
        each_once(list.push(class)) == if list.contains(class) {
            each_once(list)
        } else {
            each_once(list).push(class)
        },
        offered(probe) == each_once(texts(probe.services@) + texts(probe.classes@)),
{
    assert(list.push(class).drop_last() =~= list);
    crate::driver_manager::what_is_offered(list);
    assert(each_once(list).contains(class) <==> list.contains(class));
}

/// A scan that is over says what it found: why it failed, that there is nothing, or the
/// one class there is, which goes into the form. Where there are more, the user chooses
/// among all of them. Nothing else is touched.
pub proof fn a_scan_says_what_it_found(
    manager: ManagerText,
    outcome: Result<DriverProbe, ProbeFailure>,
    recommended: Option<Seq<char>>,
)
    ensures
        ({
            let after = after_probe(manager, outcome, recommended);
            &&& after.store == manager.store
            &&& after.selected == manager.selected
            &&& after.download == manager.download
            &&& after.confirming == manager.confirming
            &&& match outcome {
                Err(failure) => after.probe is None && after.form == manager.form
                    && after.status == Some(failure_label(failure)) && after.status_is_error,
                Ok(probe) => {
                    let classes = offered(probe);
                    &&& classes.len() == 0 ==> after.probe is None && after.form == manager.form
                        && after.status_is_error
                    &&& classes.len() == 0 ==> (after.status matches Some(said) && said.key
                        == "driver.probe_none" && said.args.len() == 0)
                    &&& classes.len() == 1 ==> after == taking_class(
                        (ManagerText { probe: None, ..manager }),
                        classes[0],
                    )
                    &&& classes.len() > 1 ==> after.form == manager.form && after.status
                        == manager.status && after.status_is_error == manager.status_is_error
                        && after.probe == Some(ProbeText::Choosing(classes, recommended))
                },
            }
        }),
{
}

/// A class that is taken goes into the form and nowhere else, and is said.
pub proof fn a_class_that_is_taken_is_typed_in(manager: ManagerText, class: Seq<char>)
    ensures
        ({
            let after = taking_class(manager, class);
            &&& after.probe is None
            &&& after.form.class == class
            &&& after.form.name == manager.form.name
            &&& after.form.url_template == manager.form.url_template
            &&& after.form.port == manager.form.port
            &&& after.form.dialect == manager.form.dialect
            &&& after.form.maven == manager.form.maven
            &&& after.form.table_comments == manager.form.table_comments
            &&& after.form.column_comments == manager.form.column_comments
            &&& after.status matches Some(said) && said.key == "driver.probe_found" && said.args
                == seq![("class", CaptionText::Text(class))]
            &&& !after.status_is_error
            &&& after.store == manager.store
            &&& after.selected == manager.selected
            &&& after.download == manager.download
            &&& after.confirming == manager.confirming
        }),
{
}

/// Escape takes off one thing at a time: the question, then the scan, then it stops the
/// download, which stays until it has stopped; with none of these the manager goes.
pub proof fn escape_takes_off_one_thing(manager: ManagerText)
    ensures
        manager.confirming ==> manager_escaped(manager).1 is Layer && manager_escaped(manager).0
            == (ManagerText { confirming: false, ..manager }),
        !manager.confirming && manager.probe is Some ==> manager_escaped(manager).1 is Layer
            && manager_escaped(manager).0 == (ManagerText { probe: None, ..manager }),
        !manager.confirming && manager.probe is None && manager.download is Some
            ==> manager_escaped(manager).1 is Layer && manager_escaped(manager).0 == stopping(
            manager,
        ),
        !manager.confirming && manager.probe is None && manager.download is None
            ==> manager_escaped(manager).1 is Dismissed && manager_escaped(manager).0 == manager,
        manager.download is None ==> stopping(manager) == manager,
        manager.download matches Some(download) ==> {
            let after = stopping(manager);
            &&& after.download matches Some(now) && now.cancelled && now.file_name
                == download.file_name && now.received == download.received && now.total
                == download.total
            &&& after == (ManagerText { download: after.download, ..manager })
        },
{
}

/// A new name carries the first number that no driver has taken, counting from one.
pub proof fn a_new_name_is_free(prefix: Seq<char>, drivers: Seq<DriverText>, id: Seq<char>)
    requires
        first_free_id(prefix, ids_of(drivers), id),
    ensures
        forall|k: int| 0 <= k < drivers.len() ==> (#[trigger] drivers[k]).id != id,
        exists|n: nat|
            1 <= n && id == #[trigger] numbered(prefix, n) && forall|k: nat|
                1 <= k < n ==> drivers.map_values(|driver: DriverText| driver.id).contains(
                    #[trigger] numbered(prefix, k),
                ),
{
    let taken = ids_of(drivers);
    assert(taken =~= drivers.map_values(|driver: DriverText| driver.id));
    assert forall|k: int| 0 <= k < drivers.len() implies (#[trigger] drivers[k]).id != id by {
        assert(taken[k] == drivers[k].id);
    }
    let n = choose|n: nat|
        1 <= n && id == #[trigger] crate::driver_manager::id_candidate(prefix, n)
            && !taken.contains(id) && forall|k: nat|
            1 <= k < n ==> taken.contains(
                #[trigger] crate::driver_manager::id_candidate(prefix, k),
            );
    assert(id == numbered(prefix, n));
    assert forall|k: nat| 1 <= k < n implies taken.contains(#[trigger] numbered(prefix, k)) by {
        assert(taken.contains(crate::driver_manager::id_candidate(prefix, k)));
    }
}

/// A name with a number behind it.
pub open spec fn numbered(prefix: Seq<char>, n: nat) -> Seq<char> {
    prefix + "-"@ + decimal(n)
}

/// A manager, its form and its scan read as what they hold.
pub proof fn a_manager_reads_as_it_is(manager: DriverManager, form: DriverForm, probe: Probe)
    ensures
        manager@.store == manager.store@,
        manager@.selected == maybe_text(manager.selected),
        manager@.download == manager.download,
        manager@.probe is Some <==> manager.probe is Some,
        manager.probe matches Some(running) ==> manager@.probe == Some(running@),
        manager@.status is Some <==> manager.status is Some,
        manager.status matches Some(said) ==> manager@.status == Some(said@),
        manager@.status_is_error == manager.status_is_error,
        manager@.confirming == manager.confirming,
        manager@.form == manager.form@,
        form@.name == form.name@,
        form@.class == form.class@,
        form@.url_template == form.url_template@,
        form@.port == form.port@,
        form@.dialect == form.dialect@,
        form@.maven == form.maven@,
        form@.table_comments == form.table_comments@,
        form@.column_comments == form.column_comments@,
        probe is Running <==> probe@ is Running,
        probe matches Probe::Choosing { candidates, recommended } ==> probe@ == ProbeText::Choosing(
            texts(candidates@),
            maybe_text(recommended),
        ),
{
}

} // verus!
