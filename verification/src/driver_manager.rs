//! The driver manager: the driver definitions, and the form of the one being
//! edited.
//!
//! It reads and writes no file and fetches nothing: whatever has to be written,
//! scanned or downloaded is asked for, and its outcome is handed back.

use vstd::prelude::*;

use crate::connection::{error_message, BridgeErrorKind, ConnectError, JdbcError};
use crate::keyed::{first_match, first_match_is_first, found, put, put_is_found, without};
use crate::profile::{blank_driver, has_driver_id, DriverDef, DriverStore, DriverText};
use crate::text::{
    append_decimal, contains_text, copy_texts, decimal, decimal_injective, decimal_text,
    distinct_texts_fit, maybe_text, parse_number, parsed, texts, trim, trimmed,
};
use crate::view::{plain, with, with_two, Label, LabelText};

verus! {

/// What a scan of a driver's archives found.
#[derive(Debug)]
pub struct DriverProbe {
    /// The driver classes the scan turned up.
    pub classes: Vec<String>,
    /// The ones the archive itself declares.
    pub services: Vec<String>,
}

/// Why a scan produced no class name.
#[derive(Debug)]
pub enum ProbeFailure {
    /// The virtual machine would not start.
    Jvm(String),
    /// An archive is not where the definition says it is.
    Missing(String),
    /// An archive could not be read to the end.
    Damaged(String),
    /// Anything else.
    Other(String),
}

/// Which failure of a scan an error is.
pub open spec fn probe_failure(error: JdbcError) -> ProbeFailure {
    match error {
        JdbcError::JvmStart(message) => ProbeFailure::Jvm(message),
        JdbcError::Bridge(bridge) => match bridge.kind {
            BridgeErrorKind::Driver => ProbeFailure::Missing(bridge.message),
            BridgeErrorKind::Io => ProbeFailure::Damaged(bridge.message),
            _ => ProbeFailure::Other(bridge.shown),
        },
        JdbcError::Other(shown) => ProbeFailure::Other(shown),
    }
}

impl From<JdbcError> for ProbeFailure {
    fn from(error: JdbcError) -> (r: Self) {
        match error {
            JdbcError::JvmStart(message) => ProbeFailure::Jvm(message),
            JdbcError::Bridge(bridge) => match bridge.kind {
                BridgeErrorKind::Driver => ProbeFailure::Missing(bridge.message),
                BridgeErrorKind::Io => ProbeFailure::Damaged(bridge.message),
                _ => ProbeFailure::Other(bridge.shown),
            },
            JdbcError::Other(shown) => ProbeFailure::Other(shown),
        }
    }
}

impl vstd::std_specs::convert::FromSpecImpl<JdbcError> for ProbeFailure {
    open spec fn obeys_from_spec() -> bool {
        true
    }

    open spec fn from_spec(error: JdbcError) -> ProbeFailure {
        probe_failure(error)
    }
}

/// Which failure of a scan it is that the virtual machine would not start.
pub fn start_failure(error: ConnectError) -> (r: ProbeFailure)
    ensures
        match error {
            ConnectError::JvmStart(message) => r == ProbeFailure::Jvm(message),
            _ => r matches ProbeFailure::Other(message) && message@
                == error_message(error),
        },
{
    match error {
        ConnectError::JvmStart(message) => ProbeFailure::Jvm(message),
        other => ProbeFailure::Other(other.message()),
    }
}

/// The texts of a list, each once, where it first appears.
pub open spec fn each_once(list: Seq<Seq<char>>) -> Seq<Seq<char>>
    decreases list.len(),
{
    if list.len() == 0 {
        Seq::empty()
    } else {
        let earlier = each_once(list.drop_last());
        if earlier.contains(list.last()) {
            earlier
        } else {
            earlier.push(list.last())
        }
    }
}

/// The classes a scan offers: the declared ones first, then the rest, each once.
pub open spec fn offered(probe: DriverProbe) -> Seq<Seq<char>> {
    each_once(texts(probe.services@) + texts(probe.classes@))
}

/// Adds the texts of a list that are not there yet.
fn add_new(into: &mut Vec<String>, list: &Vec<String>, Ghost(before): Ghost<Seq<Seq<char>>>)
    requires
        texts(old(into)@) == each_once(before),
    ensures
        texts(final(into)@) == each_once(before + texts(list@)),
{
    let mut i: usize = 0;
    assert(before + texts(list@).take(0) =~= before);
    while i < list.len()
        invariant
            i <= list@.len(),
            texts(into@) == each_once(before + texts(list@).take(i as int)),
        decreases list.len() - i,
    {
        let ghost next = before + texts(list@).take(i + 1);
        assert(next.drop_last() =~= before + texts(list@).take(i as int));
        assert(next.last() == list@[i as int]@);
        let ghost had = texts(into@);
        if !contains_text(into.as_slice(), list[i].as_str()) {
            into.push(list[i].clone());
            assert(texts(into@) =~= had.push(list@[i as int]@));
        }
        i = i + 1;
    }
    assert(texts(list@).take(list@.len() as int) =~= texts(list@));
}

/// The classes a scan offers, in the order to offer them.
pub fn candidates_of(probe: &DriverProbe) -> (r: Vec<String>)
    ensures
        texts(r@) == offered(*probe),
{
    let mut found: Vec<String> = Vec::new();
    assert(texts(found@) =~= Seq::<Seq<char>>::empty());
    add_new(&mut found, &probe.services, Ghost(Seq::empty()));
    assert(Seq::<Seq<char>>::empty() + texts(probe.services@) =~= texts(probe.services@));
    add_new(&mut found, &probe.classes, Ghost(texts(probe.services@)));
    found
}

/// What is offered is what was found, and nothing of it twice.
pub proof fn what_is_offered(list: Seq<Seq<char>>)
    ensures
        each_once(list).no_duplicates(),
        forall|text: Seq<char>| #[trigger] each_once(list).contains(text) <==> list.contains(text),
    decreases list.len(),
{
    if list.len() > 0 {
        let shorter = list.drop_last();
        what_is_offered(shorter);
        let earlier = each_once(shorter);
        let all = each_once(list);
        assert forall|text: Seq<char>| #[trigger] all.contains(text) <==> list.contains(text) by {
            if all.contains(text) {
                let k = choose|k: int| 0 <= k < all.len() && all[k] == text;
                if k < earlier.len() {
                    assert(earlier[k] == text);
                    assert(earlier.contains(text));
                    let j = choose|j: int| 0 <= j < shorter.len() && shorter[j] == text;
                    assert(list[j] == text);
                } else {
                    assert(list[list.len() - 1] == text);
                }
            }
            if list.contains(text) {
                let j = choose|j: int| 0 <= j < list.len() && list[j] == text;
                if j < shorter.len() {
                    assert(shorter[j] == text);
                    assert(earlier.contains(text));
                    let k = choose|k: int| 0 <= k < earlier.len() && earlier[k] == text;
                    assert(all[k] == text);
                } else if earlier.contains(text) {
                    let k = choose|k: int| 0 <= k < earlier.len() && earlier[k] == text;
                    assert(all[k] == text);
                } else {
                    assert(all.last() == text);
                }
            }
        }
    }
}

/// The declared classes head what is offered.
pub proof fn the_declared_classes_come_first(services: Seq<Seq<char>>, classes: Seq<Seq<char>>)
    ensures
        each_once(services) == each_once(services + classes).take(
            each_once(services).len() as int,
        ),
        each_once(services).len() <= each_once(services + classes).len(),
    decreases classes.len(),
{
    let head = each_once(services);
    if classes.len() == 0 {
        assert(services + classes =~= services);
        assert(head.take(head.len() as int) =~= head);
    } else {
        let fewer = classes.drop_last();
        the_declared_classes_come_first(services, fewer);
        assert((services + classes).drop_last() =~= services + fewer);
        let all = each_once(services + classes);
        let earlier = each_once(services + fewer);
        assert(all.take(head.len() as int) =~= earlier.take(head.len() as int));
    }
}

/// What a failed scan is reported as: each failure has a fix of its own.
pub open spec fn failure_label(failure: ProbeFailure) -> LabelText {
    match failure {
        ProbeFailure::Jvm(error) => with("driver.probe_jvm_failed", "error", error@),
        ProbeFailure::Missing(error) => with("driver.probe_missing", "error", error@),
        ProbeFailure::Damaged(error) => with("driver.probe_damaged", "error", error@),
        ProbeFailure::Other(error) => with("driver.probe_failed", "error", error@),
    }
}

/// What a failed scan is reported as.
pub fn probe_message(failure: &ProbeFailure) -> (r: Label)
    ensures
        r@ == failure_label(*failure),
{
    match failure {
        ProbeFailure::Jvm(error) => Label::with("driver.probe_jvm_failed", "error", error.as_str()),
        ProbeFailure::Missing(error) => Label::with(
            "driver.probe_missing",
            "error",
            error.as_str(),
        ),
        ProbeFailure::Damaged(error) => Label::with(
            "driver.probe_damaged",
            "error",
            error.as_str(),
        ),
        ProbeFailure::Other(error) => Label::with("driver.probe_failed", "error", error.as_str()),
    }
}

/// An id of the form `driver-1`.
pub open spec fn id_candidate(prefix: Seq<char>, n: nat) -> Seq<char> {
    prefix + "-"@ + decimal(n)
}

/// Whether an id is the first of its form that nothing answers to.
pub open spec fn first_free_id(prefix: Seq<char>, taken: Seq<Seq<char>>, id: Seq<char>) -> bool {
    exists|n: nat|
        1 <= n && id == #[trigger] id_candidate(prefix, n) && !taken.contains(id) && forall|k: nat|
            1 <= k < n ==> taken.contains(#[trigger] id_candidate(prefix, k))
}

/// The ids of the definitions.
pub open spec fn ids_of(drivers: Seq<DriverText>) -> Seq<Seq<char>> {
    drivers.map_values(|d: DriverText| d.id)
}

/// A run of ids that are all taken is no longer than the list of taken ones.
proof fn lemma_ids_run_out(prefix: Seq<char>, taken: Seq<Seq<char>>, n: nat)
    requires
        1 <= n,
        forall|k: nat| 1 <= k < n ==> taken.contains(#[trigger] id_candidate(prefix, k)),
    ensures
        n - 1 <= taken.len(),
{
    let ids = Seq::new((n - 1) as nat, |i: int| id_candidate(prefix, (i + 1) as nat));
    assert forall|i: int, j: int|
        0 <= i < ids.len() && 0 <= j < ids.len() && i != j implies ids[i] != ids[j] by {
        if ids[i] == ids[j] {
            let skip = (prefix + "-"@).len() as int;
            assert(ids[i].subrange(skip, ids[i].len() as int) =~= decimal((i + 1) as nat));
            assert(ids[j].subrange(skip, ids[j].len() as int) =~= decimal((j + 1) as nat));
            decimal_injective((i + 1) as nat, (j + 1) as nat);
        }
    }
    distinct_texts_fit(ids, taken);
}

/// An id nothing in the store answers to yet.
pub fn unique_id(prefix: &str, store: &DriverStore) -> (r: String)
    ensures
        first_free_id(prefix@, ids_of(store@), r@),
        found(store@, has_driver_id(r@)) is None,
{
    let ghost taken = ids_of(store@);
    let total: usize = store.drivers.len();
    let mut n: u128 = 1;
    loop
        invariant
            1 <= n,
            n <= total + 1,
            taken == ids_of(store@),
            total == store@.len(),
            forall|k: nat| 1 <= k < n ==> taken.contains(#[trigger] id_candidate(prefix@, k)),
        decreases total + 1 - n,
    {
        let mut candidate = prefix.to_owned();
        candidate.append("-");
        append_decimal(&mut candidate, n);
        assert(candidate@ =~= id_candidate(prefix@, n as nat));
        let answered = store.get(candidate.as_str()).is_some();
        proof {
            first_match_is_first(store@, has_driver_id(candidate@));
        }
        if !answered {
            proof {
                assert(!taken.contains(candidate@)) by {
                    if taken.contains(candidate@) {
                        let k = choose|k: int| 0 <= k < taken.len() && taken[k] == candidate@;
                        assert(has_driver_id(candidate@)(store@[k]));
                    }
                }
            }
            return candidate;
        }
        proof {
            assert(taken.contains(candidate@)) by {
                let k = first_match(store@, has_driver_id(candidate@)).unwrap();
                assert(taken[k] == candidate@);
            }
            assert forall|k: nat| 1 <= k < n + 1 implies taken.contains(
                #[trigger] id_candidate(prefix@, k),
            ) by {
                if k == n {
                    assert(candidate@ == id_candidate(prefix@, k));
                }
            }
            lemma_ids_run_out(prefix@, taken, (n + 1) as nat);
        }
        n = n + 1;
    }
}

/// What the fields hold, as it is typed.
#[derive(Debug)]
pub struct DriverForm {
    pub name: String,
    pub class: String,
    pub url_template: String,
    pub port: String,
    pub dialect: String,
    pub maven: String,
    pub table_comments: String,
    pub column_comments: String,
}

/// What the fields hold.
#[verifier::ext_equal]
pub ghost struct DriverFormText {
    pub name: Seq<char>,
    pub class: Seq<char>,
    pub url_template: Seq<char>,
    pub port: Seq<char>,
    pub dialect: Seq<char>,
    pub maven: Seq<char>,
    pub table_comments: Seq<char>,
    pub column_comments: Seq<char>,
}

impl View for DriverForm {
    type V = DriverFormText;

    open spec fn view(&self) -> DriverFormText {
        DriverFormText {
            name: self.name@,
            class: self.class@,
            url_template: self.url_template@,
            port: self.port@,
            dialect: self.dialect@,
            maven: self.maven@,
            table_comments: self.table_comments@,
            column_comments: self.column_comments@,
        }
    }
}

/// A definition copied into the fields.
pub open spec fn driver_form(driver: DriverText) -> DriverFormText {
    DriverFormText {
        name: driver.name,
        class: driver.class,
        url_template: driver.url_template,
        port: match driver.default_port {
            Some(port) => decimal(port as nat),
            None => Seq::empty(),
        },
        dialect: driver.dialect,
        maven: match driver.maven {
            Some(maven) => maven,
            None => Seq::empty(),
        },
        table_comments: driver.table_comments_sql,
        column_comments: driver.column_comments_sql,
    }
}

/// The port a field spells; zero is none.
pub open spec fn typed_port(field: Seq<char>) -> Option<u16> {
    match parsed(trim(field), u16::MAX as nat) {
        Some(port) => if port > 0 {
            Some(port as u16)
        } else {
            None
        },
        None => None,
    }
}

/// The fields read back into a definition. The class path and the two switches
/// are no fields, and are kept.
pub open spec fn driver_from(form: DriverFormText, existing: DriverText) -> DriverText {
    DriverText {
        name: trim(form.name),
        class: trim(form.class),
        url_template: trim(form.url_template),
        default_port: typed_port(form.port),
        dialect: if trim(form.dialect).len() == 0 {
            "generic"@
        } else {
            trim(form.dialect)
        },
        maven: if trim(form.maven).len() == 0 {
            None
        } else {
            Some(trim(form.maven))
        },
        table_comments_sql: trim(form.table_comments),
        column_comments_sql: trim(form.column_comments),
        ..existing
    }
}

impl DriverForm {
    /// A definition copied into the fields.
    pub fn of(driver: &DriverDef) -> (r: Self)
        ensures
            r@ == driver_form(driver@),
    {
        DriverForm {
            name: driver.name.clone(),
            class: driver.class.clone(),
            url_template: driver.url_template.clone(),
            port: match driver.default_port {
                Some(port) => decimal_text(port as u64),
                None => String::new(),
            },
            dialect: driver.dialect.clone(),
            maven: match &driver.maven {
                Some(maven) => maven.clone(),
                None => String::new(),
            },
            table_comments: driver.table_comments_sql.clone(),
            column_comments: driver.column_comments_sql.clone(),
        }
    }

    /// The fields read back into a definition.
    pub fn driver(&self, existing: &DriverDef) -> (r: DriverDef)
        ensures
            r@ == driver_from(self@, existing@),
    {
        let default_port = match parse_number(trimmed(self.port.as_str()), u16::MAX as u64) {
            Some(port) => if port > 0 {
                Some(port as u16)
            } else {
                None
            },
            None => None,
        };
        let dialect = trimmed(self.dialect.as_str());
        let maven = trimmed(self.maven.as_str());
        DriverDef {
            id: existing.id.clone(),
            name: trimmed(self.name.as_str()).to_owned(),
            class: trimmed(self.class.as_str()).to_owned(),
            jars: copy_texts(&existing.jars),
            url_template: trimmed(self.url_template.as_str()).to_owned(),
            dialect: if dialect.unicode_len() == 0 {
                "generic".to_owned()
            } else {
                dialect.to_owned()
            },
            default_port,
            maven: if maven.unicode_len() == 0 {
                None
            } else {
                Some(maven.to_owned())
            },
            use_table_comments: existing.use_table_comments,
            table_comments_sql: trimmed(self.table_comments.as_str()).to_owned(),
            use_column_comments: existing.use_column_comments,
            column_comments_sql: trimmed(self.column_comments.as_str()).to_owned(),
        }
    }
}

/// How far a scan has come.
#[derive(Debug)]
pub enum Probe {
    /// The scan is running.
    Running,
    /// Several drivers were found, and the user has to say which.
    Choosing {
        /// Every class found, the declared ones first.
        candidates: Vec<String>,
        /// The one that is preselected.
        recommended: Option<String>,
    },
}

/// How far a scan has come.
pub ghost enum ProbeText {
    Running,
    Choosing(Seq<Seq<char>>, Option<Seq<char>>),
}

impl View for Probe {
    type V = ProbeText;

    open spec fn view(&self) -> ProbeText {
        match self {
            Probe::Running => ProbeText::Running,
            Probe::Choosing { candidates, recommended } => ProbeText::Choosing(
                texts(candidates@),
                maybe_text(*recommended),
            ),
        }
    }
}

/// A scan that may be absent.
pub open spec fn maybe_probe(probe: Option<Probe>) -> Option<ProbeText> {
    match probe {
        Some(probe) => Some(probe@),
        None => None,
    }
}

/// A download in flight.
#[derive(Debug)]
pub struct Download {
    /// What is being fetched.
    pub file_name: String,
    pub received: u64,
    pub total: Option<u64>,
    /// Whether it has been asked to stop.
    pub cancelled: bool,
}

/// The driver manager.
#[derive(Debug)]
pub struct DriverManager {
    /// The definitions, and unsaved edits to the selected one.
    pub store: DriverStore,
    /// The definition being edited.
    pub selected: Option<String>,
    pub download: Option<Download>,
    pub probe: Option<Probe>,
    /// The message under the form.
    pub status: Option<Label>,
    /// Whether the message is a failure rather than a report.
    pub status_is_error: bool,
    /// Whether the question about deleting is up.
    pub confirming: bool,
    pub form: DriverForm,
}

/// The driver manager.
#[verifier::ext_equal]
pub ghost struct ManagerText {
    pub store: Seq<DriverText>,
    pub selected: Option<Seq<char>>,
    pub download: Option<Download>,
    pub probe: Option<ProbeText>,
    pub status: Option<LabelText>,
    pub status_is_error: bool,
    pub confirming: bool,
    pub form: DriverFormText,
}

/// A message that may be absent.
pub open spec fn maybe_label(label: Option<Label>) -> Option<LabelText> {
    match label {
        Some(label) => Some(label@),
        None => None,
    }
}

impl View for DriverManager {
    type V = ManagerText;

    open spec fn view(&self) -> ManagerText {
        ManagerText {
            store: self.store@,
            selected: maybe_text(self.selected),
            download: self.download,
            probe: maybe_probe(self.probe),
            status: maybe_label(self.status),
            status_is_error: self.status_is_error,
            confirming: self.confirming,
            form: self.form@,
        }
    }
}

/// The definition being edited.
pub open spec fn edited_driver(manager: ManagerText) -> Option<DriverText> {
    match manager.selected {
        Some(id) => found(manager.store, has_driver_id(id)),
        None => None,
    }
}

/// The manager with the selected definition copied into the fields.
pub open spec fn refilled(manager: ManagerText) -> ManagerText {
    ManagerText {
        form: driver_form(
            match edited_driver(manager) {
                Some(driver) => driver,
                None => blank_driver(),
            },
        ),
        ..manager
    }
}

/// The manager with the fields read back into the selected definition.
pub open spec fn collecting(manager: ManagerText) -> ManagerText {
    match edited_driver(manager) {
        Some(driver) => {
            let changed = driver_from(manager.form, driver);
            ManagerText {
                store: put(manager.store, has_driver_id(changed.id), changed),
                ..manager
            }
        },
        None => manager,
    }
}

/// The manager with a definition in place of the one with its id.
pub open spec fn holding(manager: ManagerText, driver: DriverText) -> ManagerText {
    ManagerText { store: put(manager.store, has_driver_id(driver.id), driver), ..manager }
}

/// The manager with a message under the form.
pub open spec fn telling(manager: ManagerText, message: LabelText, is_error: bool) -> ManagerText {
    ManagerText { status: Some(message), status_is_error: is_error, ..manager }
}

/// The manager with one of the comment queries turned on or off: its text stays.
pub open spec fn toggled(manager: ManagerText, table: bool, enabled: bool) -> ManagerText {
    let collected = collecting(manager);
    match edited_driver(collected) {
        Some(driver) => holding(
            collected,
            if table {
                DriverText { use_table_comments: enabled, ..driver }
            } else {
                DriverText { use_column_comments: enabled, ..driver }
            },
        ),
        None => collected,
    }
}

/// The manager with another definition selected.
pub open spec fn selecting(manager: ManagerText, id: Seq<char>) -> ManagerText {
    refilled(
        ManagerText {
            confirming: false,
            status: None,
            probe: None,
            selected: Some(id),
            ..collecting(manager)
        },
    )
}

/// A definition with nothing in it but a name.
pub open spec fn named_driver(id: Seq<char>, name: Seq<char>) -> DriverText {
    DriverText { id, name, dialect: "generic"@, ..blank_driver() }
}

/// The manager with an empty definition added and selected.
pub open spec fn adding(manager: ManagerText, id: Seq<char>, name: Seq<char>) -> ManagerText {
    refilled(
        ManagerText {
            probe: None,
            selected: Some(id),
            confirming: false,
            status: None,
            ..holding(collecting(manager), named_driver(id, name))
        },
    )
}

/// The manager with the selected definition taken out and the first of the rest
/// selected.
pub open spec fn removing(manager: ManagerText) -> ManagerText {
    match manager.selected {
        Some(id) => {
            let rest = without(manager.store, has_driver_id(id));
            collecting(
                refilled(
                    ManagerText {
                        confirming: false,
                        store: rest,
                        selected: if rest.len() > 0 {
                            Some(rest[0].id)
                        } else {
                            None
                        },
                        ..manager
                    },
                ),
            )
        },
        None => ManagerText { confirming: false, ..manager },
    }
}

/// A class path with what is not on it yet put behind the rest.
pub open spec fn with_jars(jars: Seq<Seq<char>>, paths: Seq<Seq<char>>) -> Seq<Seq<char>>
    decreases paths.len(),
{
    if paths.len() == 0 {
        jars
    } else {
        let earlier = with_jars(jars, paths.drop_last());
        if earlier.contains(paths.last()) {
            earlier
        } else {
            earlier.push(paths.last())
        }
    }
}

/// The manager with archives put on the selected definition's class path.
pub open spec fn installing(manager: ManagerText, paths: Seq<Seq<char>>) -> ManagerText {
    match edited_driver(manager) {
        Some(driver) => collecting(
            ManagerText {
                status: None,
                ..holding(manager, DriverText { jars: with_jars(driver.jars, paths), ..driver })
            },
        ),
        None => manager,
    }
}

/// The manager with an archive taken off the selected definition's class path.
pub open spec fn dropping(manager: ManagerText, index: int) -> ManagerText {
    match edited_driver(manager) {
        Some(driver) => if index < driver.jars.len() {
            collecting(holding(manager, DriverText { jars: driver.jars.remove(index), ..driver }))
        } else {
            manager
        },
        None => manager,
    }
}

/// The manager once the definitions have been written, or not.
pub open spec fn after_write(manager: ManagerText, error: Option<Seq<char>>) -> ManagerText {
    match error {
        Some(error) => telling(manager, with("driver.save_failed", "error", error), true),
        None => manager,
    }
}

/// Whether a failure stands under the form.
pub open spec fn failure_stands(manager: ManagerText) -> bool {
    manager.status is Some && manager.status_is_error
}

/// What a download can come to.
#[derive(Debug)]
pub enum DownloadError {
    Cancelled,
    NotFound(String),
    Network(String),
    Checksum { expected: String, actual: String },
    Io(String),
}

/// A file that was downloaded.
#[derive(Debug)]
pub struct Downloaded {
    pub path: String,
    /// The last part of the path.
    pub file_name: String,
}

/// What a failed download is reported as, and whether as a failure.
pub open spec fn download_message(error: DownloadError) -> (LabelText, bool) {
    match error {
        DownloadError::Cancelled => (plain("driver.download_cancelled"), false),
        DownloadError::NotFound(url) => (with("driver.not_found", "url", url@), true),
        DownloadError::Network(message) => (
            with("driver.network_failed", "error", message@),
            true,
        ),
        DownloadError::Checksum { expected, actual } => (
            with_two("driver.checksum_failed", "expected", expected@, "actual", actual@),
            true,
        ),
        DownloadError::Io(message) => (with("driver.save_failed", "error", message@), true),
    }
}

/// The manager with a class written into the field.
pub open spec fn taking_class(manager: ManagerText, class: Seq<char>) -> ManagerText {
    telling(
        ManagerText { probe: None, form: DriverFormText { class, ..manager.form }, ..manager },
        with("driver.probe_found", "class", class),
        false,
    )
}

/// The manager once a scan has come back: one class is taken, several are
/// offered, and none is a failure of its own.
pub open spec fn after_probe(
    manager: ManagerText,
    outcome: Result<DriverProbe, ProbeFailure>,
    recommended: Option<Seq<char>>,
) -> ManagerText {
    let idle = ManagerText { probe: None, ..manager };
    match outcome {
        Err(failure) => telling(idle, failure_label(failure), true),
        Ok(probe) => {
            let classes = offered(probe);
            if classes.len() == 0 {
                telling(idle, plain("driver.probe_none"), true)
            } else if classes.len() == 1 {
                taking_class(idle, classes[0])
            } else {
                ManagerText { probe: Some(ProbeText::Choosing(classes, recommended)), ..idle }
            }
        },
    }
}

/// What `Escape` comes to.
#[derive(Clone, Copy, Debug, PartialEq, Eq, Structural)]
pub enum ManagerEscape {
    /// One layer is gone.
    Layer,
    /// The manager is dismissed.
    Dismissed,
}

/// The manager after `Escape`, and what it comes to: the question first, then the
/// scan, then the download, which is asked to stop.
pub open spec fn manager_escaped(manager: ManagerText) -> (ManagerText, ManagerEscape) {
    if manager.confirming {
        (ManagerText { confirming: false, ..manager }, ManagerEscape::Layer)
    } else if manager.probe is Some {
        (ManagerText { probe: None, ..manager }, ManagerEscape::Layer)
    } else if manager.download is Some {
        (stopping(manager), ManagerEscape::Layer)
    } else {
        (manager, ManagerEscape::Dismissed)
    }
}

/// The manager with the download asked to stop.
pub open spec fn stopping(manager: ManagerText) -> ManagerText {
    match manager.download {
        Some(download) => ManagerText {
            download: Some(Download { cancelled: true, ..download }),
            ..manager
        },
        None => manager,
    }
}

impl DriverManager {
    /// Builds the manager over the definitions. `error` says why they could not
    /// be read, where others stand in for them.
    pub fn new(store: DriverStore, error: Option<String>) -> (r: Self)
        ensures
            r@ == refilled(
                (ManagerText {
                    store: store@,
                    selected: if store@.len() > 0 {
                        Some(store@[0].id)
                    } else {
                        None
                    },
                    download: None,
                    probe: None,
                    status: match error {
                        Some(error) => Some(with("driver.load_failed", "error", error@)),
                        None => None,
                    },
                    status_is_error: error is Some,
                    confirming: false,
                    form: driver_form(blank_driver()),
                }),
            ),
    {
        let selected = store.first();
        let status_is_error = error.is_some();
        let status = match error {
            Some(error) => Some(Label::with("driver.load_failed", "error", error.as_str())),
            None => None,
        };
        let blank = DriverDef::default();
        let mut manager = DriverManager {
            store,
            selected,
            download: None,
            probe: None,
            status,
            status_is_error,
            confirming: false,
            form: DriverForm::of(&blank),
        };
        manager.fill_form();
        manager
    }

    /// The definition being edited.
    pub fn current(&self) -> (r: Option<&DriverDef>)
        ensures
            (match r {
                Some(driver) => Some(driver@),
                None => None::<DriverText>,
            }) == edited_driver(self@),
    {
        match &self.selected {
            Some(id) => self.store.get(id.as_str()),
            None => None,
        }
    }

    /// Copies the selected definition into the fields.
    pub fn fill_form(&mut self)
        ensures
            final(self)@ == refilled(old(self)@),
    {
        let ghost before = self@;
        let driver = match self.current() {
            Some(driver) => driver.copy(),
            None => DriverDef::default(),
        };
        self.form = DriverForm::of(&driver);
        assert(self@ =~= refilled(before));
    }

    /// Reads the fields back into the selected definition, so that a half-typed
    /// edit is never silently lost.
    pub fn collect(&mut self)
        ensures
            final(self)@ == collecting(old(self)@),
    {
        let ghost before = self@;
        let changed = match self.current() {
            Some(existing) => self.form.driver(existing),
            None => {
                return;
            },
        };
        self.store.upsert(changed);
        assert(self@ =~= collecting(before));
    }

    fn report(&mut self, message: Label, is_error: bool)
        ensures
            final(self)@ == telling(old(self)@, message@, is_error),
    {
        self.status = Some(message);
        self.status_is_error = is_error;
    }

    fn hold(&mut self, driver: DriverDef)
        ensures
            final(self)@ == holding(old(self)@, driver@),
    {
        self.store.upsert(driver);
    }

    fn copy_current(&self) -> (r: Option<DriverDef>)
        ensures
            (match r {
                Some(driver) => Some(driver@),
                None => None::<DriverText>,
            }) == edited_driver(self@),
    {
        match self.current() {
            Some(driver) => Some(driver.copy()),
            None => None,
        }
    }

    /// Turns one of the two comment queries on or off.
    pub fn toggle_comments(&mut self, table: bool, enabled: bool)
        ensures
            final(self)@ == toggled(old(self)@, table, enabled),
    {
        self.collect();
        match self.copy_current() {
            Some(driver) => {
                let mut driver = driver;
                if table {
                    driver.use_table_comments = enabled;
                } else {
                    driver.use_column_comments = enabled;
                }
                self.hold(driver);
            },
            None => {},
        }
    }

    /// Selects `id`, keeping whatever was typed into the definition being left.
    pub fn select(&mut self, id: String)
        ensures
            final(self)@ == selecting(old(self)@, id@),
    {
        self.collect();
        self.confirming = false;
        self.status = None;
        self.probe = None;
        self.selected = Some(id);
        self.fill_form();
    }

    /// Adds an empty definition under a name and selects it. Gives back its id.
    pub fn new_driver(&mut self, name: String) -> (r: String)
        ensures
            final(self)@ == adding(old(self)@, r@, name@),
            first_free_id("driver"@, ids_of(collecting(old(self)@).store), r@),
    {
        self.collect();
        let id = unique_id("driver", &self.store);
        let mut driver = DriverDef::default();
        driver.id = id.clone();
        driver.name = name;
        driver.dialect = "generic".to_owned();
        assert(driver@ =~= named_driver(id@, name@));
        self.hold(driver);
        self.probe = None;
        self.selected = Some(id.clone());
        self.confirming = false;
        self.status = None;
        self.fill_form();
        id
    }

    /// Takes the selected definition out. Says whether the definitions are to be
    /// written.
    pub fn delete_driver(&mut self) -> (r: bool)
        ensures
            final(self)@ == removing(old(self)@),
            r == (old(self)@.selected is Some),
    {
        self.confirming = false;
        let id = match &self.selected {
            Some(id) => id.clone(),
            None => {
                return false;
            },
        };
        self.store.remove(id.as_str());
        self.selected = self.store.first();
        self.fill_form();
        self.collect();
        true
    }

    /// Takes note of how the definitions were written. Says whether they have
    /// changed for everybody else.
    pub fn persisted(&mut self, error: Option<String>) -> (r: bool)
        ensures
            final(self)@ == after_write(old(self)@, maybe_text(error)),
            r == (error is None),
    {
        match error {
            Some(error) => {
                self.report(Label::with("driver.save_failed", "error", error.as_str()), true);
                false
            },
            None => true,
        }
    }

    /// Begins to save: reads the fields back, for the definitions to be written.
    pub fn begin_save(&mut self)
        ensures
            final(self)@ == collecting(old(self)@),
    {
        self.collect();
    }

    /// Whether saving closes the manager, once the definitions have been written:
    /// not while a failure stands under the form.
    pub fn save(&self) -> (r: bool)
        ensures
            r == !failure_stands(self@),
    {
        self.status.is_none() || !self.status_is_error
    }

    /// Puts archives on the selected definition's class path, in the order they
    /// were picked. Says whether the definitions are to be written.
    pub fn install_jars(&mut self, paths: &Vec<String>) -> (r: bool)
        ensures
            final(self)@ == installing(old(self)@, texts(paths@)),
            r == (edited_driver(old(self)@) is Some),
    {
        let mut driver = match self.copy_current() {
            Some(driver) => driver,
            None => {
                return false;
            },
        };
        let ghost was = driver@;
        let mut jars: Vec<String> = copy_texts(&driver.jars);
        let mut i: usize = 0;
        assert(texts(paths@).take(0) =~= Seq::<Seq<char>>::empty());
        while i < paths.len()
            invariant
                i <= paths@.len(),
                texts(jars@) == with_jars(was.jars, texts(paths@).take(i as int)),
            decreases paths.len() - i,
        {
            let ghost next = texts(paths@).take(i + 1);
            assert(next.drop_last() =~= texts(paths@).take(i as int));
            assert(next.last() == paths@[i as int]@);
            let ghost had = texts(jars@);
            if !contains_text(jars.as_slice(), paths[i].as_str()) {
                jars.push(paths[i].clone());
                assert(texts(jars@) =~= had.push(paths@[i as int]@));
            }
            i = i + 1;
        }
        assert(texts(paths@).take(paths@.len() as int) =~= texts(paths@));
        driver.jars = jars;
        assert(driver@ =~= (DriverText { jars: with_jars(was.jars, texts(paths@)), ..was }));
        self.hold(driver);
        self.status = None;
        self.collect();
        true
    }

    /// Takes an archive off the selected definition's class path. Says whether the
    /// definitions are to be written.
    pub fn remove_jar(&mut self, index: usize) -> (r: bool)
        ensures
            final(self)@ == dropping(old(self)@, index as int),
            r == (match edited_driver(old(self)@) {
                Some(driver) => index < driver.jars.len(),
                None => false,
            }),
    {
        let mut driver = match self.copy_current() {
            Some(driver) => driver,
            None => {
                return false;
            },
        };
        let ghost was = driver@;
        if index >= driver.jars.len() {
            return false;
        }
        driver.jars.remove(index);
        assert(driver@.jars =~= was.jars.remove(index as int));
        self.hold(driver);
        self.collect();
        true
    }

    /// What the fields name to be fetched, for it to be read as a coordinate.
    pub fn coordinate(&self) -> (r: String)
        ensures
            r@ == trim(self@.form.maven),
    {
        trimmed(self.form.maven.as_str()).to_owned()
    }

    /// Starts a download. `file_name` is what the coordinate names, where it can be
    /// read as one; `directory` says why there is nowhere to put it, if there is
    /// not. Says whether the fetch is to begin.
    pub fn download(&mut self, file_name: Option<String>, directory: Option<String>) -> (r: bool)
        ensures
            ({
                let collected = collecting(old(self)@);
                if collected.download is Some {
                    !r && final(self)@ == collected
                } else {
                    match (file_name, directory) {
                        (None, _) => !r && final(self)@ == telling(
                            collected,
                            with(
                                "driver.bad_coordinate",
                                "coordinate",
                                trim(collected.form.maven),
                            ),
                            true,
                        ),
                        (Some(_), Some(error)) => !r && final(self)@ == telling(
                            collected,
                            with("driver.save_failed", "error", error@),
                            true,
                        ),
                        (Some(file), None) => r && final(self)@ == (ManagerText {
                            download: Some(
                                Download {
                                    file_name: file,
                                    received: 0,
                                    total: None,
                                    cancelled: false,
                                },
                            ),
                            status: None,
                            ..collected
                        }),
                    }
                }
            }),
    {
        self.collect();
        if self.download.is_some() {
            return false;
        }
        match (file_name, directory) {
            (None, _) => {
                let coordinate = self.coordinate();
                self.report(
                    Label::with("driver.bad_coordinate", "coordinate", coordinate.as_str()),
                    true,
                );
                false
            },
            (Some(_), Some(error)) => {
                self.report(Label::with("driver.save_failed", "error", error.as_str()), true);
                false
            },
            (Some(file_name), None) => {
                self.download = Some(
                    Download { file_name, received: 0, total: None, cancelled: false },
                );
                self.status = None;
                true
            },
        }
    }

    /// Takes note of how far the download has come.
    pub fn progressed(&mut self, received: u64, total: Option<u64>)
        ensures
            final(self)@ == (ManagerText {
                download: match old(self)@.download {
                    Some(download) => Some(Download { received, total, ..download }),
                    None => None,
                },
                ..old(self)@
            }),
    {
        match &mut self.download {
            Some(download) => {
                download.received = received;
                download.total = total;
            },
            None => {},
        }
    }

    /// Takes the download down. A file that came is put on the class path; where
    /// that is to be written, it is written before `report_downloaded`.
    pub fn downloaded(&mut self, outcome: &Result<Downloaded, DownloadError>) -> (r: bool)
        ensures
            ({
                let idle = ManagerText { download: None, ..old(self)@ };
                match *outcome {
                    Ok(file) => {
                        &&& final(self)@ == installing(idle, seq![file.path@])
                        &&& r == (edited_driver(idle) is Some)
                    },
                    Err(error) => {
                        &&& !r
                        &&& final(self)@ == telling(
                            idle,
                            download_message(error).0,
                            download_message(error).1,
                        )
                    },
                }
            }),
    {
        self.download = None;
        match outcome {
            Ok(file) => {
                let mut paths: Vec<String> = Vec::new();
                paths.push(file.path.clone());
                assert(texts(paths@) =~= seq![file.path@]);
                self.install_jars(&paths)
            },
            Err(error) => {
                match error {
                    DownloadError::Cancelled => {
                        self.report(Label::plain("driver.download_cancelled"), false);
                    },
                    DownloadError::NotFound(url) => {
                        self.report(Label::with("driver.not_found", "url", url.as_str()), true);
                    },
                    DownloadError::Network(message) => {
                        self.report(
                            Label::with("driver.network_failed", "error", message.as_str()),
                            true,
                        );
                    },
                    DownloadError::Checksum { expected, actual } => {
                        self.report(
                            Label::with_two(
                                "driver.checksum_failed",
                                "expected",
                                expected.as_str(),
                                "actual",
                                actual.as_str(),
                            ),
                            true,
                        );
                    },
                    DownloadError::Io(message) => {
                        self.report(
                            Label::with("driver.save_failed", "error", message.as_str()),
                            true,
                        );
                    },
                }
                false
            },
        }
    }

    /// Reports the file that came.
    pub fn report_downloaded(&mut self, file_name: &str)
        ensures
            final(self)@ == telling(
                old(self)@,
                with("driver.downloaded", "file", file_name@),
                false,
            ),
    {
        self.report(Label::with("driver.downloaded", "file", file_name), false);
    }

    /// Asks the download in flight to stop.
    pub fn cancel_download(&mut self)
        ensures
            final(self)@ == stopping(old(self)@),
    {
        match &mut self.download {
            Some(download) => {
                download.cancelled = true;
            },
            None => {},
        }
    }

    /// `Escape`, one layer at a time.
    pub fn escape(&mut self) -> (r: ManagerEscape)
        ensures
            (final(self)@, r) == manager_escaped(old(self)@),
    {
        if self.confirming {
            self.confirming = false;
            return ManagerEscape::Layer;
        }
        if self.probe.is_some() {
            self.probe = None;
            return ManagerEscape::Layer;
        }
        if self.download.is_some() {
            self.cancel_download();
            return ManagerEscape::Layer;
        }
        ManagerEscape::Dismissed
    }

    /// Asks for the selected definition's archives to be scanned: they are given
    /// back, unless there are none or a scan is running.
    pub fn detect_class(&mut self) -> (r: Option<Vec<String>>)
        ensures
            ({
                let collected = collecting(old(self)@);
                let jars = match edited_driver(collected) {
                    Some(driver) => driver.jars,
                    None => Seq::empty(),
                };
                if jars.len() == 0 || collected.probe == Some(ProbeText::Running) {
                    r is None && final(self)@ == collected
                } else {
                    r matches Some(list) && texts(list@) == jars && final(self)@ == (ManagerText {
                        status: None,
                        probe: Some(ProbeText::Running),
                        ..collected
                    })
                }
            }),
    {
        self.collect();
        let jars = match self.current() {
            Some(driver) => copy_texts(&driver.jars),
            None => Vec::new(),
        };
        let running = match &self.probe {
            Some(Probe::Running) => true,
            _ => false,
        };
        if jars.len() == 0 || running {
            return None;
        }
        self.status = None;
        self.probe = Some(Probe::Running);
        Some(jars)
    }

    /// Records what a scan found. `recommended` is the class to preselect where
    /// there are several.
    pub fn probed(
        &mut self,
        outcome: Result<DriverProbe, ProbeFailure>,
        recommended: Option<String>,
    )
        ensures
            final(self)@ == after_probe(old(self)@, outcome, maybe_text(recommended)),
    {
        self.probe = None;
        let probe = match outcome {
            Ok(probe) => probe,
            Err(failure) => {
                self.report(probe_message(&failure), true);
                return;
            },
        };
        let candidates = candidates_of(&probe);
        if candidates.len() == 0 {
            self.report(Label::plain("driver.probe_none"), true);
        } else if candidates.len() == 1 {
            let class = candidates[0].clone();
            assert(class@ == offered(probe)[0]);
            self.take_class(class);
        } else {
            self.probe = Some(Probe::Choosing { candidates, recommended });
        }
    }

    /// Writes a class into the field and puts the chooser away.
    pub fn take_class(&mut self, class: String)
        ensures
            final(self)@ == taking_class(old(self)@, class@),
    {
        self.probe = None;
        let label = Label::with("driver.probe_found", "class", class.as_str());
        self.form.class = class;
        self.report(label, false);
    }
}

/// Turning a comment query off leaves its text where it was, and the other query
/// alone.
pub proof fn turning_a_query_off_keeps_its_text(manager: ManagerText, table: bool, enabled: bool)
    requires
        edited_driver(manager) is Some,
    ensures
        ({
            let after = edited_driver(toggled(manager, table, enabled));
            &&& after is Some
            &&& after.unwrap().table_comments_sql == trim(manager.form.table_comments)
            &&& after.unwrap().column_comments_sql == trim(manager.form.column_comments)
            &&& table ==> after.unwrap().use_table_comments == enabled
                && after.unwrap().use_column_comments == edited_driver(
                manager,
            ).unwrap().use_column_comments
            &&& !table ==> after.unwrap().use_column_comments == enabled
                && after.unwrap().use_table_comments == edited_driver(
                manager,
            ).unwrap().use_table_comments
        }),
{
    let id = manager.selected.unwrap();
    let driver = edited_driver(manager).unwrap();
    first_match_is_first(manager.store, has_driver_id(id));
    let changed = driver_from(manager.form, driver);
    put_is_found(manager.store, has_driver_id(id), changed);
    let collected = collecting(manager);
    let switched = if table {
        DriverText { use_table_comments: enabled, ..changed }
    } else {
        DriverText { use_column_comments: enabled, ..changed }
    };
    put_is_found(collected.store, has_driver_id(id), switched);
}

/// Leaving a definition for another keeps what was typed into it.
pub proof fn leaving_a_driver_keeps_its_edits(manager: ManagerText, id: Seq<char>)
    requires
        edited_driver(manager) is Some,
    ensures
        found(selecting(manager, id).store, has_driver_id(manager.selected.unwrap())) == Some(
            driver_from(manager.form, edited_driver(manager).unwrap()),
        ),
{
    let own = manager.selected.unwrap();
    first_match_is_first(manager.store, has_driver_id(own));
    put_is_found(
        manager.store,
        has_driver_id(own),
        driver_from(manager.form, edited_driver(manager).unwrap()),
    );
}

/// Saving keeps what was typed into the selected definition: it is found among
/// the definitions as the fields spell it, whether or not they could be written.
/// The manager closes where they could and no failure stood under the form, and
/// stays where they could not.
pub proof fn saving_keeps_the_edits(manager: ManagerText, error: Option<Seq<char>>)
    ensures
        ({
            let after = after_write(collecting(manager), error);
            &&& edited_driver(manager) matches Some(driver) ==> edited_driver(after) == Some(
                driver_from(manager.form, driver),
            )
            &&& error is Some ==> failure_stands(after)
            &&& error is None ==> failure_stands(after) == failure_stands(manager)
        }),
{
    match edited_driver(manager) {
        Some(driver) => {
            let own = manager.selected.unwrap();
            first_match_is_first(manager.store, has_driver_id(own));
            put_is_found(manager.store, has_driver_id(own), driver_from(manager.form, driver));
        },
        None => {},
    }
}

/// Turning to another definition takes the failure down with it: where the next
/// write succeeds, saving closes the manager.
pub proof fn no_failure_outlives_its_message(manager: ManagerText, id: Seq<char>)
    ensures
        !failure_stands(selecting(manager, id)),
        !failure_stands(after_write(collecting(selecting(manager, id)), None)),
{
}

/// Archives are put behind the ones that are there, in the order they were
/// picked, so that the one that came first keeps its place; and none is put on
/// the class path twice.
pub proof fn archives_keep_their_order(jars: Seq<Seq<char>>, paths: Seq<Seq<char>>)
    ensures
        with_jars(jars, paths).len() >= jars.len(),
        with_jars(jars, paths).take(jars.len() as int) == jars,
        jars.no_duplicates() ==> with_jars(jars, paths).no_duplicates(),
        forall|i: int|
            0 <= i < paths.len() ==> with_jars(jars, paths).contains(#[trigger] paths[i]),
    decreases paths.len(),
{
    if paths.len() == 0 {
        assert(jars.take(jars.len() as int) =~= jars);
    } else {
        let fewer = paths.drop_last();
        archives_keep_their_order(jars, fewer);
        let earlier = with_jars(jars, fewer);
        let all = with_jars(jars, paths);
        assert(all.take(jars.len() as int) =~= earlier.take(jars.len() as int));
        assert forall|i: int| 0 <= i < paths.len() implies all.contains(#[trigger] paths[i]) by {
            if i < fewer.len() {
                assert(fewer[i] == paths[i]);
                let k = choose|k: int| 0 <= k < earlier.len() && earlier[k] == paths[i];
                assert(all[k] == paths[i]);
            } else if !earlier.contains(paths.last()) {
                assert(all.last() == paths[i]);
            }
        }
    }
}

/// Nothing is written into the class field while there is a choice to make, nor
/// where a scan found nothing.
pub proof fn a_scan_guesses_nothing(
    manager: ManagerText,
    outcome: Result<DriverProbe, ProbeFailure>,
    recommended: Option<Seq<char>>,
)
    ensures
        ({
            let after = after_probe(manager, outcome, recommended);
            after.form.class != manager.form.class ==> (outcome matches Ok(probe) && offered(
                probe,
            ).len() == 1 && after.form.class == offered(probe)[0])
        }),
{
}

} // verus!
