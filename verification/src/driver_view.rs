//! What the driver manager shows.

use vstd::prelude::*;

use crate::connection_view::ConfirmRow;
use crate::driver_manager::{edited_driver, DriverManager, ManagerText, Probe, ProbeText};
use crate::profile::{DriverDef, DriverText};
use crate::text::{decimal, decimal_text, maybe_text, same_text, texts};
use crate::view::{
    plain, with, with_two, ButtonVariant, FormButton, Label, LabelText, Toggle, Tone,
};

verus! {

pub const DRIVER_LIST_TAB: usize = 300;

/// Where the rows of the list end, so that a long list cannot run into the form.
pub const DRIVER_LIST_TAB_LIMIT: usize = 399;

pub const DRIVER_NAME_TAB: usize = 400;

pub const CLASS_TAB: usize = 410;

pub const DETECT_TAB: usize = 411;

/// Where the classes that are offered begin.
pub const PROBE_CHOICE_TAB: usize = 412;

/// The place of the ninth class that is offered. Any class after it shares that
/// place.
pub const PROBE_CHOICE_TAB_LIMIT: usize = 420;

pub const URL_TEMPLATE_TAB: usize = 420;

pub const PORT_TAB: usize = 430;

pub const DIALECT_TAB: usize = 440;

pub const MAVEN_TAB: usize = 450;

pub const DOWNLOAD_TAB: usize = 455;

pub const ADD_JAR_TAB: usize = 460;

pub const REMOVE_JAR_TAB: usize = 461;

pub const USE_TABLE_COMMENTS_TAB: usize = 470;

pub const TABLE_COMMENTS_TAB: usize = 471;

pub const USE_COLUMN_COMMENTS_TAB: usize = 472;

pub const COLUMN_COMMENTS_TAB: usize = 473;

pub const NEW_DRIVER_TAB: usize = 500;

pub const DELETE_DRIVER_TAB: usize = 510;

pub const CLOSE_MANAGER_TAB: usize = 520;

pub const SAVE_DRIVERS_TAB: usize = 530;

/// A place in the tab order, `index` behind the first and no further than the
/// last.
pub open spec fn tab_between(first: usize, last: usize, index: int) -> usize {
    if first + index < last {
        (first + index) as usize
    } else {
        last
    }
}

fn tab_at(first: usize, last: usize, index: usize) -> (r: usize)
    requires
        first <= last,
    ensures
        r == tab_between(first, last, index as int),
{
    if index < last - first {
        first + index
    } else {
        last
    }
}

/// A row of the list.
#[derive(Debug)]
pub struct DriverRow {
    pub id: String,
    pub name: String,
    /// How many archives it has, or that it has none.
    pub subtitle: Label,
    pub tone: Tone,
    pub selected: bool,
    pub tab: usize,
}

/// A row of the list.
pub ghost struct DriverRowText {
    pub id: Seq<char>,
    pub name: Seq<char>,
    pub subtitle: LabelText,
    pub tone: Tone,
    pub selected: bool,
    pub tab: usize,
}

impl View for DriverRow {
    type V = DriverRowText;

    open spec fn view(&self) -> DriverRowText {
        DriverRowText {
            id: self.id@,
            name: self.name@,
            subtitle: self.subtitle@,
            tone: self.tone,
            selected: self.selected,
            tab: self.tab,
        }
    }
}

/// The row of a definition: one without a name goes by its id, and one without an
/// archive is marked.
pub open spec fn driver_row(
    driver: DriverText,
    selected: Option<Seq<char>>,
    index: int,
) -> DriverRowText {
    DriverRowText {
        id: driver.id,
        name: if driver.name.len() == 0 {
            driver.id
        } else {
            driver.name
        },
        subtitle: if driver.jars.len() == 0 {
            plain("driver.no_jar")
        } else {
            with("driver.jar_count", "count", decimal(driver.jars.len()))
        },
        tone: if driver.jars.len() == 0 {
            Tone::Danger
        } else {
            Tone::Muted
        },
        selected: selected == Some(driver.id),
        tab: tab_between(DRIVER_LIST_TAB, DRIVER_LIST_TAB_LIMIT, index),
    }
}

/// A class that is offered.
#[derive(Debug)]
pub struct ChoiceRow {
    pub class: String,
    /// Whether it is the one that is recommended.
    pub preferred: bool,
    pub tab: usize,
}

/// A class that is offered.
pub ghost struct ChoiceText {
    pub class: Seq<char>,
    pub preferred: bool,
    pub tab: usize,
}

impl View for ChoiceRow {
    type V = ChoiceText;

    open spec fn view(&self) -> ChoiceText {
        ChoiceText { class: self.class@, preferred: self.preferred, tab: self.tab }
    }
}

/// The row of a class that is offered.
pub open spec fn choice_row(
    class: Seq<char>,
    recommended: Option<Seq<char>>,
    index: int,
) -> ChoiceText {
    ChoiceText {
        class,
        preferred: recommended == Some(class),
        tab: tab_between(PROBE_CHOICE_TAB, PROBE_CHOICE_TAB_LIMIT, index),
    }
}

/// The class of the driver, the button that finds it, and what the last scan had
/// to say.
#[derive(Debug)]
pub struct ClassSection {
    pub detect: FormButton,
    /// Whether a scan is running.
    pub detecting: bool,
    /// The classes to choose from, where there are several.
    pub choices: Option<Vec<ChoiceRow>>,
}

/// The button that finds the class: held while there is no archive to look in,
/// and while a scan is running.
pub open spec fn detect_button(manager: ManagerText) -> FormButton {
    FormButton {
        id: "driver-detect",
        label: "driver.detect",
        variant: ButtonVariant::Secondary,
        enabled: match edited_driver(manager) {
            Some(driver) => driver.jars.len() > 0 && manager.probe != Some(ProbeText::Running),
            None => false,
        },
        tab: Some(DETECT_TAB),
    }
}

/// An archive on the class path.
#[derive(Debug)]
pub struct JarRow {
    pub path: String,
    /// Whether it is not there any more.
    pub missing: bool,
    /// Where the button that takes it off stands in the tab order.
    pub tab: usize,
}

/// An archive on the class path.
pub ghost struct JarText {
    pub path: Seq<char>,
    pub missing: bool,
    pub tab: usize,
}

impl View for JarRow {
    type V = JarText;

    open spec fn view(&self) -> JarText {
        JarText { path: self.path@, missing: self.missing, tab: self.tab }
    }
}

/// The rows of the class path.
pub open spec fn jar_rows(jars: Seq<Seq<char>>, present: Seq<bool>) -> Seq<JarText> {
    Seq::new(
        jars.len(),
        |k: int|
            JarText {
                path: jars[k],
                missing: !present[k],
                tab: tab_between(REMOVE_JAR_TAB, usize::MAX, k),
            },
    )
}

/// The archives of the selected definition.
pub open spec fn jars_shown(manager: ManagerText) -> Seq<Seq<char>> {
    match edited_driver(manager) {
        Some(driver) => driver.jars,
        None => Seq::empty(),
    }
}

/// What stands under the form.
#[derive(Debug)]
pub struct ManagerFooter {
    pub status: Option<(Tone, Label)>,
    pub confirm: Option<ConfirmRow>,
    pub buttons: Vec<FormButton>,
}

/// The question about deleting the selected definition.
pub open spec fn delete_question(manager: ManagerText) -> LabelText {
    with(
        "driver.delete_confirm",
        "name",
        match edited_driver(manager) {
            Some(driver) => driver.name,
            None => Seq::empty(),
        },
    )
}

/// The buttons under the form.
pub open spec fn manager_buttons(manager: ManagerText) -> Seq<FormButton> {
    seq![
        FormButton {
            id: "driver-new",
            label: "driver.new",
            variant: ButtonVariant::Secondary,
            enabled: true,
            tab: Some(NEW_DRIVER_TAB),
        },
        FormButton {
            id: "driver-delete",
            label: "driver.delete",
            variant: ButtonVariant::Secondary,
            enabled: manager.selected is Some && !manager.confirming,
            tab: Some(DELETE_DRIVER_TAB),
        },
        FormButton {
            id: "driver-close",
            label: "common.close",
            variant: ButtonVariant::Secondary,
            enabled: true,
            tab: Some(CLOSE_MANAGER_TAB),
        },
        FormButton {
            id: "driver-save",
            label: "common.save",
            variant: ButtonVariant::Primary,
            enabled: true,
            tab: Some(SAVE_DRIVERS_TAB),
        },
    ]
}

/// Whether a footer is the one of the manager.
pub open spec fn is_manager_footer(footer: ManagerFooter, manager: ManagerText) -> bool {
    &&& match (footer.status, manager.status) {
        (Some(shown), Some(status)) => shown.1@ == status && shown.0 == (
        if manager.status_is_error {
            Tone::Danger
        } else {
            Tone::Success
        }),
        (None, None) => true,
        _ => false,
    }
    &&& match footer.confirm {
        Some(row) => manager.confirming && row.question@ == delete_question(manager) && row.cancel
            == (FormButton {
            id: "driver-delete-cancel",
            label: "common.cancel",
            variant: ButtonVariant::Secondary,
            enabled: true,
            tab: None,
        }) && row.delete == (FormButton {
            id: "driver-delete-confirm",
            label: "driver.delete",
            variant: ButtonVariant::Danger,
            enabled: true,
            tab: None,
        }),
        None => !manager.confirming,
    }
    &&& footer.buttons@ == manager_buttons(manager)
}

/// The coordinate's part of the form.
#[derive(Debug)]
pub struct MavenSection {
    pub download: FormButton,
    /// What is said of a fetch in flight, and the button that stops it.
    pub progress: Option<(Label, FormButton)>,
}

/// What is said of a fetch in flight: how far it has come, where that is known.
pub open spec fn progress_label(file_name: Seq<char>, percent: Option<u32>) -> LabelText {
    match percent {
        Some(percent) => with_two(
            "driver.downloading_percent",
            "file",
            file_name,
            "percent",
            decimal(percent as nat),
        ),
        None => with("driver.downloading", "file", file_name),
    }
}

/// A comment query's part of the form.
#[derive(Clone, Copy, Debug, PartialEq, Eq)]
pub struct CommentSection {
    pub toggle: Toggle,
    pub hint: &'static str,
}

impl DriverManager {
    /// The list of definitions.
    pub fn list(&self) -> (r: Vec<DriverRow>)
        ensures
            r@.map_values(|row: DriverRow| row@) == Seq::new(
                self@.store.len(),
                |k: int| driver_row(self@.store[k], self@.selected, k),
            ),
    {
        let mut rows: Vec<DriverRow> = Vec::new();
        let mut i: usize = 0;
        while i < self.store.drivers.len()
            invariant
                i <= self.store.drivers@.len(),
                rows@.len() == i,
                forall|k: int|
                    0 <= k < i ==> (#[trigger] rows@[k])@ == driver_row(
                        self@.store[k],
                        self@.selected,
                        k,
                    ),
            decreases self.store.drivers.len() - i,
        {
            let driver: &DriverDef = &self.store.drivers[i];
            assert(self@.store[i as int] == driver@);
            let bare = driver.jars.len() == 0;
            let selected = match &self.selected {
                Some(id) => same_text(id.as_str(), driver.id.as_str()),
                None => false,
            };
            rows.push(
                DriverRow {
                    id: driver.id.clone(),
                    name: if driver.name.as_str().unicode_len() == 0 {
                        driver.id.clone()
                    } else {
                        driver.name.clone()
                    },
                    subtitle: if bare {
                        Label::plain("driver.no_jar")
                    } else {
                        let count = decimal_text(driver.jars.len() as u64);
                        Label::with("driver.jar_count", "count", count.as_str())
                    },
                    tone: if bare {
                        Tone::Danger
                    } else {
                        Tone::Muted
                    },
                    selected,
                    tab: tab_at(DRIVER_LIST_TAB, DRIVER_LIST_TAB_LIMIT, i),
                },
            );
            i = i + 1;
        }
        assert(rows@.map_values(|row: DriverRow| row@) =~= Seq::new(
            self@.store.len(),
            |k: int| driver_row(self@.store[k], self@.selected, k),
        ));
        rows
    }

    /// The class of the driver, the button that finds it, and what the last scan
    /// had to say.
    pub fn class_section(&self) -> (r: ClassSection)
        ensures
            r.detect == detect_button(self@),
            r.detecting == (self@.probe == Some(ProbeText::Running)),
            match self@.probe {
                Some(ProbeText::Choosing(candidates, recommended)) => {
                    r.choices matches Some(rows) && rows@.map_values(|row: ChoiceRow| row@)
                        == Seq::new(
                        candidates.len(),
                        |k: int| choice_row(candidates[k], recommended, k),
                    )
                },
                _ => r.choices is None,
            },
    {
        let has_jars = match self.current() {
            Some(driver) => driver.jars.len() > 0,
            None => false,
        };
        let detecting = match &self.probe {
            Some(Probe::Running) => true,
            _ => false,
        };
        let choices = match &self.probe {
            Some(Probe::Choosing { candidates, recommended }) => {
                let ghost all = texts(candidates@);
                let ghost preferred = maybe_text(*recommended);
                let mut rows: Vec<ChoiceRow> = Vec::new();
                let mut i: usize = 0;
                while i < candidates.len()
                    invariant
                        i <= candidates@.len(),
                        all == texts(candidates@),
                        preferred == maybe_text(*recommended),
                        rows@.len() == i,
                        forall|k: int|
                            0 <= k < i ==> (#[trigger] rows@[k])@ == choice_row(
                                all[k],
                                preferred,
                                k,
                            ),
                    decreases candidates.len() - i,
                {
                    assert(all[i as int] == candidates@[i as int]@);
                    let chosen = match recommended {
                        Some(class) => same_text(class.as_str(), candidates[i].as_str()),
                        None => false,
                    };
                    rows.push(
                        ChoiceRow {
                            class: candidates[i].clone(),
                            preferred: chosen,
                            tab: tab_at(PROBE_CHOICE_TAB, PROBE_CHOICE_TAB_LIMIT, i),
                        },
                    );
                    i = i + 1;
                }
                assert(rows@.map_values(|row: ChoiceRow| row@) =~= Seq::new(
                    all.len(),
                    |k: int| choice_row(all[k], preferred, k),
                ));
                Some(rows)
            },
            _ => None,
        };
        ClassSection {
            detect: FormButton {
                id: "driver-detect",
                label: "driver.detect",
                variant: ButtonVariant::Secondary,
                enabled: has_jars && !detecting,
                tab: Some(DETECT_TAB),
            },
            detecting,
            choices,
        }
    }

    /// The class path, an archive to a row. `present` says of each whether it is
    /// still there.
    pub fn jars_section(&self, present: &Vec<bool>) -> (r: Vec<JarRow>)
        requires
            present@.len() == jars_shown(self@).len(),
        ensures
            r@.map_values(|row: JarRow| row@) == jar_rows(jars_shown(self@), present@),
    {
        let mut rows: Vec<JarRow> = Vec::new();
        match self.current() {
            Some(driver) => {
                let ghost all = texts(driver.jars@);
                let mut i: usize = 0;
                while i < driver.jars.len()
                    invariant
                        i <= driver.jars@.len(),
                        all == texts(driver.jars@),
                        present@.len() == all.len(),
                        rows@.len() == i,
                        forall|k: int|
                            0 <= k < i ==> (#[trigger] rows@[k])@ == jar_rows(all, present@)[k],
                    decreases driver.jars.len() - i,
                {
                    rows.push(
                        JarRow {
                            path: driver.jars[i].clone(),
                            missing: !present[i],
                            tab: tab_at(REMOVE_JAR_TAB, usize::MAX, i),
                        },
                    );
                    i = i + 1;
                }
                assert(rows@.map_values(|row: JarRow| row@) =~= jar_rows(all, present@));
            },
            None => {
                assert(rows@.map_values(|row: JarRow| row@) =~= jar_rows(
                    jars_shown(self@),
                    present@,
                ));
            },
        }
        rows
    }

    /// The button that fetches the coordinate, and what is said of a fetch in
    /// flight. `percent` is how far it has come, where that is known.
    pub fn maven_section(&self, percent: Option<u32>) -> (r: MavenSection)
        ensures
            r.download == (FormButton {
                id: "driver-download",
                label: "driver.download",
                variant: ButtonVariant::Secondary,
                enabled: self@.download is None,
                tab: Some(DOWNLOAD_TAB),
            }),
            match self@.download {
                Some(download) => {
                    r.progress matches Some(shown) && shown.0@ == progress_label(
                        download.file_name@,
                        percent,
                    ) && shown.1 == (FormButton {
                        id: "driver-cancel-download",
                        label: "common.cancel",
                        variant: ButtonVariant::Secondary,
                        enabled: true,
                        tab: None,
                    })
                },
                None => r.progress is None,
            },
    {
        let progress = match &self.download {
            Some(download) => {
                let label = match percent {
                    Some(percent) => {
                        let shown = decimal_text(percent as u64);
                        Label::with_two(
                            "driver.downloading_percent",
                            "file",
                            download.file_name.as_str(),
                            "percent",
                            shown.as_str(),
                        )
                    },
                    None => Label::with("driver.downloading", "file", download.file_name.as_str()),
                };
                Some(
                    (
                        label,
                        FormButton {
                            id: "driver-cancel-download",
                            label: "common.cancel",
                            variant: ButtonVariant::Secondary,
                            enabled: true,
                            tab: None,
                        },
                    ),
                )
            },
            None => None,
        };
        MavenSection {
            download: FormButton {
                id: "driver-download",
                label: "driver.download",
                variant: ButtonVariant::Secondary,
                enabled: self.download.is_none(),
                tab: Some(DOWNLOAD_TAB),
            },
            progress,
        }
    }

    /// A comment query: the box that switches it on, and what the statement has to
    /// keep to.
    pub fn comment_section(&self, table: bool) -> (r: CommentSection)
        ensures
            r == (if table {
                CommentSection {
                    toggle: Toggle {
                        id: "driver-use-table-comments",
                        label: "driver.use_table_comments",
                        checked: match edited_driver(self@) {
                            Some(driver) => driver.use_table_comments,
                            None => false,
                        },
                        tab: USE_TABLE_COMMENTS_TAB,
                    },
                    hint: "driver.table_comments_hint",
                }
            } else {
                CommentSection {
                    toggle: Toggle {
                        id: "driver-use-column-comments",
                        label: "driver.use_column_comments",
                        checked: match edited_driver(self@) {
                            Some(driver) => driver.use_column_comments,
                            None => false,
                        },
                        tab: USE_COLUMN_COMMENTS_TAB,
                    },
                    hint: "driver.column_comments_hint",
                }
            }),
    {
        let (tables, columns) = match self.current() {
            Some(driver) => (driver.use_table_comments, driver.use_column_comments),
            None => (false, false),
        };
        if table {
            CommentSection {
                toggle: Toggle {
                    id: "driver-use-table-comments",
                    label: "driver.use_table_comments",
                    checked: tables,
                    tab: USE_TABLE_COMMENTS_TAB,
                },
                hint: "driver.table_comments_hint",
            }
        } else {
            CommentSection {
                toggle: Toggle {
                    id: "driver-use-column-comments",
                    label: "driver.use_column_comments",
                    checked: columns,
                    tab: USE_COLUMN_COMMENTS_TAB,
                },
                hint: "driver.column_comments_hint",
            }
        }
    }

    /// The message strip and the buttons.
    pub fn footer(&self) -> (r: ManagerFooter)
        ensures
            is_manager_footer(r, self@),
    {
        let status = match &self.status {
            Some(message) => Some(
                (
                    if self.status_is_error {
                        Tone::Danger
                    } else {
                        Tone::Success
                    },
                    message.copy(),
                ),
            ),
            None => None,
        };
        let confirm = if self.confirming {
            let name = match self.current() {
                Some(driver) => driver.name.clone(),
                None => String::new(),
            };
            let question = Label::with("driver.delete_confirm", "name", name.as_str());
            assert(question@ =~= delete_question(self@));
            Some(
                ConfirmRow {
                    question,
                    cancel: FormButton {
                        id: "driver-delete-cancel",
                        label: "common.cancel",
                        variant: ButtonVariant::Secondary,
                        enabled: true,
                        tab: None,
                    },
                    delete: FormButton {
                        id: "driver-delete-confirm",
                        label: "driver.delete",
                        variant: ButtonVariant::Danger,
                        enabled: true,
                        tab: None,
                    },
                },
            )
        } else {
            None
        };
        ManagerFooter { status, confirm, buttons: self.footer_buttons() }
    }

    fn footer_buttons(&self) -> (r: Vec<FormButton>)
        ensures
            r@ == manager_buttons(self@),
    {
        let mut buttons: Vec<FormButton> = Vec::new();
        buttons.push(
            FormButton {
                id: "driver-new",
                label: "driver.new",
                variant: ButtonVariant::Secondary,
                enabled: true,
                tab: Some(NEW_DRIVER_TAB),
            },
        );
        buttons.push(
            FormButton {
                id: "driver-delete",
                label: "driver.delete",
                variant: ButtonVariant::Secondary,
                enabled: self.selected.is_some() && !self.confirming,
                tab: Some(DELETE_DRIVER_TAB),
            },
        );
        buttons.push(
            FormButton {
                id: "driver-close",
                label: "common.close",
                variant: ButtonVariant::Secondary,
                enabled: true,
                tab: Some(CLOSE_MANAGER_TAB),
            },
        );
        buttons.push(
            FormButton {
                id: "driver-save",
                label: "common.save",
                variant: ButtonVariant::Primary,
                enabled: true,
                tab: Some(SAVE_DRIVERS_TAB),
            },
        );
        assert(buttons@ =~= manager_buttons(self@));
        buttons
    }

    /// What stands in place of the form while no definition is selected.
    pub fn details_placeholder(&self) -> (r: Option<&'static str>)
        ensures
            r == (if self@.selected is None {
                Some("driver.none_selected")
            } else {
                None
            }),
    {
        if self.selected.is_none() {
            Some("driver.none_selected")
        } else {
            None
        }
    }

    /// What the dialog is headed with while the manager stands in it.
    pub fn title(&self) -> (r: &'static str)
        ensures
            r == "driver.title",
    {
        "driver.title"
    }
}

} // verus!
