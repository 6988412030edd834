//! The backup dialog: one schema, out to a script file that can be replayed.
//!
//! It collects where the file goes, whether it is compressed, and which of the
//! schema and the rows go into it; then it turns into a card that says how far
//! the job has come. The job itself is run by whoever draws the dialog.

use vstd::prelude::*;

use crate::erd_pane::{copy_part, qualified_scope, Scope};
use crate::text::{
    as_text, blank, decimal, decimal_text, is_blank, join, joined, maybe_text, number_reads_back,
    parse_number, parsed, texts, trim, trimmed,
};
use crate::view::{
    filled, with, with_three, with_two, ButtonVariant, Caption, CaptionText, FormButton, Label, Toggle,
    Tone,
};

verus! {

/// Rows one `INSERT` carries where the field is empty or cannot be read.
pub const DEFAULT_BATCH_ROWS: u32 = 1;

pub const OUTPUT_TAB: usize = 10;

pub const COMPRESS_TAB: usize = 11;

pub const DDL_TAB: usize = 20;

pub const DROP_TAB: usize = 21;

pub const DATA_TAB: usize = 30;

pub const BATCH_ROWS_TAB: usize = 31;

pub const START_TAB: usize = 50;

pub const DISMISS_TAB: usize = 51;

/// Everything the form collects, apart from the scope it was opened over.
#[derive(Debug)]
pub struct BackupForm {
    /// Where the script goes.
    pub output: Option<String>,
    /// Whether the file is wrapped in gzip.
    pub compress: bool,
    /// Whether the schema is written.
    pub ddl: bool,
    /// Whether `DROP` statements precede the `CREATE`s.
    pub include_drop: bool,
    /// Whether the rows are written.
    pub data: bool,
    /// How many rows one `INSERT` carries.
    pub batch_rows: u32,
}

/// What the dialog opens with: an uncompressed script with the schema and the
/// rows in it, one `INSERT` per row, and no file chosen yet.
pub open spec fn fresh_backup() -> BackupForm {
    BackupForm {
        output: None,
        compress: false,
        ddl: true,
        include_drop: false,
        data: true,
        batch_rows: DEFAULT_BATCH_ROWS,
    }
}

impl Default for BackupForm {
    fn default() -> (r: Self)
        ensures
            r == fresh_backup(),
    {
        BackupForm {
            output: None,
            compress: false,
            ddl: true,
            include_drop: false,
            data: true,
            batch_rows: DEFAULT_BATCH_ROWS,
        }
    }
}

/// How the file is wrapped.
#[derive(Clone, Copy, Debug, PartialEq, Eq, Structural)]
pub enum Compression {
    /// Not at all.
    Plain,
    Gzip,
}

/// Where the foreign keys stand.
#[derive(Clone, Copy, Debug, PartialEq, Eq, Structural)]
pub enum Constraints {
    /// Behind the `CREATE`s, as an `ALTER` each.
    Alter,
}

/// How the schema is written.
#[derive(Clone, Copy, Debug, PartialEq, Eq, Structural)]
pub struct DdlOptions {
    pub include_drop: bool,
    pub constraints: Constraints,
}

/// How the rows are written.
#[derive(Clone, Copy, Debug, PartialEq, Eq, Structural)]
pub struct BackupDataOptions {
    pub insert_batch_rows: u32,
}

/// What a job is started with.
#[derive(Debug)]
pub struct BackupSpec {
    pub path: String,
    pub catalog: Option<String>,
    pub schema: Option<String>,
    pub compress: Compression,
    /// How the schema is written, where it is.
    pub ddl: Option<DdlOptions>,
    /// How the rows are written, where they are.
    pub data: Option<BackupDataOptions>,
}

/// A name that says something.
pub open spec fn named(part: Option<String>) -> Option<String> {
    match part {
        Some(text) => if is_blank(text@) {
            None
        } else {
            Some(text)
        },
        None => None,
    }
}

fn non_empty(part: &Option<String>) -> (r: Option<String>)
    ensures
        r == named(*part),
{
    match part {
        Some(text) => if blank(text.as_str()) {
            None
        } else {
            Some(text.clone())
        },
        None => None,
    }
}

/// What a form asks for: nothing while there is no file, or where neither the
/// schema nor the rows are to be written. The foreign keys always stand behind
/// the `CREATE`s, for two tables may refer to each other.
pub open spec fn spec_for(scope: Scope, form: BackupForm) -> Option<BackupSpec> {
    match form.output {
        None => None,
        Some(path) => if !form.ddl && !form.data {
            None
        } else {
            Some(
                BackupSpec {
                    path,
                    catalog: named(scope.catalog),
                    schema: named(scope.schema),
                    compress: if form.compress {
                        Compression::Gzip
                    } else {
                        Compression::Plain
                    },
                    ddl: if form.ddl {
                        Some(
                            DdlOptions {
                                include_drop: form.include_drop,
                                constraints: Constraints::Alter,
                            },
                        )
                    } else {
                        None
                    },
                    data: if form.data {
                        Some(
                            BackupDataOptions {
                                insert_batch_rows: if form.batch_rows < 1 {
                                    1
                                } else {
                                    form.batch_rows
                                },
                            },
                        )
                    } else {
                        None
                    },
                },
            )
        },
    }
}

/// What a form asks for, or nothing while it is not ready to be sent.
pub fn build_spec(scope: &Scope, form: &BackupForm) -> (r: Option<BackupSpec>)
    ensures
        r == spec_for(*scope, *form),
{
    let path = match &form.output {
        Some(path) => path.clone(),
        None => {
            return None;
        },
    };
    if !form.ddl && !form.data {
        return None;
    }
    Some(
        BackupSpec {
            path,
            catalog: non_empty(&scope.catalog),
            schema: non_empty(&scope.schema),
            compress: if form.compress {
                Compression::Gzip
            } else {
                Compression::Plain
            },
            ddl: if form.ddl {
                Some(
                    DdlOptions {
                        include_drop: form.include_drop,
                        constraints: Constraints::Alter,
                    },
                )
            } else {
                None
            },
            data: if form.data {
                Some(
                    BackupDataOptions {
                        insert_batch_rows: if form.batch_rows < 1 {
                            1
                        } else {
                            form.batch_rows
                        },
                    },
                )
            } else {
                None
            },
        },
    )
}

/// A part of a scope's name, as a list of what it says.
pub open spec fn said(part: Option<Seq<char>>) -> Seq<Seq<char>> {
    match part {
        Some(text) => if is_blank(text) {
            Seq::empty()
        } else {
            seq![text]
        },
        None => Seq::empty(),
    }
}

/// The scope as a title reads it: `catalog.schema`, or whichever half there is.
pub open spec fn scope_name(scope: Scope) -> Seq<char> {
    join(said(maybe_text(scope.catalog)) + said(maybe_text(scope.schema)), "."@)
}

fn push_said(parts: &mut Vec<String>, part: &Option<String>)
    ensures
        texts(final(parts)@) == texts(old(parts)@) + said(maybe_text(*part)),
{
    let ghost before = texts(parts@);
    match as_text(part) {
        Some(text) => {
            if !blank(text) {
                parts.push(text.to_owned());
            }
        },
        None => {},
    }
    assert(texts(parts@) =~= before + said(maybe_text(*part)));
}

/// The scope as a title reads it.
pub fn qualified(scope: &Scope) -> (r: String)
    ensures
        r@ == scope_name(*scope),
{
    let mut parts: Vec<String> = Vec::new();
    push_said(&mut parts, &scope.catalog);
    push_said(&mut parts, &scope.schema);
    assert(texts(parts@) =~= said(maybe_text(scope.catalog)) + said(maybe_text(scope.schema)));
    joined(&parts, ".")
}

/// A scope has one name: the dialog and the diagram say the same of it, a blank
/// half being left out by both.
pub proof fn a_scope_has_one_name(scope: Scope)
    ensures
        scope_name(scope) == qualified_scope(scope),
{
}

/// How far a job has come.
#[derive(Clone, Copy, Debug, PartialEq, Eq, Structural)]
pub enum JobState {
    Running,
    Done,
    Failed,
    Cancelled,
}

/// One reading of a job.
#[derive(Debug)]
pub struct JobProgress {
    pub state: JobState,
    /// What the job says it is doing.
    pub phase: String,
    pub rows_done: u64,
    pub bytes: u64,
    /// What each failure said, the first one first.
    pub errors: Vec<String>,
}

/// How a job ended.
#[derive(Debug)]
pub enum Ended {
    /// Everything asked for was written.
    Done { rows: u64, bytes: u64 },
    /// The job failed.
    Failed(Caption),
    /// The job was cancelled. What it had written stays where it is.
    Cancelled,
}

/// Which half of the dialog is on screen.
#[derive(Debug)]
pub enum Stage {
    /// Collecting the form.
    Form,
    /// A job is running, as the last reading had it.
    Running {
        phase: String,
        rows_done: u64,
        bytes: u64,
        /// Whether it has been asked to stop and has not stopped yet.
        cancelling: bool,
    },
    /// The job ended.
    Ended(Ended),
}

/// What the dialog reports.
#[derive(Clone, Copy, Debug, PartialEq, Eq, Structural)]
pub enum BackupDialogEvent {
    /// It was dismissed.
    Dismissed,
}

/// The backup dialog.
#[derive(Debug)]
pub struct BackupDialog {
    pub open: bool,
    pub pending_focus: bool,
    /// The scope it was opened over.
    pub scope: Option<Scope>,
    /// Whether it holds on to a session.
    pub attached: bool,
    pub output: Option<String>,
    pub compress: bool,
    pub ddl: bool,
    pub include_drop: bool,
    pub data: bool,
    /// Rows per `INSERT`, as it is typed.
    pub batch: String,
    pub stage: Stage,
    /// A refusal to show under the form.
    pub notice: Option<String>,
    /// Whether a job is being started, or looked after.
    pub polling: bool,
}

/// The number of rows a field spells.
pub open spec fn batch_of(field: Seq<char>) -> u32 {
    match parsed(trim(field), u32::MAX as nat) {
        Some(rows) => rows as u32,
        None => DEFAULT_BATCH_ROWS,
    }
}

/// The form, as a value.
pub open spec fn form_of(dialog: BackupDialog) -> BackupForm {
    BackupForm {
        output: dialog.output,
        compress: dialog.compress,
        ddl: dialog.ddl,
        include_drop: dialog.include_drop,
        data: dialog.data,
        batch_rows: batch_of(dialog.batch@),
    }
}

/// What the dialog asks for.
pub open spec fn asked(dialog: BackupDialog) -> Option<BackupSpec> {
    match dialog.scope {
        Some(scope) => spec_for(scope, form_of(dialog)),
        None => None,
    }
}

/// The dialog once it is closed: a job still running is let go of.
pub open spec fn closed(dialog: BackupDialog) -> BackupDialog {
    BackupDialog {
        open: false,
        pending_focus: false,
        stage: Stage::Form,
        polling: false,
        attached: false,
        scope: None,
        notice: None,
        ..dialog
    }
}

/// What a failure is reported as: the first error's words, or that there were
/// none.
pub open spec fn failure_text(errors: Seq<String>) -> CaptionText {
    if errors.len() > 0 {
        CaptionText::Text(errors[0]@)
    } else {
        CaptionText::Key("backup.failed_unknown")
    }
}

/// What `Escape` means.
#[derive(Clone, Copy, Debug, PartialEq, Eq, Structural)]
pub enum BackupEscape {
    /// The job is to be asked to stop.
    Cancel,
    /// Nothing: it has been asked already.
    Wait,
    /// The dialog is dismissed.
    Dismissed,
}

/// Whether a stage is that of a job.
pub open spec fn is_running(stage: Stage) -> bool {
    stage is Running
}

/// The stage of a job that has been asked to stop.
pub open spec fn stopping(stage: Stage) -> Stage {
    match stage {
        Stage::Running { phase, rows_done, bytes, .. } => Stage::Running {
            phase,
            rows_done,
            bytes,
            cancelling: true,
        },
        other => other,
    }
}

/// Whether a job has been asked to stop.
pub open spec fn is_stopping(stage: Stage) -> bool {
    match stage {
        Stage::Running { cancelling, .. } => cancelling,
        _ => false,
    }
}

/// Whether a stage is the one a job ends in.
pub open spec fn ends_as(stage: Stage, progress: JobProgress) -> bool {
    match progress.state {
        JobState::Done => stage == Stage::Ended(
            Ended::Done { rows: progress.rows_done, bytes: progress.bytes },
        ),
        JobState::Cancelled => stage == Stage::Ended(Ended::Cancelled),
        _ => stage matches Stage::Ended(Ended::Failed(message)) && message@ == failure_text(
            progress.errors@,
        ),
    }
}

impl BackupDialog {
    /// Builds the dialog, closed.
    pub fn new() -> (r: Self)
        ensures
            r.open == false,
            r.pending_focus == false,
            r.scope is None,
            r.attached == false,
            r.output is None,
            r.compress == false,
            r.ddl,
            r.include_drop == false,
            r.data,
            r.batch@ == Seq::<char>::empty(),
            r.stage == Stage::Form,
            r.notice is None,
            r.polling == false,
    {
        BackupDialog {
            open: false,
            pending_focus: false,
            scope: None,
            attached: false,
            output: None,
            compress: false,
            ddl: true,
            include_drop: false,
            data: true,
            batch: String::new(),
            stage: Stage::Form,
            notice: None,
            polling: false,
        }
    }

    /// Shows the dialog over a scope. The form starts from its defaults every
    /// time: above all, the path of the last backup is not taken over.
    pub fn open(&mut self, scope: Scope)
        ensures
            final(self).scope == Some(scope),
            final(self).attached,
            form_of(*final(self)) == fresh_backup(),
            final(self).batch@ == "1"@,
            final(self).stage == Stage::Form,
            final(self).notice is None,
            !final(self).polling,
            final(self).open,
            final(self).pending_focus,
    {
        let defaults = BackupForm::default();
        self.scope = Some(scope);
        self.attached = true;
        self.output = defaults.output;
        self.compress = defaults.compress;
        self.ddl = defaults.ddl;
        self.include_drop = defaults.include_drop;
        self.data = defaults.data;
        self.batch = "1".to_owned();
        self.stage = Stage::Form;
        self.notice = None;
        self.polling = false;
        self.open = true;
        self.pending_focus = true;
        proof {
            reveal_strlit("1");
            assert("1"@ =~= decimal(1));
            number_reads_back(1, u32::MAX as nat);
            assert(trim("1"@) =~= "1"@);
        }
    }

    /// Whether the dialog is visible.
    pub fn is_open(&self) -> (r: bool)
        ensures
            r == self.open,
    {
        self.open
    }

    /// Hides the dialog. A job still running is cancelled with it, and what it had
    /// written stays where it is.
    pub fn close(&mut self)
        ensures
            *final(self) == closed(*old(self)),
    {
        self.open = false;
        self.pending_focus = false;
        self.stage = Stage::Form;
        self.polling = false;
        self.attached = false;
        self.scope = None;
        self.notice = None;
    }

    /// Closes the dialog and reports it, so that the focus can be put back.
    pub fn dismiss(&mut self) -> (r: BackupDialogEvent)
        ensures
            r == BackupDialogEvent::Dismissed,
            *final(self) == closed(*old(self)),
    {
        self.close();
        BackupDialogEvent::Dismissed
    }

    /// What `Escape` means here: over a running job it is the cancel button, and
    /// not a close.
    pub fn escape(&mut self) -> (r: BackupEscape)
        ensures
            is_running(old(self).stage) ==> {
                &&& r == (if is_stopping(old(self).stage) {
                    BackupEscape::Wait
                } else {
                    BackupEscape::Cancel
                })
                &&& *final(self) == (BackupDialog {
                    stage: stopping(old(self).stage),
                    ..*old(self)
                })
            },
            !is_running(old(self).stage) ==> r == BackupEscape::Dismissed && *final(self) == closed(
                *old(self),
            ),
    {
        let running = match &self.stage {
            Stage::Running { .. } => true,
            _ => false,
        };
        if running {
            if self.request_cancel() {
                return BackupEscape::Cancel;
            }
            return BackupEscape::Wait;
        }
        self.close();
        BackupEscape::Dismissed
    }

    /// The form, as a value.
    pub fn form(&self) -> (r: BackupForm)
        ensures
            r == form_of(*self),
    {
        let batch_rows: u32 = match parse_number(trimmed(self.batch.as_str()), u32::MAX as u64) {
            Some(rows) => rows as u32,
            None => DEFAULT_BATCH_ROWS,
        };
        BackupForm {
            output: copy_part(&self.output),
            compress: self.compress,
            ddl: self.ddl,
            include_drop: self.include_drop,
            data: self.data,
            batch_rows,
        }
    }

    /// What the dialog asks for, or nothing while the form is not complete.
    pub fn spec(&self) -> (r: Option<BackupSpec>)
        ensures
            r == asked(*self),
    {
        match &self.scope {
            Some(scope) => {
                let form = self.form();
                build_spec(scope, &form)
            },
            None => None,
        }
    }

    /// The file name that is suggested: the scope's own, with the extension that
    /// the chosen compression actually writes.
    pub fn suggested_name(&self) -> (r: String)
        ensures
            r@ == suggestion(self.scope, self.compress),
    {
        let mut name = match &self.scope {
            Some(scope) => qualified(scope),
            None => String::new(),
        };
        if name.as_str().unicode_len() == 0 {
            name = "database".to_owned();
        }
        name.append("-backup.");
        if self.compress {
            name.append("sql.gz");
        } else {
            name.append("sql");
        }
        name
    }

    /// Takes note of where the script goes.
    pub fn picked(&mut self, path: String)
        ensures
            *final(self) == (BackupDialog { output: Some(path), notice: None, ..*old(self) }),
    {
        self.output = Some(path);
        self.notice = None;
    }

    /// Asks for the job the form describes to be started, where the form is
    /// complete and no job is there.
    pub fn start(&mut self) -> (r: Option<BackupSpec>)
        ensures
            r == (if old(self).stage == Stage::Form && old(self).attached {
                asked(*old(self))
            } else {
                None
            }),
            *final(self) == (if r is Some {
                BackupDialog { notice: None, polling: true, ..*old(self) }
            } else {
                *old(self)
            }),
    {
        let collecting = match &self.stage {
            Stage::Form => true,
            _ => false,
        };
        if !collecting || !self.attached {
            return None;
        }
        match self.spec() {
            Some(spec) => {
                self.notice = None;
                self.polling = true;
                Some(spec)
            },
            None => None,
        }
    }

    /// Reports that the job could not be started, with the form still up.
    pub fn refused(&mut self, error: String)
        ensures
            *final(self) == (BackupDialog { notice: Some(error), ..*old(self) }),
    {
        self.notice = Some(error);
    }

    /// Turns the card to the job, before its first reading.
    pub fn enter_progress(&mut self)
        ensures
            final(self).stage matches Stage::Running { phase, rows_done, bytes, cancelling }
                && phase@ == Seq::<char>::empty() && rows_done == 0 && bytes == 0 && !cancelling,
            *final(self) == (BackupDialog { stage: final(self).stage, ..*old(self) }),
    {
        self.stage = Stage::Running {
            phase: String::new(),
            rows_done: 0,
            bytes: 0,
            cancelling: false,
        };
    }

    /// Records one reading. Says whether another is to be taken: not after the
    /// job's last, and not once the dialog has been closed under it.
    pub fn deliver(&mut self, reading: Result<JobProgress, String>) -> (r: bool)
        ensures
            *final(self) == (BackupDialog { stage: final(self).stage, ..*old(self) }),
            !is_running(old(self).stage) ==> !r && final(self).stage == old(self).stage,
            is_running(old(self).stage) ==> match reading {
                Err(error) => !r && final(self).stage == Stage::Ended(
                    Ended::Failed(Caption::Text(error)),
                ),
                Ok(progress) => if progress.state == JobState::Running {
                    r && final(self).stage == (Stage::Running {
                        phase: progress.phase,
                        rows_done: progress.rows_done,
                        bytes: progress.bytes,
                        cancelling: is_stopping(old(self).stage),
                    })
                } else {
                    !r && ends_as(final(self).stage, progress)
                },
            },
    {
        let cancelling = match &self.stage {
            Stage::Running { cancelling, .. } => *cancelling,
            _ => {
                return false;
            },
        };
        let progress = match reading {
            Ok(progress) => progress,
            Err(error) => {
                self.stage = Stage::Ended(Ended::Failed(Caption::Text(error)));
                return false;
            },
        };
        match progress.state {
            JobState::Running => {
                self.stage = Stage::Running {
                    phase: progress.phase,
                    rows_done: progress.rows_done,
                    bytes: progress.bytes,
                    cancelling,
                };
                true
            },
            JobState::Done => {
                self.stage = Stage::Ended(
                    Ended::Done { rows: progress.rows_done, bytes: progress.bytes },
                );
                false
            },
            JobState::Cancelled => {
                self.stage = Stage::Ended(Ended::Cancelled);
                false
            },
            JobState::Failed => {
                let message = if progress.errors.len() > 0 {
                    Caption::Text(progress.errors[0].clone())
                } else {
                    Caption::Key("backup.failed_unknown")
                };
                self.stage = Stage::Ended(Ended::Failed(message));
                false
            },
        }
    }

    /// Asks the job to stop, once. The card stays up until a reading says it did.
    /// Says whether the job is to be told.
    pub fn request_cancel(&mut self) -> (r: bool)
        ensures
            r == (is_running(old(self).stage) && !is_stopping(old(self).stage)),
            *final(self) == (BackupDialog { stage: stopping(old(self).stage), ..*old(self) }),
    {
        match &mut self.stage {
            Stage::Running { cancelling, .. } => {
                if *cancelling {
                    return false;
                }
                *cancelling = true;
                true
            },
            _ => false,
        }
    }

    /// Whether the focus moves into the dialog now.
    pub fn apply_pending_focus(&mut self) -> (r: bool)
        ensures
            r == old(self).pending_focus,
            *final(self) == (BackupDialog { pending_focus: false, ..*old(self) }),
    {
        let moves = self.pending_focus;
        self.pending_focus = false;
        moves
    }
}

/// The file name that is suggested.
pub open spec fn suggestion(scope: Option<Scope>, compress: bool) -> Seq<char> {
    let name = match scope {
        Some(scope) => scope_name(scope),
        None => Seq::empty(),
    };
    (if name.len() == 0 {
        "database"@
    } else {
        name
    }) + "-backup."@ + (if compress {
        "sql.gz"@
    } else {
        "sql"@
    })
}

/// What a scope's row says: a scope that names nothing gets a word.
pub open spec fn scope_caption(scope: Option<Scope>) -> CaptionText {
    let name = match scope {
        Some(scope) => scope_name(scope),
        None => Seq::empty(),
    };
    if name.len() == 0 {
        CaptionText::Key("backup.scope_all")
    } else {
        CaptionText::Text(name)
    }
}

/// The switches of the form: `DROP` only while the schema is going in.
pub open spec fn form_toggles(dialog: BackupDialog) -> Seq<Toggle> {
    seq![
        Toggle {
            id: "backup-compress",
            label: "backup.compress",
            checked: dialog.compress,
            tab: COMPRESS_TAB,
        },
        Toggle { id: "backup-ddl", label: "backup.ddl", checked: dialog.ddl, tab: DDL_TAB },
    ] + (if dialog.ddl {
        seq![
            Toggle {
                id: "backup-drop",
                label: "backup.drop",
                checked: dialog.include_drop,
                tab: DROP_TAB,
            },
        ]
    } else {
        Seq::empty()
    }) + seq![
        Toggle { id: "backup-data", label: "backup.data", checked: dialog.data, tab: DATA_TAB },
    ]
}

/// The buttons, which are others in each stage.
pub open spec fn stage_buttons(dialog: BackupDialog) -> Seq<FormButton> {
    match dialog.stage {
        Stage::Form => seq![
            FormButton {
                id: "backup-cancel",
                label: "common.cancel",
                variant: ButtonVariant::Secondary,
                enabled: true,
                tab: Some(DISMISS_TAB),
            },
            FormButton {
                id: "backup-start",
                label: "backup.start",
                variant: ButtonVariant::Primary,
                enabled: asked(dialog) is Some,
                tab: Some(START_TAB),
            },
        ],
        Stage::Running { cancelling, .. } => seq![
            FormButton {
                id: "backup-stop",
                label: "common.cancel",
                variant: ButtonVariant::Secondary,
                enabled: !cancelling,
                tab: Some(DISMISS_TAB),
            },
        ],
        Stage::Ended(_) => seq![
            FormButton {
                id: "backup-close",
                label: "common.close",
                variant: ButtonVariant::Primary,
                enabled: true,
                tab: Some(DISMISS_TAB),
            },
        ],
    }
}

/// What a running job's card says: what the job is doing, that it is starting
/// before it says anything, or that it is stopping.
pub open spec fn running_caption(phase: Seq<char>, cancelling: bool) -> CaptionText {
    if cancelling {
        CaptionText::Key("backup.cancelling")
    } else if phase.len() == 0 {
        CaptionText::Key("backup.starting")
    } else {
        CaptionText::Text(phase)
    }
}

/// What a card is drawn with.
#[derive(Debug)]
pub enum BackupBody {
    /// Nothing: the dialog is closed.
    Hidden,
    /// The form: the file, and the switches; the number of rows where rows are
    /// going in.
    Form { output: Caption, chosen: bool, toggles: Vec<Toggle>, batch_field: bool },
    /// A running job: what it is doing, and its two counters.
    Running { doing: Caption, counters: Label },
    /// A job that ended.
    Ended { message: Label, tone: Tone },
}

/// A path that may be absent, as the card of a job names it.
pub open spec fn path_shown(output: Option<String>) -> Seq<char> {
    match output {
        Some(path) => path@,
        None => Seq::empty(),
    }
}

/// Whether a body is the one of a dialog. `bytes` is the number of bytes as it
/// reads.
pub open spec fn is_body(body: BackupBody, dialog: BackupDialog, bytes: Seq<char>) -> bool {
    if !dialog.open {
        body is Hidden
    } else {
        match dialog.stage {
            Stage::Form => body matches BackupBody::Form { output, chosen, toggles, batch_field }
                && output@ == (match dialog.output {
                Some(path) => CaptionText::Text(path@),
                None => CaptionText::Key("backup.output_none"),
            }) && chosen == (dialog.output is Some) && toggles@ == form_toggles(dialog)
                && batch_field == dialog.data,
            Stage::Running { phase, rows_done, cancelling, .. } => {
                body matches BackupBody::Running { doing, counters } && doing@ == running_caption(
                    phase@,
                    cancelling,
                ) && counters@ == with_two(
                    "backup.counters",
                    "rows",
                    decimal(rows_done as nat),
                    "bytes",
                    bytes,
                )
            },
            Stage::Ended(Ended::Done { rows, .. }) => {
                body matches BackupBody::Ended { message, tone } && message@ == with_three(
                    "backup.done",
                    "path",
                    path_shown(dialog.output),
                    "rows",
                    decimal(rows as nat),
                    "bytes",
                    bytes,
                ) && tone == Tone::Success
            },
            Stage::Ended(Ended::Cancelled) => {
                body matches BackupBody::Ended { message, tone } && message@ == with(
                    "backup.cancelled",
                    "path",
                    path_shown(dialog.output),
                ) && tone == Tone::Normal
            },
            Stage::Ended(Ended::Failed(error)) => {
                body matches BackupBody::Ended { message, tone } && message@ == filled(
                    "backup.failed",
                    "error",
                    error@,
                ) && tone == Tone::Danger
            },
        }
    }
}

impl BackupDialog {
    /// What the scope's row says.
    pub fn scope_row(&self) -> (r: Caption)
        ensures
            r@ == scope_caption(self.scope),
    {
        let name = match &self.scope {
            Some(scope) => qualified(scope),
            None => String::new(),
        };
        if name.as_str().unicode_len() == 0 {
            Caption::Key("backup.scope_all")
        } else {
            Caption::Text(name)
        }
    }

    fn toggles(&self) -> (r: Vec<Toggle>)
        ensures
            r@ == form_toggles(*self),
    {
        let mut toggles: Vec<Toggle> = Vec::new();
        toggles.push(
            Toggle {
                id: "backup-compress",
                label: "backup.compress",
                checked: self.compress,
                tab: COMPRESS_TAB,
            },
        );
        toggles.push(
            Toggle { id: "backup-ddl", label: "backup.ddl", checked: self.ddl, tab: DDL_TAB },
        );
        if self.ddl {
            toggles.push(
                Toggle {
                    id: "backup-drop",
                    label: "backup.drop",
                    checked: self.include_drop,
                    tab: DROP_TAB,
                },
            );
        }
        toggles.push(
            Toggle { id: "backup-data", label: "backup.data", checked: self.data, tab: DATA_TAB },
        );
        assert(toggles@ =~= form_toggles(*self));
        toggles
    }

    /// What the card is drawn with. `bytes` is the number of bytes as it reads.
    pub fn body(&self, bytes: &str) -> (r: BackupBody)
        ensures
            is_body(r, *self, bytes@),
    {
        if !self.open {
            return BackupBody::Hidden;
        }
        match &self.stage {
            Stage::Form => BackupBody::Form {
                output: match &self.output {
                    Some(path) => Caption::Text(path.clone()),
                    None => Caption::Key("backup.output_none"),
                },
                chosen: self.output.is_some(),
                toggles: self.toggles(),
                batch_field: self.data,
            },
            Stage::Running { phase, rows_done, cancelling, .. } => {
                let rows = decimal_text(*rows_done);
                BackupBody::Running {
                    doing: if *cancelling {
                        Caption::Key("backup.cancelling")
                    } else if phase.as_str().unicode_len() == 0 {
                        Caption::Key("backup.starting")
                    } else {
                        Caption::Text(phase.clone())
                    },
                    counters: Label::with_two(
                        "backup.counters",
                        "rows",
                        rows.as_str(),
                        "bytes",
                        bytes,
                    ),
                }
            },
            Stage::Ended(ended) => {
                let path = match &self.output {
                    Some(path) => path.clone(),
                    None => String::new(),
                };
                assert(path@ =~= path_shown(self.output));
                match ended {
                    Ended::Done { rows, .. } => {
                        let rows = decimal_text(*rows);
                        BackupBody::Ended {
                            message: Label::with_three(
                                "backup.done",
                                "path",
                                path.as_str(),
                                "rows",
                                rows.as_str(),
                                "bytes",
                                bytes,
                            ),
                            tone: Tone::Success,
                        }
                    },
                    Ended::Cancelled => BackupBody::Ended {
                        message: Label::with("backup.cancelled", "path", path.as_str()),
                        tone: Tone::Normal,
                    },
                    Ended::Failed(error) => BackupBody::Ended {
                        message: Label::filled("backup.failed", "error", error.copy()),
                        tone: Tone::Danger,
                    },
                }
            },
        }
    }

    /// The buttons.
    pub fn footer(&self) -> (r: Vec<FormButton>)
        ensures
            r@ == stage_buttons(*self),
    {
        let mut buttons: Vec<FormButton> = Vec::new();
        match &self.stage {
            Stage::Form => {
                buttons.push(
                    FormButton {
                        id: "backup-cancel",
                        label: "common.cancel",
                        variant: ButtonVariant::Secondary,
                        enabled: true,
                        tab: Some(DISMISS_TAB),
                    },
                );
                buttons.push(
                    FormButton {
                        id: "backup-start",
                        label: "backup.start",
                        variant: ButtonVariant::Primary,
                        enabled: self.spec().is_some(),
                        tab: Some(START_TAB),
                    },
                );
            },
            Stage::Running { cancelling, .. } => {
                buttons.push(
                    FormButton {
                        id: "backup-stop",
                        label: "common.cancel",
                        variant: ButtonVariant::Secondary,
                        enabled: !*cancelling,
                        tab: Some(DISMISS_TAB),
                    },
                );
            },
            Stage::Ended(_) => {
                buttons.push(
                    FormButton {
                        id: "backup-close",
                        label: "common.close",
                        variant: ButtonVariant::Primary,
                        enabled: true,
                        tab: Some(DISMISS_TAB),
                    },
                );
            },
        }
        assert(buttons@ =~= stage_buttons(*self));
        buttons
    }
}

/// The button that starts a job can be pressed exactly where there is a job to
/// start: a file is chosen, and the schema or the rows are asked for.
pub proof fn a_ready_form_names_a_file_and_a_half(scope: Scope, form: BackupForm)
    ensures
        spec_for(scope, form) is Some <==> form.output is Some && (form.ddl || form.data),
        spec_for(scope, form) matches Some(spec) ==> {
            &&& spec.ddl is Some == form.ddl
            &&& spec.data is Some == form.data
            &&& (spec.data matches Some(data) ==> data.insert_batch_rows >= 1)
            &&& (spec.ddl matches Some(ddl) ==> ddl.constraints == Constraints::Alter)
        },
{
}

/// A job is asked for exactly where a file is chosen and something is to go into
/// it, and is asked for what the form says, each option for itself: the file as it
/// was chosen, the halves of the scope that say something, gzip where it is wanted,
/// `DROP` statements where they are wanted and the schema is written, and the rows
/// in batches of the number given, or of one where that is none.
pub proof fn a_job_is_asked_for_as_the_form_says(scope: Scope, form: BackupForm)
    ensures
        spec_for(scope, form) is Some <==> form.output is Some && (form.ddl || form.data),
        spec_for(scope, form) matches Some(spec) ==> {
            &&& Some(spec.path) == form.output
            &&& spec.compress == Compression::Gzip <==> form.compress
            &&& spec.ddl is Some <==> form.ddl
            &&& spec.ddl is Some ==> spec.ddl.unwrap().include_drop == form.include_drop
                && spec.ddl.unwrap().constraints == Constraints::Alter
            &&& spec.data is Some <==> form.data
            &&& spec.data is Some && form.batch_rows >= 1 ==> spec.data.unwrap().insert_batch_rows
                == form.batch_rows
            &&& spec.data is Some && form.batch_rows == 0 ==> spec.data.unwrap().insert_batch_rows
                == 1
            &&& spec.catalog == (if scope.catalog is Some && trim(scope.catalog.unwrap()@).len()
                > 0 {
                scope.catalog
            } else {
                None
            })
            &&& spec.schema == (if scope.schema is Some && trim(scope.schema.unwrap()@).len() > 0 {
                scope.schema
            } else {
                None
            })
        },
{
}

/// What the dialog asks for is what its controls say: each switch and the file as
/// they stand, and the number of rows as it is typed.
pub proof fn the_dialog_asks_for_what_it_shows(dialog: BackupDialog)
    ensures
        asked(dialog) is Some <==> dialog.scope is Some && dialog.output is Some && (dialog.ddl
            || dialog.data),
        asked(dialog) matches Some(spec) ==> {
            &&& Some(spec.path) == dialog.output
            &&& spec.compress == Compression::Gzip <==> dialog.compress
            &&& spec.ddl is Some <==> dialog.ddl
            &&& spec.ddl is Some ==> spec.ddl.unwrap().include_drop == dialog.include_drop
            &&& spec.data is Some <==> dialog.data
            &&& spec.data is Some ==> spec.data.unwrap().insert_batch_rows == (match parsed(
                trim(dialog.batch@),
                u32::MAX as nat,
            ) {
                Some(rows) => if rows == 0 {
                    1nat
                } else {
                    rows
                },
                None => 1nat,
            })
        },
{
    assert forall|n: nat| parsed(trim(dialog.batch@), u32::MAX as nat) == Some(n) implies n
        <= u32::MAX by {}
}

/// The file that is suggested is named after the scope, and its ending says
/// whether it is compressed.
pub proof fn the_suggested_file_says_what_it_is(scope: Scope, compress: bool)
    ensures
        scope_name(scope).len() > 0 ==> suggestion(Some(scope), compress) == scope_name(scope) + (
        if compress {
            "-backup.sql.gz"@
        } else {
            "-backup.sql"@
        }),
        scope_name(scope).len() == 0 ==> suggestion(Some(scope), compress) == (if compress {
            "database-backup.sql.gz"@
        } else {
            "database-backup.sql"@
        }),
{
    reveal_strlit("-backup.");
    reveal_strlit("sql.gz");
    reveal_strlit("sql");
    reveal_strlit("database");
    reveal_strlit("-backup.sql.gz");
    reveal_strlit("-backup.sql");
    reveal_strlit("database-backup.sql.gz");
    reveal_strlit("database-backup.sql");
    assert("-backup."@ + "sql.gz"@ =~= "-backup.sql.gz"@);
    assert("-backup."@ + "sql"@ =~= "-backup.sql"@);
    assert("database"@ + "-backup.sql.gz"@ =~= "database-backup.sql.gz"@);
    assert("database"@ + "-backup.sql"@ =~= "database-backup.sql"@);
    let named = if scope_name(scope).len() == 0 {
        "database"@
    } else {
        scope_name(scope)
    };
    assert(suggestion(Some(scope), compress) =~= named + (if compress {
        "-backup.sql.gz"@
    } else {
        "-backup.sql"@
    }));
}

} // verus!
