//! The data pane: one table's rows, paged into a grid, and changed in place.
//!
//! The pane runs `SELECT * FROM <table>` of its own accord, pages it as the grid
//! nears the end, re-runs it in a new order when a heading is clicked, and holds
//! whatever the user has typed into it until they apply it or throw it away.
//!
//! What is here is every decision of it: each gesture and each answer of the
//! server changes the pane, and says what is to be asked of the session next. A
//! load carries a generation, and the answer of one that a later load replaced is
//! ignored. A sort and a refresh are refused while changes are staged, because a
//! staged edit is keyed to a row of the source they would throw away.

use vstd::prelude::*;

use crate::builder_sql::{parts_of, sort_keyword, table_parts, SortDir};
use crate::context_menu::{
    copy_menu, grid_copy_rows, grid_header_rows, header_menu, menu_row, menu_texts, push_row,
    push_separator, CopyFormat, GridCommand, MenuRow, MenuText, SortDirection,
};
use crate::data_edit::{
    after_discard, after_source_stage, after_toggle, edited_rows, located, no_edits, nothing_staged,
    rules_of, status_of, EditCounts, EditableSource, RowRef, RowStatus, Staged, StagedCell,
    StagedText,
};
use crate::erd_pane::ConnectionId;
use crate::grid::{cell_at, ColumnInfo, GridSourceState, ResultSource, SourceCell};
use crate::text::{as_text, decimal, decimal_text, maybe_text, texts, trim, trimmed};
use crate::view::{plain, with, Button, ButtonVariant, Label, LabelText};

verus! {

/// The object whose rows a pane shows.
#[derive(Debug)]
pub struct ObjectTarget {
    pub connection: ConnectionId,
    pub catalog: Option<String>,
    pub schema: Option<String>,
    pub name: String,
}

/// What a load produced.
#[derive(Debug)]
pub struct Opened {
    /// The primary key's columns, in key order. Empty for a table that has none.
    pub keys: Vec<String>,
    /// What the driver says of each column.
    pub columns: Vec<ColumnInfo>,
    /// The first batch of rows.
    pub batch: Vec<Vec<SourceCell>>,
    /// Whether the driver had run out of rows.
    pub complete: bool,
    /// Whether the cursor is still there to page.
    pub cursor: bool,
}

/// One thing a statement answered with.
#[derive(Debug)]
pub enum Step {
    /// A result set.
    Rows { columns: Vec<ColumnInfo>, batch: Vec<Vec<SourceCell>>, complete: bool },
    /// Anything else.
    Message,
}

/// The ordering the rows were asked for.
#[derive(Debug)]
pub struct Order {
    /// The source column, as the grid numbers them.
    pub column: usize,
    /// Its name, as the catalogue spells it.
    pub name: String,
    /// Which way.
    pub direction: SortDirection,
}

/// What was right-clicked in the grid.
#[derive(Clone, Copy, Debug, PartialEq, Eq, Structural)]
pub enum MenuTarget {
    Cell,
    Header { column: usize },
}

/// The rows on screen, and everything needed to go on reading them.
#[derive(Debug)]
pub struct Rows {
    /// The rows with what is staged over them.
    pub source: EditableSource,
    /// What the driver says of each column.
    pub columns: Vec<ColumnInfo>,
    /// Whether the cursor is here to page. Not once the rows ran out, and not
    /// while a fetch has it.
    pub cursor: bool,
    /// Whether the cursor is out with a fetch.
    pub fetching: bool,
    /// The ordering the grid shows.
    pub sort: Option<(usize, SortDirection)>,
}

/// Where the pane's rows have got to.
#[derive(Debug)]
pub enum Load {
    /// A load is out.
    Running,
    /// It came back, with however many rows there were.
    Ready(Rows),
    /// The driver refused; its own words.
    Failed(String),
}

/// A line the pane wants to say without it being a failure of the load.
#[derive(Debug, PartialEq, Eq)]
pub enum Notice {
    /// Changes are staged, and have to be applied or discarded first.
    DiscardFirst,
    /// There is no session any more.
    Disconnected,
    /// A batch is out.
    Applying,
    /// A batch went through, with this many statements.
    Applied(usize),
    /// The next page could not be read.
    PageFailed(String),
}

/// What a notice says: a sentence of the interface, or the driver's own words.
pub open spec fn notice_text(notice: Notice) -> Result<LabelText, Seq<char>> {
    match notice {
        Notice::DiscardFirst => Ok(plain("data.discard_first")),
        Notice::Disconnected => Ok(plain("explorer.disconnected")),
        Notice::Applying => Ok(plain("data.applying")),
        Notice::Applied(count) => Ok(with("data.applied", "count", decimal(count as nat))),
        Notice::PageFailed(message) => Err(message@),
    }
}

impl Notice {
    /// What the notice says: a sentence of the interface, or the driver's words.
    pub fn text(&self) -> (r: Result<Label, &str>)
        ensures
            match notice_text(*self) {
                Ok(label) => r matches Ok(shown) && shown@ == label,
                Err(message) => r matches Err(shown) && shown@ == message,
            },
    {
        match self {
            Notice::DiscardFirst => Ok(Label::plain("data.discard_first")),
            Notice::Disconnected => Ok(Label::plain("explorer.disconnected")),
            Notice::Applying => Ok(Label::plain("data.applying")),
            Notice::Applied(count) => {
                let number = decimal_text(*count as u64);
                Ok(Label::with("data.applied", "count", number.as_str()))
            },
            Notice::PageFailed(message) => Err(message.as_str()),
        }
    }
}

/// Why an apply did not happen.
#[derive(Debug, PartialEq, Eq)]
pub struct ApplyProblem {
    /// What the driver said, where a driver refused.
    pub error: Option<String>,
    /// What stopped it otherwise.
    pub message: Option<ApplyMessage>,
    /// Whether part of the batch may have gone through.
    pub half_applied: bool,
}

/// What stopped an apply where no driver did.
#[derive(Debug, PartialEq, Eq)]
pub enum ApplyMessage {
    /// A row is no longer what it was when it was read.
    Stale,
    /// The changes could not be put into statements; why.
    Plan(String),
}

/// What stopped a batch.
#[derive(Debug, PartialEq, Eq)]
pub enum ApplyStop {
    /// The driver refused; its own words.
    Driver(String),
    /// A statement did not reach the one row it was written for.
    Stale,
}

/// How a batch failed.
#[derive(Debug, PartialEq, Eq)]
pub struct ApplyFailure {
    pub stop: ApplyStop,
    /// Whether part of it may have gone through.
    pub half_applied: bool,
}

/// One table's rows.
#[derive(Debug)]
pub struct DataPane {
    /// What is being shown.
    pub target: ObjectTarget,
    /// Which connection tab this pane belongs to.
    pub connection: ConnectionId,
    /// Whether there is a session behind the pane. The tab outlives its
    /// connection, because the rows already fetched are worth reading.
    pub attached: bool,
    /// Whether the profile refuses writes outright.
    pub read_only: bool,
    /// Whether the product behind the session has transactions.
    pub transactional: bool,
    /// The autocommit setting the session was opened with, which an apply puts
    /// back.
    pub restore_auto_commit: bool,
    /// Rows per fetch.
    pub fetch_rows: u32,
    /// The primary key's columns, in key order.
    pub keys: Vec<String>,
    /// Whether the keys are an answer rather than a starting value.
    pub keys_read: bool,
    pub load: Load,
    /// The order the rows were asked in, when one was asked for.
    pub order: Option<Order>,
    pub notice: Option<Notice>,
    /// The generation of the newest load.
    pub generation: u64,
    /// The grid's right-click menu, while one is open.
    pub context_menu: Option<MenuTarget>,
    /// Whether "discard everything" is waiting to be confirmed.
    pub confirm_discard: bool,
    /// The statements an apply would send, while they are being shown.
    pub preview: Option<Vec<String>>,
    /// Whether a batch is out on the session.
    pub applying: bool,
    /// Why the last apply did not happen.
    pub apply_error: Option<ApplyProblem>,
}

/// What is to be loaded: with the generation its answer carries.
#[derive(Clone, Copy, Debug, PartialEq, Eq, Structural)]
pub struct LoadRequest {
    pub generation: u64,
    pub fetch_rows: u32,
}

/// A batch to be sent.
#[derive(Debug)]
pub struct ApplyRequest {
    pub generation: u64,
    pub statements: Vec<String>,
    pub transactional: bool,
    pub restore_auto_commit: bool,
}

/// Whether rows are there with changes staged over them.
pub open spec fn pending(load: Load) -> bool {
    load matches Load::Ready(rows) && !nothing_staged(rows.source.edits@)
}

/// Why the rows may only be read: the profile is marked read-only, or the table
/// has no primary key to write a `WHERE` clause from. The second only once the
/// catalogue has answered.
pub open spec fn reading_only(pane: DataPane) -> Option<&'static str> {
    if pane.read_only {
        Some("data.read_only")
    } else if pane.keys_read && pane.keys@.len() == 0 {
        Some("data.no_primary_key")
    } else {
        None
    }
}

/// Whether no more than one of the two modals stands: they are irreversible in
/// opposite directions, and stacked they would have the user answer the wrong one.
pub open spec fn one_modal(pane: DataPane) -> bool {
    !(pane.confirm_discard && pane.preview is Some)
}

/// The pane once a load was asked for: what was there goes, with everything that
/// was about it.
pub open spec fn loading_again(pane: DataPane) -> DataPane {
    DataPane {
        generation: (pane.generation + 1) as u64,
        load: Load::Running,
        keys_read: false,
        notice: None,
        context_menu: None,
        confirm_discard: false,
        preview: None,
        apply_error: None,
        ..pane
    }
}

/// The pane with something to say.
pub open spec fn saying(pane: DataPane, notice: Notice) -> DataPane {
    DataPane { notice: Some(notice), ..pane }
}

/// What a refresh does: nothing but say why while changes are staged or there is
/// no session, and a load otherwise.
pub open spec fn refreshed(pane: DataPane) -> (DataPane, Option<LoadRequest>) {
    if pending(pane.load) {
        (saying(pane, Notice::DiscardFirst), None)
    } else if !pane.attached {
        (saying(pane, Notice::Disconnected), None)
    } else {
        (
            loading_again(pane),
            Some(
                LoadRequest { generation: (pane.generation + 1) as u64, fetch_rows: pane.fetch_rows },
            ),
        )
    }
}

/// The statement the pane runs: every column, in whatever order was asked for.
pub open spec fn select_text(table: Seq<char>, column: Seq<char>, order: Option<Order>) -> Seq<char> {
    match order {
        None => "SELECT * FROM "@ + table,
        Some(order) => "SELECT * FROM "@ + table + " ORDER BY "@ + column + " "@ + sort_keyword(
            sort_dir(order.direction),
        ),
    }
}

/// A direction, as a statement sorts.
pub open spec fn sort_dir(direction: SortDirection) -> SortDir {
    match direction {
        SortDirection::Ascending => SortDir::Asc,
        SortDirection::Descending => SortDir::Desc,
    }
}

/// The first result set a statement answered with; everything else it answered
/// with is dropped, because the pane shows one table.
pub open spec fn first_rows(steps: Seq<Step>) -> Option<int>
    decreases steps.len(),
{
    if steps.len() == 0 {
        None
    } else {
        match first_rows(steps.drop_last()) {
            Some(at) => Some(at),
            None => if steps.last() is Rows {
                Some(steps.len() - 1)
            } else {
                None
            },
        }
    }
}

/// What opening a table came to, of its key and of what the statement answered
/// with. `pageable` says whether the cursor is parked on rows that can be paged.
pub fn opened_from(keys: Vec<String>, steps: Vec<Step>, pageable: bool) -> (r: Opened)
    ensures
        r.keys == keys,
        match first_rows(steps@) {
            Some(at) => steps@[at] == (Step::Rows {
                columns: r.columns,
                batch: r.batch,
                complete: r.complete,
            }) && r.cursor == pageable,
            None => r.columns@.len() == 0 && r.batch@.len() == 0 && r.complete && !r.cursor,
        },
{
    let at: usize = rows_at(&steps);
    let mut steps = steps;
    if at < steps.len() {
        match steps.remove(at) {
            Step::Rows { columns, batch, complete } => {
                return Opened { keys, columns, batch, complete, cursor: pageable };
            },
            Step::Message => {},
        }
    }
    Opened { keys, columns: Vec::new(), batch: Vec::new(), complete: true, cursor: false }
}

/// Where the first result set stands, or the end.
fn rows_at(steps: &Vec<Step>) -> (r: usize)
    ensures
        r <= steps@.len(),
        first_rows(steps@) == (if r < steps@.len() {
            Some(r as int)
        } else {
            None
        }),
        r < steps@.len() ==> steps@[r as int] is Rows,
{
    let mut i: usize = 0;
    assert(first_rows(steps@.take(0)) is None);
    while i < steps.len()
        invariant
            i <= steps@.len(),
            first_rows(steps@.take(i as int)) is None,
        decreases steps.len() - i,
    {
        let ghost next = steps@.take(i + 1);
        assert(next.drop_last() =~= steps@.take(i as int));
        if matches!(steps[i], Step::Rows { .. }) {
            proof {
                assert(next.last() == steps@[i as int]);
                assert(first_rows(next) == Some(i as int));
                lemma_first_rows_stays(steps@, (i + 1) as nat);
            }
            return i;
        }
        i = i + 1;
    }
    assert(steps@.take(steps@.len() as int) =~= steps@);
    i
}

/// A result set that comes first among some answers comes first among all.
proof fn lemma_first_rows_stays(steps: Seq<Step>, n: nat)
    requires
        n <= steps.len(),
        first_rows(steps.take(n as int)) is Some,
    ensures
        first_rows(steps) == first_rows(steps.take(n as int)),
    decreases steps.len() - n,
{
    if n == steps.len() {
        assert(steps.take(n as int) =~= steps);
    } else {
        let more = steps.take(n as int + 1);
        assert(more.drop_last() =~= steps.take(n as int));
        lemma_first_rows_stays(steps, n + 1);
    }
}

/// Whether the rows that a load produced are what the pane shows.
pub open spec fn shows(rows: Rows, opened: Opened, pane: DataPane) -> bool {
    &&& rows.columns == opened.columns
    &&& rows.cursor == opened.cursor
    &&& !rows.fetching
    &&& rows.sort == (match pane.order {
        Some(order) => Some((order.column, order.direction)),
        None => None,
    })
    &&& rows.source.base.rows@ == opened.batch@
    &&& rows.source.base.state == (if opened.complete && !opened.cursor {
        GridSourceState::Complete
    } else {
        GridSourceState::HasMore
    })
    &&& rows.source.base.columns@.len() == opened.columns@.len()
    &&& forall|i: int|
        0 <= i < opened.columns@.len() ==> {
            &&& (#[trigger] rows.source.base.columns@[i]).name@ == opened.columns@[i].name@
            &&& rows.source.base.columns@[i].kind == opened.columns@[i].kind
            &&& rows.source.base.columns@[i].primary_key == texts(opened.keys@).contains(
                opened.columns@[i].name@,
            )
        }
    &&& rows.source.columns@.len() == opened.columns@.len()
    &&& forall|i: int|
        0 <= i < opened.columns@.len() ==> #[trigger] rows.source.columns@[i] == rules_of(
            opened.columns@[i],
        )
    &&& rows.source.edits@ == no_edits()
    &&& rows.source.writable == (!pane.read_only && opened.keys@.len() > 0)
}

/// Whether two panes agree on everything but their load.
pub open spec fn same_but_load(a: DataPane, b: DataPane) -> bool {
    a == (DataPane { load: a.load, ..b })
}

/// Whether rows changed in nothing but what is staged over them, to `staged`.
pub open spec fn restaged(before: Load, after: Load, staged: Staged) -> bool {
    match before {
        Load::Ready(rows) => after matches Load::Ready(now) && now.source.edits@ == staged && now == (
        Rows { source: EditableSource { edits: now.source.edits, ..rows.source }, ..rows }),
        _ => after == before,
    }
}

/// What is staged, where there are rows.
pub open spec fn staged_in(load: Load) -> Staged
    recommends
        load is Ready,
{
    load->Ready_0.source.edits@
}

impl DataPane {
    /// A pane over `target`, before it has asked for anything. A driver that did
    /// not say whether it has transactions is taken to have them.
    pub fn new(
        connection: ConnectionId,
        target: ObjectTarget,
        read_only: bool,
        auto_commit: bool,
        fetch_batch_rows: u32,
    ) -> (r: Self)
        ensures
            r.target == target,
            r.connection == connection,
            r.attached,
            r.read_only == read_only,
            r.transactional,
            r.restore_auto_commit == auto_commit,
            r.fetch_rows == fetch_batch_rows,
            r.keys@.len() == 0,
            !r.keys_read,
            r.load is Running,
            r.order is None,
            r.notice is None,
            r.generation == 0,
            r.context_menu is None,
            !r.confirm_discard,
            r.preview is None,
            !r.applying,
            r.apply_error is None,
            one_modal(r),
    {
        DataPane {
            target,
            connection,
            attached: true,
            read_only,
            transactional: true,
            restore_auto_commit: auto_commit,
            fetch_rows: fetch_batch_rows,
            keys: Vec::new(),
            keys_read: false,
            load: Load::Running,
            order: None,
            notice: None,
            generation: 0,
            context_menu: None,
            confirm_discard: false,
            preview: None,
            applying: false,
            apply_error: None,
        }
    }

    /// Records whether the product behind the session has transactions.
    pub fn with_transactions(self, supported: bool) -> (r: Self)
        ensures
            r == (DataPane { transactional: supported, ..self }),
    {
        let mut pane = self;
        pane.transactional = supported;
        pane
    }

    /// The object whose rows these are.
    pub fn target(&self) -> (r: &ObjectTarget)
        ensures
            *r == self.target,
    {
        &self.target
    }

    /// Which connection tab this pane runs against.
    pub fn connection(&self) -> (r: ConnectionId)
        ensures
            r == self.connection,
    {
        self.connection
    }

    /// Lets the session go, leaving the tab standing: the rows already fetched
    /// are the user's to read, and nothing more is asked for.
    pub fn detach(&mut self)
        ensures
            !final(self).attached,
            same_but_load(*final(self), (DataPane { attached: false, ..*old(self) })),
            match old(self).load {
                Load::Ready(rows) => final(self).load == Load::Ready(Rows { cursor: false, ..rows }),
                _ => final(self).load == old(self).load,
            },
    {
        self.attached = false;
        match &mut self.load {
            Load::Ready(rows) => {
                rows.cursor = false;
            },
            _ => {},
        }
    }

    /// Whether this pane still has a session behind it.
    pub fn is_attached(&self) -> (r: bool)
        ensures
            r == self.attached,
    {
        self.attached
    }

    /// Whether the keyboard goes to the rows rather than to the pane.
    pub fn focus_goes_to_the_rows(&self) -> (r: bool)
        ensures
            r == (self.load is Ready),
    {
        matches!(self.load, Load::Ready(_))
    }

    /// Whether the pane is holding changes the user has not applied.
    pub fn has_pending_edits(&self) -> (r: bool)
        ensures
            r == pending(self.load),
    {
        match &self.load {
            Load::Ready(rows) => !rows.source.edits().is_empty(),
            _ => false,
        }
    }

    /// Says why the gesture that was just tried is refused while changes are
    /// staged.
    pub fn warn_pending(&mut self)
        ensures
            *final(self) == saying(*old(self), Notice::DiscardFirst),
    {
        self.notice = Some(Notice::DiscardFirst);
    }

    /// Why the rows may only be read, if they may.
    pub fn read_only_reason(&self) -> (r: Option<&'static str>)
        ensures
            r == reading_only(*self),
    {
        if self.read_only {
            return Some("data.read_only");
        }
        if self.keys_read && self.keys.len() == 0 {
            return Some("data.no_primary_key");
        }
        None
    }

    /// The parts of the table's qualified name.
    pub fn table_parts(&self) -> (r: Vec<String>)
        ensures
            texts(r@) == parts_of(
                maybe_text(self.target.catalog),
                maybe_text(self.target.schema),
                self.target.name@,
            ),
    {
        table_parts(
            as_text(&self.target.catalog),
            as_text(&self.target.schema),
            self.target.name.as_str(),
        )
    }

    /// The statement the pane runs: `table` is the qualified name and `column`
    /// the name ordered by, as the dialect spells them.
    pub fn select_sql(&self, table: &str, column: &str) -> (r: String)
        ensures
            r@ == select_text(table@, column@, self.order),
    {
        let mut sql = "SELECT * FROM ".to_owned();
        sql.append(table);
        match &self.order {
            Some(order) => {
                let direction = match order.direction {
                    SortDirection::Ascending => SortDir::Asc,
                    SortDirection::Descending => SortDir::Desc,
                };
                sql.append(" ORDER BY ");
                sql.append(column);
                sql.append(" ");
                sql.append(direction.keyword());
            },
            None => {},
        }
        sql
    }

    /// Reads the key and the first batch again, from scratch.
    pub fn refresh(&mut self) -> (r: Option<LoadRequest>)
        requires
            old(self).generation < u64::MAX,
        ensures
            (*final(self), r) == refreshed(*old(self)),
    {
        if self.has_pending_edits() {
            self.notice = Some(Notice::DiscardFirst);
            return None;
        }
        if !self.attached {
            self.notice = Some(Notice::Disconnected);
            return None;
        }
        self.generation = self.generation + 1;
        self.load = Load::Running;
        self.keys_read = false;
        self.notice = None;
        self.context_menu = None;
        self.confirm_discard = false;
        self.preview = None;
        self.apply_error = None;
        Some(LoadRequest { generation: self.generation, fetch_rows: self.fetch_rows })
    }

    /// Records what one load produced: the rows, or what the driver said. The
    /// answer of a load that a later one replaced is ignored.
    pub fn deliver(&mut self, generation: u64, outcome: Result<Opened, String>)
        ensures
            generation != old(self).generation ==> *final(self) == *old(self),
            generation == old(self).generation ==> match outcome {
                Ok(opened) => {
                    &&& same_but_load(
                        *final(self),
                        (DataPane { keys: opened.keys, keys_read: true, ..*old(self) }),
                    )
                    &&& final(self).load matches Load::Ready(rows) && shows(rows, opened, *old(self))
                },
                Err(message) => *final(self) == (DataPane {
                    load: Load::Failed(message),
                    ..*old(self)
                }),
            },
    {
        if generation != self.generation {
            return;
        }
        match outcome {
            Ok(opened) => {
                let Opened { keys, columns, batch, complete, cursor } = opened;
                self.keys = keys;
                self.keys_read = true;
                let mut source = ResultSource::new(&columns);
                source.mark_primary_keys(&self.keys);
                source.push(batch);
                assert(source.rows@ =~= batch@);
                source.set_state(
                    if complete && !cursor {
                        GridSourceState::Complete
                    } else {
                        GridSourceState::HasMore
                    },
                );
                let writable = self.read_only_reason().is_none();
                let sort = match &self.order {
                    Some(order) => Some((order.column, order.direction)),
                    None => None,
                };
                let source = EditableSource::new(source, &columns, writable);
                self.load = Load::Ready(Rows { source, columns, cursor, fetching: false, sort });
            },
            Err(message) => {
                self.load = Load::Failed(message);
            },
        }
    }

    /// The grid has come within sight of the last row it holds. Answers what to
    /// fetch, if anything: one fetch at a time, and only while there is a cursor.
    pub fn fetch_more(&mut self) -> (r: Option<LoadRequest>)
        ensures
            !old(self).attached ==> r is None && *final(self) == saying(
                *old(self),
                Notice::Disconnected,
            ),
            old(self).attached ==> match old(self).load {
                Load::Ready(rows) => if !rows.fetching && rows.cursor {
                    &&& r == Some(
                        LoadRequest {
                            generation: old(self).generation,
                            fetch_rows: old(self).fetch_rows,
                        },
                    )
                    &&& *final(self) == (DataPane {
                        load: Load::Ready(
                            Rows {
                                cursor: false,
                                fetching: true,
                                source: EditableSource {
                                    base: ResultSource {
                                        state: GridSourceState::Loading,
                                        ..rows.source.base
                                    },
                                    ..rows.source
                                },
                                ..rows
                            },
                        ),
                        ..*old(self)
                    })
                } else {
                    r is None && *final(self) == *old(self)
                },
                _ => r is None && *final(self) == *old(self),
            },
    {
        if !self.attached {
            self.notice = Some(Notice::Disconnected);
            return None;
        }
        let generation: u64 = self.generation;
        let fetch_rows: u32 = self.fetch_rows;
        match &mut self.load {
            Load::Ready(rows) => {
                if rows.fetching || !rows.cursor {
                    return None;
                }
                rows.cursor = false;
                rows.fetching = true;
                rows.source.set_state(GridSourceState::Loading);
                Some(LoadRequest { generation, fetch_rows })
            },
            _ => None,
        }
    }

    /// Records a page: the rows and whether they were the last, or what the
    /// driver said. The rows already fetched stay on screen either way, and what
    /// is staged over them stays where it is.
    pub fn paged(&mut self, generation: u64, outcome: Result<(Vec<Vec<SourceCell>>, bool), String>)
        ensures
            generation != old(self).generation || !(old(self).load is Ready) ==> *final(self)
                == *old(self),
            generation == old(self).generation && old(self).load is Ready ==> {
                let rows = old(self).load->Ready_0;
                &&& final(self).load matches Load::Ready(now) && {
                    &&& !now.fetching
                    &&& now.columns == rows.columns
                    &&& now.sort == rows.sort
                    &&& now.source == (EditableSource { base: now.source.base, ..rows.source })
                    &&& now.source.base.columns == rows.source.base.columns
                    &&& match outcome {
                        Ok((batch, complete)) => {
                            &&& now.cursor == !complete
                            &&& now.source.base.rows@ == rows.source.base.rows@ + batch@
                            &&& now.source.base.state == (if complete {
                                GridSourceState::Complete
                            } else {
                                GridSourceState::HasMore
                            })
                        },
                        Err(_) => {
                            &&& !now.cursor
                            &&& now.source.base.rows == rows.source.base.rows
                            &&& now.source.base.state == GridSourceState::Complete
                        },
                    }
                }
                &&& same_but_load(
                    *final(self),
                    (DataPane {
                        notice: match outcome {
                            Ok(_) => None,
                            Err(message) => Some(Notice::PageFailed(message)),
                        },
                        ..*old(self)
                    }),
                )
            },
    {
        if generation != self.generation {
            return;
        }
        let mut failure: Option<Notice> = None;
        match &mut self.load {
            Load::Ready(rows) => {
                rows.fetching = false;
                match outcome {
                    Ok((batch, complete)) => {
                        rows.cursor = !complete;
                        rows.source.base_mut().push(batch);
                        rows.source.set_state(
                            if complete {
                                GridSourceState::Complete
                            } else {
                                GridSourceState::HasMore
                            },
                        );
                    },
                    Err(message) => {
                        rows.cursor = false;
                        rows.source.set_state(GridSourceState::Complete);
                        failure = Some(Notice::PageFailed(message));
                    },
                }
            },
            _ => {
                return;
            },
        }
        self.notice = failure;
    }

    /// A heading was clicked: run the same `SELECT` in that order, or in none.
    pub fn reorder(&mut self, column: usize, direction: Option<SortDirection>) -> (r: Option<
        LoadRequest,
    >)
        requires
            old(self).generation < u64::MAX,
            old(self).load matches Load::Ready(rows) ==> column < rows.source.base.columns@.len(),
        ensures
            !old(self).attached ==> r is None && *final(self) == saying(
                *old(self),
                Notice::Disconnected,
            ),
            old(self).attached && pending(old(self).load) ==> r is None && *final(self) == saying(
                *old(self),
                Notice::DiscardFirst,
            ),
            old(self).attached && !pending(old(self).load) ==> match old(self).load {
                Load::Ready(rows) => {
                    let name = trim(rows.source.base.columns@[column as int].name@);
                    if name.len() == 0 {
                        r is None && *final(self) == *old(self)
                    } else {
                        &&& match direction {
                            Some(direction) => final(self).order matches Some(order) && order.column
                                == column && order.name@ == name && order.direction == direction,
                            None => final(self).order is None,
                        }
                        &&& (*final(self), r) == refreshed(
                            (DataPane { order: final(self).order, ..*old(self) }),
                        )
                    }
                },
                _ => r is None && *final(self) == *old(self),
            },
    {
        if !self.attached {
            self.notice = Some(Notice::Disconnected);
            return None;
        }
        if self.has_pending_edits() {
            self.notice = Some(Notice::DiscardFirst);
            return None;
        }
        let name: String = match &self.load {
            Load::Ready(rows) => trimmed(rows.source.column(column).name.as_str()).to_owned(),
            _ => {
                return None;
            },
        };
        if name.as_str().is_empty() {
            return None;
        }
        self.order = match direction {
            Some(direction) => Some(Order { column, name, direction }),
            None => None,
        };
        self.refresh()
    }

    /// How many rows the server has sent. `None` while there is no result at all;
    /// a row the user is adding is not yet a row of the table.
    pub fn row_count(&self) -> (r: Option<usize>)
        ensures
            match self.load {
                Load::Ready(rows) => r == Some(rows.source.base.rows@.len() as usize) && r.unwrap()
                    == rows.source.base.rows@.len(),
                _ => r is None,
            },
    {
        match &self.load {
            Load::Ready(rows) => Some(rows.source.base_rows()),
            _ => None,
        }
    }

    /// Records `value` against a cell. A value equal to the one the server gave
    /// un-stages the cell instead.
    pub fn stage(&mut self, row: usize, column: usize, value: StagedCell)
        ensures
            same_but_load(*final(self), *old(self)),
            restaged(
                old(self).load,
                final(self).load,
                after_source_stage(
                    staged_in(old(self).load),
                    old(self).load->Ready_0.source.base.rows@,
                    row,
                    column,
                    value@,
                ),
            ),
    {
        match &mut self.load {
            Load::Ready(rows) => {
                rows.source.stage(row, column, value);
            },
            _ => {},
        }
    }

    /// Puts NULL into a cell, deliberately.
    pub fn set_null(&mut self, row: usize, column: usize)
        ensures
            same_but_load(*final(self), *old(self)),
            restaged(
                old(self).load,
                final(self).load,
                after_source_stage(
                    staged_in(old(self).load),
                    old(self).load->Ready_0.source.base.rows@,
                    row,
                    column,
                    StagedText::Null,
                ),
            ),
    {
        self.stage(row, column, StagedCell::Null);
    }

    /// Adds a row after the last one. Answers the row the grid is to scroll to,
    /// and the column to open a field in: the first that takes a value and is not
    /// `hidden`.
    pub fn insert_row(&mut self, hidden: &Vec<usize>) -> (r: Option<(usize, Option<usize>)>)
        requires
            old(self).load matches Load::Ready(rows) ==> rows.source.base.rows@.len()
                + rows.source.edits@.inserted.len() < usize::MAX,
        ensures
            same_but_load(*final(self), *old(self)),
            reading_only(*old(self)) is Some || !(old(self).load is Ready) ==> r is None
                && final(self).load == old(self).load,
            reading_only(*old(self)) is None && old(self).load is Ready ==> {
                let rows = old(self).load->Ready_0;
                let staged = rows.source.edits@;
                &&& restaged(
                    old(self).load,
                    final(self).load,
                    Staged {
                        inserted: staged.inserted.push(
                            Seq::new(
                                rows.source.base.columns@.len(),
                                |i: int| StagedText::Unset,
                            ),
                        ),
                        ..staged
                    },
                )
                &&& r matches Some((row, field)) && row == rows.source.base.rows@.len()
                    + staged.inserted.len() && is_first_field(rows.source, hidden@, field)
            },
    {
        if self.read_only_reason().is_some() {
            return None;
        }
        match &mut self.load {
            Load::Ready(rows) => {
                let ghost before = rows.source;
                let columns: usize = rows.source.column_count();
                rows.source.edits_mut().add_insert(columns);
                let row: usize = rows.source.row_count() - 1;
                let field = first_field(&rows.source, row, hidden);
                assert forall|k: int| #[trigger]
                    takes_field(before, hidden@, k) == takes_field(rows.source, hidden@, k) by {}
                Some((row, field))
            },
            _ => None,
        }
    }

    /// Marks a row to be deleted, or takes the mark off. Only a base row: an
    /// inserted row is not in the table, and discarding it takes it away.
    pub fn toggle_delete(&mut self, row: usize)
        ensures
            same_but_load(*final(self), *old(self)),
            restaged(
                old(self).load,
                final(self).load,
                if reading_only(*old(self)) is None && row
                    < old(self).load->Ready_0.source.base.rows@.len() {
                    after_toggle(staged_in(old(self).load), row)
                } else {
                    staged_in(old(self).load)
                },
            ),
    {
        if self.read_only_reason().is_some() {
            return;
        }
        match &mut self.load {
            Load::Ready(rows) => {
                if row < rows.source.base_rows() {
                    rows.source.edits_mut().toggle_deleted(row);
                }
            },
            _ => {},
        }
    }

    /// Throws away everything staged against one row.
    pub fn discard_row(&mut self, row: usize)
        ensures
            same_but_load(*final(self), *old(self)),
            restaged(
                old(self).load,
                final(self).load,
                after_discard(
                    staged_in(old(self).load),
                    row,
                    old(self).load->Ready_0.source.base.rows@.len() as usize,
                ),
            ),
    {
        match &mut self.load {
            Load::Ready(rows) => {
                let base: usize = rows.source.base_rows();
                rows.source.edits_mut().discard_row(row, base);
            },
            _ => {},
        }
    }

    /// Throws away everything staged, and puts the confirmation away with it: a
    /// plan describes changes that stop existing, and a failure an attempt to
    /// send them.
    pub fn discard_all(&mut self)
        ensures
            same_but_load(
                *final(self),
                (DataPane {
                    confirm_discard: false,
                    preview: None,
                    apply_error: None,
                    notice: if old(self).load is Ready {
                        None
                    } else {
                        old(self).notice
                    },
                    ..*old(self)
                }),
            ),
            restaged(old(self).load, final(self).load, no_edits()),
            !pending(final(self).load),
    {
        self.confirm_discard = false;
        self.preview = None;
        self.apply_error = None;
        let mut ready = false;
        match &mut self.load {
            Load::Ready(rows) => {
                rows.source.edits_mut().discard_all();
                ready = true;
            },
            _ => {},
        }
        if ready {
            self.notice = None;
        }
    }

    /// "Discard" was pressed: asks first, and puts the other modal away.
    pub fn ask_discard(&mut self)
        ensures
            *final(self) == (DataPane { confirm_discard: true, preview: None, ..*old(self) }),
            one_modal(*final(self)),
    {
        self.confirm_discard = true;
        self.preview = None;
    }

    /// The discard was thought better of.
    pub fn keep_edits(&mut self)
        ensures
            *final(self) == (DataPane { confirm_discard: false, ..*old(self) }),
    {
        self.confirm_discard = false;
    }

    /// The preview was turned down: nothing is sent, and nothing is lost.
    pub fn cancel_preview(&mut self)
        ensures
            *final(self) == (DataPane { preview: None, ..*old(self) }),
    {
        self.preview = None;
    }

    /// Whether an apply would plan anything: the rows may be written to, no batch
    /// is out, nothing is being shown for confirmation, and something is staged.
    pub fn may_plan(&self) -> (r: bool)
        ensures
            r == plans(*self),
    {
        self.read_only_reason().is_none() && !self.applying && self.preview.is_none()
            && self.has_pending_edits()
    }

    /// Puts the planned statements up for confirmation, or says why the changes
    /// could not be put into statements. `planned` is what planning came to, and
    /// is looked at only where [`DataPane::may_plan`] holds.
    pub fn apply(&mut self, planned: Result<Vec<String>, String>)
        ensures
            reading_only(*old(self)) is Some || old(self).applying || old(self).preview is Some
                ==> *final(self) == *old(self),
            reading_only(*old(self)) is None && !old(self).applying && old(self).preview is None
                ==> {
                let quiet = DataPane { confirm_discard: false, apply_error: None, ..*old(self) };
                if !pending(old(self).load) {
                    *final(self) == quiet
                } else {
                    match planned {
                        Ok(statements) => if statements@.len() == 0 {
                            *final(self) == quiet
                        } else {
                            *final(self) == (DataPane { preview: Some(statements), ..quiet })
                        },
                        Err(message) => *final(self) == (DataPane {
                            apply_error: Some(
                                ApplyProblem {
                                    error: None,
                                    message: Some(ApplyMessage::Plan(message)),
                                    half_applied: false,
                                },
                            ),
                            ..quiet
                        }),
                    }
                }
            },
            one_modal(*old(self)) ==> one_modal(*final(self)),
    {
        if self.read_only_reason().is_some() || self.applying || self.preview.is_some() {
            return;
        }
        self.confirm_discard = false;
        self.apply_error = None;
        if !self.has_pending_edits() {
            return;
        }
        match planned {
            Ok(statements) => {
                if statements.len() > 0 {
                    self.preview = Some(statements);
                }
            },
            Err(message) => {
                self.apply_error = Some(
                    ApplyProblem {
                        error: None,
                        message: Some(ApplyMessage::Plan(message)),
                        half_applied: false,
                    },
                );
            },
        }
    }

    /// Sends the statements the confirmation showed.
    pub fn confirm_apply(&mut self) -> (r: Option<ApplyRequest>)
        ensures
            old(self).preview is None ==> r is None && *final(self) == *old(self),
            old(self).preview is Some ==> {
                let answered = DataPane { preview: None, ..*old(self) };
                if reading_only(*old(self)) is Some {
                    r is None && *final(self) == answered
                } else if !old(self).attached {
                    r is None && *final(self) == saying(answered, Notice::Disconnected)
                } else {
                    &&& *final(self) == (DataPane {
                        applying: true,
                        apply_error: None,
                        notice: Some(Notice::Applying),
                        ..answered
                    })
                    &&& r == Some(
                        ApplyRequest {
                            generation: old(self).generation,
                            statements: old(self).preview.unwrap(),
                            transactional: old(self).transactional,
                            restore_auto_commit: old(self).restore_auto_commit,
                        },
                    )
                }
            },
    {
        let statements = match self.preview.take() {
            Some(statements) => statements,
            None => {
                return None;
            },
        };
        if self.read_only_reason().is_some() {
            return None;
        }
        if !self.attached {
            self.notice = Some(Notice::Disconnected);
            return None;
        }
        self.applying = true;
        self.apply_error = None;
        self.notice = Some(Notice::Applying);
        Some(
            ApplyRequest {
                generation: self.generation,
                statements,
                transactional: self.transactional,
                restore_auto_commit: self.restore_auto_commit,
            },
        )
    }

    /// Records what one apply did.
    ///
    /// Success throws the staging buffer away and reloads: what the server now
    /// holds is a question only the server can answer. Failure keeps every staged
    /// change exactly where it was and says why.
    pub fn applied(&mut self, generation: u64, outcome: Result<usize, ApplyFailure>) -> (r: Option<
        LoadRequest,
    >)
        requires
            old(self).generation < u64::MAX,
        ensures
            !final(self).applying,
            generation != old(self).generation ==> r is None && *final(self) == (DataPane {
                applying: false,
                ..*old(self)
            }),
            generation == old(self).generation ==> match outcome {
                Ok(count) => {
                    &&& final(self).notice == Some(Notice::Applied(count))
                    &&& old(self).attached ==> r == Some(
                        LoadRequest {
                            generation: (old(self).generation + 1) as u64,
                            fetch_rows: old(self).fetch_rows,
                        },
                    ) && *final(self) == saying(
                        loading_again((DataPane { applying: false, ..*old(self) })),
                        Notice::Applied(count),
                    )
                    &&& !old(self).attached ==> r is None && restaged(
                        old(self).load,
                        final(self).load,
                        no_edits(),
                    ) && same_but_load(
                        *final(self),
                        saying(
                            (DataPane {
                                applying: false,
                                confirm_discard: false,
                                preview: None,
                                apply_error: None,
                                ..*old(self)
                            }),
                            Notice::Applied(count),
                        ),
                    )
                },
                Err(failure) => r is None && *final(self) == (DataPane {
                    applying: false,
                    notice: None,
                    apply_error: Some(problem_of(failure)),
                    ..*old(self)
                }),
            },
    {
        self.applying = false;
        if generation != self.generation {
            return None;
        }
        match outcome {
            Ok(count) => {
                self.discard_all();
                let request = self.refresh();
                self.notice = Some(Notice::Applied(count));
                request
            },
            Err(failure) => {
                self.notice = None;
                let half_applied = failure.half_applied;
                let (error, message) = match failure.stop {
                    ApplyStop::Driver(error) => (Some(error), None),
                    ApplyStop::Stale => (None, Some(ApplyMessage::Stale)),
                };
                self.apply_error = Some(ApplyProblem { error, message, half_applied });
                None
            },
        }
    }

    /// A right-click in the grid asked for its menu.
    pub fn open_context_menu(&mut self, target: MenuTarget)
        ensures
            *final(self) == (DataPane { context_menu: Some(target), ..*old(self) }),
    {
        self.context_menu = Some(target);
    }

    /// Puts the grid's right-click menu away, and says whether there was one.
    pub fn close_context_menu(&mut self) -> (r: bool)
        ensures
            r == (old(self).context_menu is Some),
            *final(self) == (DataPane { context_menu: None, ..*old(self) }),
    {
        let had = self.context_menu.is_some();
        self.context_menu = None;
        had
    }

    /// How much is staged, or `None` while nothing is.
    pub fn counts(&self) -> (r: Option<EditCounts>)
        ensures
            match self.load {
                Load::Ready(rows) => r == counts_of(rows.source.edits@),
                _ => r is None,
            },
    {
        match &self.load {
            Load::Ready(rows) => {
                let counts = rows.source.edits().counts();
                if counts.changed == 0 && counts.inserted == 0 && counts.deleted == 0 {
                    None
                } else {
                    Some(counts)
                }
            },
            _ => None,
        }
    }

    /// The grid's right-click menu: the cell menu, or the heading one.
    ///
    /// The cell half is the copy rows plus the commands only a writable grid has,
    /// drawn even where they cannot be run: a menu that changed shape between a
    /// keyed table and a keyless one would make the user work out which of the
    /// two they were looking at.
    pub fn grid_rows(&self, target: MenuTarget, look: &GridLook) -> (r: Vec<MenuRow<GridCommand>>)
        ensures
            match self.load {
                Load::Ready(rows) => menu_texts(r@) == match target {
                    MenuTarget::Header { column } => header_menu(
                        column,
                        rows.sort,
                        look.hidden,
                        column < rows.source.base.columns@.len(),
                    ),
                    MenuTarget::Cell => cell_menu(rows.source, *look),
                },
                _ => r@.len() == 0,
            },
    {
        match &self.load {
            Load::Ready(rows) => match target {
                MenuTarget::Header { column } => grid_header_rows(
                    column,
                    rows.sort,
                    look.hidden,
                    column < rows.source.column_count(),
                ),
                MenuTarget::Cell => cell_rows(&rows.source, look),
            },
            _ => Vec::new(),
        }
    }

    /// The strip above the rows: how much of them there is, what is staged
    /// against them, and the buttons that act on that.
    pub fn toolbar(&self) -> (r: DataToolbar)
        ensures
            match self.load {
                Load::Ready(rows) => r.pending == counts_of(rows.source.edits@) && r.count == Some(
                    rows.source.base.rows@.len() as usize,
                ),
                _ => r.pending is None && r.count is None,
            },
            r.buttons@ == data_buttons(*self),
    {
        let loading = matches!(self.load, Load::Running);
        let writable = self.read_only_reason().is_none();
        let counts = self.counts();
        let staged = counts.is_some();
        let idle = !loading && !self.applying;
        let mut buttons: Vec<Button> = Vec::new();
        if writable {
            buttons.push(
                Button {
                    id: "data-insert",
                    label: "data.insert_row",
                    variant: ButtonVariant::Secondary,
                    enabled: !loading,
                },
            );
            buttons.push(
                Button {
                    id: "data-apply",
                    label: "data.apply",
                    variant: ButtonVariant::Primary,
                    enabled: staged && idle,
                },
            );
            buttons.push(
                Button {
                    id: "data-discard",
                    label: "data.discard",
                    variant: ButtonVariant::Secondary,
                    enabled: staged && idle,
                },
            );
        }
        buttons.push(
            Button {
                id: "data-refresh",
                label: "data.refresh",
                variant: ButtonVariant::Secondary,
                enabled: idle,
            },
        );
        assert(buttons@ =~= data_buttons(*self));
        DataToolbar { pending: counts, count: self.row_count(), buttons }
    }

    /// The rows, or the one line that stands in for them.
    pub fn body(&self) -> (r: DataBody)
        ensures
            r == body_of(self.load),
    {
        match &self.load {
            Load::Running => DataBody::Loading,
            Load::Failed(_) => DataBody::Failed,
            Load::Ready(rows) => if rows.source.base_rows() == 0 && rows.source.edits().inserted().len()
                == 0 {
                assert(rows.source.edits@.inserted.len() == 0);
                DataBody::Empty
            } else {
                DataBody::Grid
            },
        }
    }

    /// What is drawn, from the bottom up. The menu comes last of all: it paints
    /// above even a modal.
    pub fn layers(&self) -> (r: Vec<Layer>)
        ensures
            r@ == layers_of(*self),
    {
        let mut layers: Vec<Layer> = Vec::new();
        layers.push(Layer::Toolbar);
        if self.read_only_reason().is_some() {
            layers.push(Layer::Banner);
        }
        if self.apply_error.is_some() {
            layers.push(Layer::Failure);
        }
        layers.push(Layer::Body);
        if self.notice.is_some() {
            layers.push(Layer::Notice);
        }
        if self.confirm_discard && self.counts().is_some() {
            layers.push(Layer::ConfirmDiscard);
        }
        if self.preview.is_some() {
            layers.push(Layer::Preview);
        }
        if self.context_menu.is_some() {
            layers.push(Layer::Menu);
        }
        assert(layers@ =~= layers_of(*self));
        layers
    }
}

/// Whether a list holds a number.
fn holds(list: &Vec<usize>, wanted: usize) -> (r: bool)
    ensures
        r == list@.contains(wanted),
{
    let mut i: usize = 0;
    while i < list.len()
        invariant
            i <= list@.len(),
            forall|k: int| 0 <= k < i ==> list@[k] != wanted,
        decreases list.len() - i,
    {
        if list[i] == wanted {
            return true;
        }
        i = i + 1;
    }
    false
}

/// Whether a field can be opened in a column of a new row.
pub open spec fn takes_field(source: EditableSource, hidden: Seq<usize>, column: int) -> bool {
    source.writable && column < source.columns@.len() && source.columns@[column].writable
        && !hidden.contains(column as usize)
}

/// Whether `field` is the first column of a new row that a field can be opened in.
pub open spec fn is_first_field(source: EditableSource, hidden: Seq<usize>, field: Option<usize>) -> bool {
    match field {
        Some(column) => column < source.base.columns@.len() && takes_field(
            source,
            hidden,
            column as int,
        ) && forall|k: int| 0 <= k < column ==> !takes_field(source, hidden, k),
        None => forall|k: int|
            0 <= k < source.base.columns@.len() ==> !takes_field(source, hidden, k),
    }
}

/// The first column of a new row that a field can be opened in.
fn first_field(source: &EditableSource, row: usize, hidden: &Vec<usize>) -> (r: Option<usize>)
    requires
        located(source.edits@.inserted.len(), row, source.base.rows@.len() as usize) matches Some(
            RowRef::Inserted(_),
        ),
    ensures
        is_first_field(*source, hidden@, r),
{
    let columns: usize = source.column_count();
    let mut column: usize = 0;
    while column < columns
        invariant
            column <= columns,
            columns == source.base.columns@.len(),
            located(source.edits@.inserted.len(), row, source.base.rows@.len() as usize) matches Some(
                RowRef::Inserted(_),
            ),
            forall|k: int| 0 <= k < column ==> !takes_field(*source, hidden@, k),
        decreases columns - column,
    {
        if source.cell_editable(row, column) && !holds(hidden, column) {
            return Some(column);
        }
        column = column + 1;
    }
    None
}

/// Whether an apply would plan anything.
pub open spec fn plans(pane: DataPane) -> bool {
    reading_only(pane) is None && !pane.applying && pane.preview is None && pending(pane.load)
}

/// What a failed batch is reported as.
pub open spec fn problem_of(failure: ApplyFailure) -> ApplyProblem {
    match failure.stop {
        ApplyStop::Driver(error) => ApplyProblem {
            error: Some(error),
            message: None,
            half_applied: failure.half_applied,
        },
        ApplyStop::Stale => ApplyProblem {
            error: None,
            message: Some(ApplyMessage::Stale),
            half_applied: failure.half_applied,
        },
    }
}

/// How much is staged, where anything is.
pub open spec fn counts_of(staged: Staged) -> Option<EditCounts> {
    let counts = EditCounts {
        changed: edited_rows(staged).len() as usize,
        inserted: staged.inserted.len() as usize,
        deleted: staged.deleted.len() as usize,
    };
    if edited_rows(staged).len() == 0 && staged.inserted.len() == 0 && staged.deleted.len() == 0 {
        None
    } else {
        Some(counts)
    }
}

/// What the menu needs to know of the grid: what is selected in it, the formats
/// it copies in, and the cell the menu acts on.
#[derive(Debug)]
pub struct GridLook {
    /// Whether nothing is selected.
    pub selection_empty: bool,
    /// The cell the caret was left on, by source column.
    pub cell: Option<(usize, usize)>,
    /// How many columns are hidden.
    pub hidden: usize,
    pub formats: Vec<CopyFormat>,
    /// The modifier a chord is written with.
    pub modifier: String,
}

/// The cell the grid's menu acts on: the caret's row, and the source column of
/// the display position it stands at.
pub fn menu_cell(cursor: Option<(usize, usize)>, visible: &Vec<usize>) -> (r: Option<(usize, usize)>)
    ensures
        r == (match cursor {
            Some((row, position)) => if position < visible@.len() {
                Some((row, visible@[position as int]))
            } else {
                None
            },
            None => None,
        }),
{
    match cursor {
        Some((row, position)) => if position < visible.len() {
            Some((row, visible[position]))
        } else {
            None
        },
        None => None,
    }
}

/// Whether a cell takes a NULL: when it takes anything at all, and the catalogue
/// lets the column hold one.
pub open spec fn takes_null(source: EditableSource, row: usize, column: usize) -> bool {
    &&& source.writable
    &&& column < source.columns@.len()
    &&& source.columns@[column as int].writable
    &&& source.columns@[column as int].nullable
    &&& match located(source.edits@.inserted.len(), row, source.base.rows@.len() as usize) {
        Some(RowRef::Base(row)) => !source.edits@.deleted.contains(row) && !(cell_at(
            source.base.rows@,
            row,
            column,
        ) is Lob),
        Some(RowRef::Inserted(_)) => true,
        None => false,
    }
}

/// The rows of the cell menu.
pub open spec fn cell_menu(source: EditableSource, look: GridLook) -> Seq<MenuText<GridCommand>> {
    let base = source.base.rows@.len();
    let status = match look.cell {
        Some((row, _)) => status_of(source.edits@, row, base as usize),
        None => RowStatus::Unchanged,
    };
    let inserted = look.cell matches Some((row, _)) && row >= base;
    let nullable = look.cell matches Some((row, column)) && takes_null(source, row, column);
    copy_menu(look.formats@, look.selection_empty, look.modifier@).push(MenuText::Separator).push(
        menu_row(plain("data.set_null"), source.writable && nullable, GridCommand::SetNull),
    ).push(MenuText::Separator).push(
        menu_row(plain("data.insert_row"), source.writable, GridCommand::InsertRow),
    ).push(
        menu_row(
            if status == RowStatus::Deleted {
                plain("data.undelete_row")
            } else {
                plain("data.delete_row")
            },
            source.writable && look.cell is Some && !inserted,
            GridCommand::ToggleDelete,
        ),
    ).push(MenuText::Separator).push(
        menu_row(
            plain("data.discard_row"),
            status != RowStatus::Unchanged,
            GridCommand::DiscardRow,
        ),
    )
}

/// The rows of the cell menu.
fn cell_rows(source: &EditableSource, look: &GridLook) -> (r: Vec<MenuRow<GridCommand>>)
    ensures
        menu_texts(r@) == cell_menu(*source, *look),
{
    let mut rows = grid_copy_rows(&look.formats, look.selection_empty, look.modifier.as_str());
    let writable = source.writable();
    let base_rows: usize = source.base_rows();
    let status = match look.cell {
        Some((row, _)) => source.row_status(row),
        None => RowStatus::Unchanged,
    };
    let inserted = match look.cell {
        Some((row, _)) => row >= base_rows,
        None => false,
    };
    let nullable = match look.cell {
        Some((row, column)) => source.cell_editable(row, column) && source.nullable(column),
        None => false,
    };
    push_separator(&mut rows);
    push_row(
        &mut rows,
        Label::plain("data.set_null"),
        writable && nullable,
        false,
        None,
        GridCommand::SetNull,
    );
    push_separator(&mut rows);
    push_row(
        &mut rows,
        Label::plain("data.insert_row"),
        writable,
        false,
        None,
        GridCommand::InsertRow,
    );
    let deletes = if status == RowStatus::Deleted {
        Label::plain("data.undelete_row")
    } else {
        Label::plain("data.delete_row")
    };
    push_row(
        &mut rows,
        deletes,
        writable && look.cell.is_some() && !inserted,
        false,
        None,
        GridCommand::ToggleDelete,
    );
    push_separator(&mut rows);
    push_row(
        &mut rows,
        Label::plain("data.discard_row"),
        status != RowStatus::Unchanged,
        false,
        None,
        GridCommand::DiscardRow,
    );
    rows
}

/// What the strip above the rows shows.
#[derive(Debug)]
pub struct DataToolbar {
    /// How much is staged, while anything is.
    pub pending: Option<EditCounts>,
    /// How many rows the server has sent, once there is a result.
    pub count: Option<usize>,
    pub buttons: Vec<Button>,
}

/// The buttons of the strip. The editing ones are drawn only on a pane that can
/// be written to.
pub open spec fn data_buttons(pane: DataPane) -> Seq<Button> {
    let loading = pane.load is Running;
    let staged = pane.load matches Load::Ready(rows) && counts_of(rows.source.edits@) is Some;
    let idle = !loading && !pane.applying;
    let refresh = Button {
        id: "data-refresh",
        label: "data.refresh",
        variant: ButtonVariant::Secondary,
        enabled: idle,
    };
    if reading_only(pane) is None {
        seq![
            Button {
                id: "data-insert",
                label: "data.insert_row",
                variant: ButtonVariant::Secondary,
                enabled: !loading,
            },
            Button {
                id: "data-apply",
                label: "data.apply",
                variant: ButtonVariant::Primary,
                enabled: staged && idle,
            },
            Button {
                id: "data-discard",
                label: "data.discard",
                variant: ButtonVariant::Secondary,
                enabled: staged && idle,
            },
            refresh,
        ]
    } else {
        seq![refresh]
    }
}

/// What stands under the strip.
#[derive(Clone, Copy, Debug, PartialEq, Eq, Structural)]
pub enum DataBody {
    /// A line that says a load is out.
    Loading,
    /// What the driver said.
    Failed,
    /// A line that says there are no rows.
    Empty,
    /// The rows.
    Grid,
}

/// What stands under the strip. A table nobody has put a row into yet says so,
/// until one is being added.
pub open spec fn body_of(load: Load) -> DataBody {
    match load {
        Load::Running => DataBody::Loading,
        Load::Failed(_) => DataBody::Failed,
        Load::Ready(rows) => if rows.source.base.rows@.len() + rows.source.edits@.inserted.len() == 0 {
            DataBody::Empty
        } else {
            DataBody::Grid
        },
    }
}

/// One part of what is drawn.
#[derive(Clone, Copy, Debug, PartialEq, Eq, Structural)]
pub enum Layer {
    Toolbar,
    /// Why nothing here can be edited.
    Banner,
    /// Why the last apply did not happen.
    Failure,
    Body,
    Notice,
    ConfirmDiscard,
    Preview,
    Menu,
}

/// A layer that is there when something holds.
pub open spec fn layer_if(there: bool, layer: Layer) -> Seq<Layer> {
    if there {
        seq![layer]
    } else {
        Seq::empty()
    }
}

/// What is drawn, from the bottom up.
pub open spec fn layers_of(pane: DataPane) -> Seq<Layer> {
    let counted = pane.load matches Load::Ready(rows) && counts_of(rows.source.edits@) is Some;
    seq![Layer::Toolbar] + layer_if(reading_only(pane) is Some, Layer::Banner) + layer_if(
        pane.apply_error is Some,
        Layer::Failure,
    ) + seq![Layer::Body] + layer_if(pane.notice is Some, Layer::Notice) + layer_if(
        pane.confirm_discard && counted,
        Layer::ConfirmDiscard,
    ) + layer_if(pane.preview is Some, Layer::Preview) + layer_if(
        pane.context_menu is Some,
        Layer::Menu,
    )
}

} // verus!
