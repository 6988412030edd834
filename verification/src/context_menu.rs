//! The rows of a right-click menu, described as data.
//!
//! Two menus are about a result grid whatever it shows: the cell menu's copy rows
//! and the heading menu.

use vstd::prelude::*;

use crate::text::maybe_text;
use crate::view::{plain, with, CaptionText, Label, LabelText};

verus! {

/// One row of a menu.
#[derive(Debug, PartialEq, Eq)]
pub enum MenuRow<C> {
    /// A line between two groups.
    Separator,
    /// Something that can be done.
    Command {
        label: Label,
        enabled: bool,
        checked: bool,
        shortcut: Option<String>,
        command: C,
    },
}

/// One row of a menu.
pub ghost enum MenuText<C> {
    Separator,
    Command {
        label: LabelText,
        enabled: bool,
        checked: bool,
        shortcut: Option<Seq<char>>,
        command: C,
    },
}

impl<C> View for MenuRow<C> {
    type V = MenuText<C>;

    open spec fn view(&self) -> MenuText<C> {
        match self {
            MenuRow::Separator => MenuText::Separator,
            MenuRow::Command { label, enabled, checked, shortcut, command } => MenuText::Command {
                label: label@,
                enabled: *enabled,
                checked: *checked,
                shortcut: maybe_text(*shortcut),
                command: *command,
            },
        }
    }
}

/// The rows of a menu.
pub open spec fn menu_texts<C>(rows: Seq<MenuRow<C>>) -> Seq<MenuText<C>> {
    rows.map_values(|r: MenuRow<C>| r@)
}

/// A row that is neither checked nor reachable by a chord.
pub open spec fn menu_row<C>(label: LabelText, enabled: bool, command: C) -> MenuText<C> {
    MenuText::Command { label, enabled, checked: false, shortcut: None, command }
}

/// Adds a line between two groups.
pub fn push_separator<C>(rows: &mut Vec<MenuRow<C>>)
    ensures
        menu_texts(final(rows)@) == menu_texts(old(rows)@).push(MenuText::Separator),
{
    let ghost before = menu_texts(rows@);
    rows.push(MenuRow::Separator);
    assert(menu_texts(rows@) =~= before.push(MenuText::Separator));
}

/// Adds a row.
pub fn push_row<C>(
    rows: &mut Vec<MenuRow<C>>,
    label: Label,
    enabled: bool,
    checked: bool,
    shortcut: Option<String>,
    command: C,
)
    ensures
        menu_texts(final(rows)@) == menu_texts(old(rows)@).push(
            MenuText::Command {
                label: label@,
                enabled,
                checked,
                shortcut: maybe_text(shortcut),
                command,
            },
        ),
{
    let ghost before = menu_texts(rows@);
    let row = MenuRow::Command { label, enabled, checked, shortcut, command };
    let ghost shown = row@;
    rows.push(row);
    assert(menu_texts(rows@) =~= before.push(shown));
}

/// Which way a column is sorted.
#[derive(Clone, Copy, Debug, PartialEq, Eq, Structural)]
pub enum SortDirection {
    Ascending,
    Descending,
}

/// A form the selection can be copied in, under the name the grid gives it.
#[derive(Debug)]
pub struct CopyFormat {
    pub name: String,
    /// Whether it is the one the copy chord takes.
    pub default: bool,
}

/// What a row of a grid's menu does.
#[derive(Clone, Copy, Debug, PartialEq, Eq, Structural)]
pub enum GridCommand {
    /// Copies the selection in one of the formats.
    Copy(usize),
    SelectAll,
    ClearSelection,
    /// Re-runs the statement in an order, or in none.
    Order(Option<SortDirection>),
    Autofit,
    HideColumn,
    ShowColumns,
    CopyColumnName,
    SetNull,
    InsertRow,
    ToggleDelete,
    DiscardRow,
}

/// A chord: the modifier, and the key.
pub open spec fn chord(modifier: Seq<char>, key: Seq<char>) -> Seq<char> {
    modifier + "+"@ + key
}

/// A chord: the modifier, and the key.
fn chord_text(modifier: &str, key: &str) -> (r: String)
    ensures
        r@ == chord(modifier@, key@),
{
    let mut out = modifier.to_owned();
    out.append("+");
    out.append(key);
    out
}

/// The row that copies in one format. Only the default one carries the chord:
/// it is one chord and copies in one format.
pub open spec fn copy_row(format: CopyFormat, index: usize, enabled: bool, modifier: Seq<char>) -> MenuText<
    GridCommand,
> {
    MenuText::Command {
        label: with("context.copy_as", "format", format.name@),
        enabled,
        checked: false,
        shortcut: if format.default {
            Some(chord(modifier, "C"@))
        } else {
            None
        },
        command: GridCommand::Copy(index),
    }
}

/// What every grid's cell menu offers: the copy formats, then selecting and
/// clearing. Copying and clearing want a selection.
pub open spec fn copy_menu(formats: Seq<CopyFormat>, empty: bool, modifier: Seq<char>) -> Seq<
    MenuText<GridCommand>,
> {
    Seq::new(formats.len(), |i: int| copy_row(formats[i], i as usize, !empty, modifier)).push(
        MenuText::Separator,
    ).push(
        MenuText::Command {
            label: plain("context.select_all"),
            enabled: true,
            checked: false,
            shortcut: Some(chord(modifier, "A"@)),
            command: GridCommand::SelectAll,
        },
    ).push(menu_row(plain("context.clear_selection"), !empty, GridCommand::ClearSelection))
}

/// What every grid's cell menu offers, whatever the grid is showing. The rows act
/// on the selection, of which `empty` says whether there is none.
pub fn grid_copy_rows(formats: &Vec<CopyFormat>, empty: bool, modifier: &str) -> (r: Vec<
    MenuRow<GridCommand>,
>)
    ensures
        menu_texts(r@) == copy_menu(formats@, empty, modifier@),
{
    let mut rows: Vec<MenuRow<GridCommand>> = Vec::new();
    let mut i: usize = 0;
    while i < formats.len()
        invariant
            i <= formats@.len(),
            menu_texts(rows@).len() == i,
            forall|k: int|
                0 <= k < i ==> #[trigger] menu_texts(rows@)[k] == copy_row(
                    formats@[k],
                    k as usize,
                    !empty,
                    modifier@,
                ),
        decreases formats.len() - i,
    {
        let shortcut: Option<String> = if formats[i].default {
            Some(chord_text(modifier, "C"))
        } else {
            None
        };
        let label = Label::with("context.copy_as", "format", formats[i].name.as_str());
        push_row(&mut rows, label, !empty, false, shortcut, GridCommand::Copy(i));
        i = i + 1;
    }
    assert(menu_texts(rows@) =~= Seq::new(
        formats@.len(),
        |i: int| copy_row(formats@[i], i as usize, !empty, modifier@),
    ));
    push_separator(&mut rows);
    push_row(
        &mut rows,
        Label::plain("context.select_all"),
        true,
        false,
        Some(chord_text(modifier, "A")),
        GridCommand::SelectAll,
    );
    push_row(
        &mut rows,
        Label::plain("context.clear_selection"),
        !empty,
        false,
        None,
        GridCommand::ClearSelection,
    );
    rows
}

/// A row of the heading menu that shows whether it holds.
pub open spec fn checked_row(label: LabelText, checked: bool, command: GridCommand) -> MenuText<
    GridCommand,
> {
    MenuText::Command { label, enabled: true, checked, shortcut: None, command }
}

/// What every grid's heading menu offers: the ordering, the column's width and
/// visibility, and its name.
pub open spec fn header_menu(
    column: usize,
    sort: Option<(usize, SortDirection)>,
    hidden: usize,
    named: bool,
) -> Seq<MenuText<GridCommand>> {
    seq![
        checked_row(
            plain("context.sort_asc"),
            sort == Some((column, SortDirection::Ascending)),
            GridCommand::Order(Some(SortDirection::Ascending)),
        ),
        checked_row(
            plain("context.sort_desc"),
            sort == Some((column, SortDirection::Descending)),
            GridCommand::Order(Some(SortDirection::Descending)),
        ),
        menu_row(plain("context.sort_clear"), sort is Some, GridCommand::Order(None)),
        MenuText::Separator,
        menu_row(plain("context.autofit"), true, GridCommand::Autofit),
        menu_row(plain("context.hide_column"), true, GridCommand::HideColumn),
        menu_row(plain("context.show_columns"), hidden > 0, GridCommand::ShowColumns),
        MenuText::Separator,
        menu_row(plain("context.copy_column_name"), named, GridCommand::CopyColumnName),
    ]
}

/// What every grid's heading menu offers, for the heading of `column`: `sort` is
/// the ordering the grid shows, `hidden` how many columns are hidden, and `named`
/// whether the column has a name.
///
/// "Show every column" is the row no other gesture offers: a hidden column has no
/// heading left to right-click.
pub fn grid_header_rows(
    column: usize,
    sort: Option<(usize, SortDirection)>,
    hidden: usize,
    named: bool,
) -> (r: Vec<MenuRow<GridCommand>>)
    ensures
        menu_texts(r@) == header_menu(column, sort, hidden, named),
{
    let ascending = match sort {
        Some((sorted, direction)) => sorted == column && direction == SortDirection::Ascending,
        None => false,
    };
    let descending = match sort {
        Some((sorted, direction)) => sorted == column && direction == SortDirection::Descending,
        None => false,
    };
    let mut rows: Vec<MenuRow<GridCommand>> = Vec::new();
    push_row(
        &mut rows,
        Label::plain("context.sort_asc"),
        true,
        ascending,
        None,
        GridCommand::Order(Some(SortDirection::Ascending)),
    );
    push_row(
        &mut rows,
        Label::plain("context.sort_desc"),
        true,
        descending,
        None,
        GridCommand::Order(Some(SortDirection::Descending)),
    );
    push_row(
        &mut rows,
        Label::plain("context.sort_clear"),
        sort.is_some(),
        false,
        None,
        GridCommand::Order(None),
    );
    push_separator(&mut rows);
    push_row(&mut rows, Label::plain("context.autofit"), true, false, None, GridCommand::Autofit);
    push_row(
        &mut rows,
        Label::plain("context.hide_column"),
        true,
        false,
        None,
        GridCommand::HideColumn,
    );
    push_row(
        &mut rows,
        Label::plain("context.show_columns"),
        hidden > 0,
        false,
        None,
        GridCommand::ShowColumns,
    );
    push_separator(&mut rows);
    push_row(
        &mut rows,
        Label::plain("context.copy_column_name"),
        named,
        false,
        None,
        GridCommand::CopyColumnName,
    );
    assert(menu_texts(rows@) =~= header_menu(column, sort, hidden, named));
    rows
}

/// The copy commands come first, one to a format and in the order of the formats,
/// each named after its format and carrying its place; the one that is the default
/// shows its key. Behind a line stand the two that change the selection. What acts on
/// the selection can be used only where there is one.
pub proof fn every_format_can_be_copied(
    formats: Seq<CopyFormat>,
    empty: bool,
    modifier: Seq<char>,
)
    requires
        formats.len() <= usize::MAX,
    ensures
        ({
            let menu = copy_menu(formats, empty, modifier);
            let end = formats.len() as int;
            &&& menu.len() == end + 3
            &&& forall|i: int|
                0 <= i < end ==> match #[trigger] menu[i] {
                    MenuText::Separator => false,
                    MenuText::Command { label, enabled, checked, shortcut, command } => {
                        &&& label.key == "context.copy_as"
                        &&& label.args == seq![("format", CaptionText::Text(formats[i].name@))]
                        &&& enabled == !empty
                        &&& !checked
                        &&& shortcut == if formats[i].default {
                            Some(modifier + "+"@ + "C"@)
                        } else {
                            None
                        }
                        &&& command == GridCommand::Copy(i as usize)
                    },
                }
            &&& menu[end] is Separator
            &&& menu[end + 1] == (MenuText::Command {
                label: LabelText { key: "context.select_all", args: Seq::empty() },
                enabled: true,
                checked: false,
                shortcut: Some(modifier + "+"@ + "A"@),
                command: GridCommand::SelectAll,
            })
            &&& menu[end + 2] == (MenuText::Command {
                label: LabelText { key: "context.clear_selection", args: Seq::empty() },
                enabled: !empty,
                checked: false,
                shortcut: None,
                command: GridCommand::ClearSelection,
            })
        }),
{
}

/// The menu of a heading marks the order the rows are in, where it is by that column,
/// and offers to take an order off only where there is one, to bring columns back only
/// where some are hidden, and to copy a name only where there is one.
pub proof fn a_heading_offers_what_applies(
    column: usize,
    sort: Option<(usize, SortDirection)>,
    hidden: usize,
    named: bool,
    at: int,
)
    requires
        0 <= at < header_menu(column, sort, hidden, named).len(),
    ensures
        header_menu(column, sort, hidden, named).len() == 9,
        match header_menu(column, sort, hidden, named)[at] {
            MenuText::Separator => at == 3 || at == 7,
            MenuText::Command { label, enabled, checked, shortcut, command } => {
                &&& shortcut is None
                &&& label.args.len() == 0
                &&& match command {
                    GridCommand::Order(Some(direction)) => {
                        &&& enabled
                        &&& checked <==> sort == Some((column, direction))
                        &&& match direction {
                            SortDirection::Ascending => at == 0 && label.key == "context.sort_asc",
                            SortDirection::Descending => at == 1 && label.key
                                == "context.sort_desc",
                        }
                    },
                    GridCommand::Order(None) => at == 2 && label.key == "context.sort_clear"
                        && enabled == (sort is Some) && !checked,
                    GridCommand::Autofit => at == 4 && label.key == "context.autofit" && enabled
                        && !checked,
                    GridCommand::HideColumn => at == 5 && label.key == "context.hide_column"
                        && enabled && !checked,
                    GridCommand::ShowColumns => at == 6 && label.key == "context.show_columns"
                        && enabled == (hidden > 0) && !checked,
                    GridCommand::CopyColumnName => at == 8 && label.key
                        == "context.copy_column_name" && enabled == named && !checked,
                    _ => false,
                }
            },
        },
{
}

/// A row of a menu reads as what it holds.
pub proof fn a_menu_row_reads_as_it_is<C>(row: MenuRow<C>)
    ensures
        match row {
            MenuRow::Separator => row@ is Separator,
            MenuRow::Command { label, enabled, checked, shortcut, command } => row@ == (
            MenuText::Command {
                label: label@,
                enabled,
                checked,
                shortcut: maybe_text(shortcut),
                command,
            }),
        },
{
}

} // verus!
