//! What the connection dialog shows.

use vstd::prelude::*;

use crate::connection::CATALOGUE_PLACEHOLDERS;
use crate::connection_dialog::{
    current, current_driver, ConnectionDialog, DialogText, Level, PendingHostKey,
};
use crate::connection_form::{maybe_driver, template_for, ConnectionForm, FormText};
use crate::profile::{AuthText, DriverDef, DriverText, TunnelAuth};
use crate::template::{hole_names, placeholders_of, template_of};
use crate::text::{maybe_text, same_text, texts};
use crate::view::{
    with, with_three, ButtonVariant, Caption, CaptionText, FormButton, Label, LabelText, Toggle,
    Tone,
};

verus! {

pub const NAME_TAB: usize = 100;

pub const FOLDER_TAB: usize = 105;

pub const COLOR_TAB: usize = 110;

pub const DRIVER_TAB: usize = 120;

pub const MANAGE_DRIVERS_TAB: usize = 121;

pub const URL_PART_TAB: usize = 130;

pub const URL_TAB: usize = 140;

pub const USERNAME_TAB: usize = 150;

pub const PASSWORD_TAB: usize = 155;

pub const PROPS_TAB: usize = 160;

pub const READ_ONLY_TAB: usize = 180;

pub const AUTO_COMMIT_TAB: usize = 181;

pub const CONFIRM_WRITES_TAB: usize = 182;

pub const KEEP_ALIVE_TAB: usize = 190;

pub const KEEP_ALIVE_INTERVAL_TAB: usize = 191;

pub const KEEP_ALIVE_QUERY_TAB: usize = 192;

pub const TUNNEL_TAB: usize = 200;

pub const TUNNEL_HOST_TAB: usize = 201;

pub const TUNNEL_PORT_TAB: usize = 202;

pub const TUNNEL_USER_TAB: usize = 203;

pub const TUNNEL_AUTH_TAB: usize = 204;

pub const TUNNEL_KEY_TAB: usize = 205;

pub const TUNNEL_SECRET_TAB: usize = 206;

pub const TUNNEL_REMOTE_HOST_TAB: usize = 207;

pub const TUNNEL_REMOTE_PORT_TAB: usize = 208;

pub const NEW_TAB: usize = 220;

pub const DUPLICATE_TAB: usize = 221;

pub const DELETE_TAB: usize = 222;

pub const TEST_TAB: usize = 230;

pub const CANCEL_TAB: usize = 240;

pub const SAVE_TAB: usize = 241;

pub const CONNECT_TAB: usize = 242;

/// Colour tags a profile may be marked with.
pub const COLORS: [&'static str; 6] = [
    "#e06c75",
    "#e5c07b",
    "#98c379",
    "#56b6c2",
    "#61afef",
    "#c678dd",
];

/// A swatch to pick a colour tag with.
#[derive(Clone, Copy, Debug, PartialEq, Eq)]
pub struct Swatch {
    /// The tag, or none.
    pub color: Option<&'static str>,
    pub selected: bool,
    pub tab: usize,
}

/// A tag of a swatch, as a text.
pub open spec fn tag_text(color: Option<&'static str>) -> Option<Seq<char>> {
    match color {
        Some(color) => Some(color@),
        None => None,
    }
}

/// The tag of each swatch: none, and then the six colours.
pub open spec fn swatch_tag(k: int) -> Option<&'static str> {
    if k == 0 {
        None
    } else {
        Some(COLORS@[k - 1])
    }
}

/// The swatches of a form.
pub open spec fn swatches(color: Option<Seq<char>>) -> Seq<Swatch> {
    Seq::new(
        7,
        |k: int|
            Swatch {
                color: swatch_tag(k),
                selected: tag_text(swatch_tag(k)) == color,
                tab: (COLOR_TAB + k) as usize,
            },
    )
}

/// The label of a part field.
pub open spec fn part_label(placeholder: Seq<char>) -> CaptionText {
    if placeholder == "host"@ {
        CaptionText::Key("connect.host")
    } else if placeholder == "port"@ {
        CaptionText::Key("connect.port")
    } else if placeholder == "database"@ || placeholder == "service"@ || placeholder == "sid"@
        || placeholder == "file"@ {
        CaptionText::Key("connect.database")
    } else {
        CaptionText::Text(placeholder)
    }
}

/// The label of a part field: the four spellings of the catalogue share one, and
/// anything a template invents is shown under its own name.
pub fn label_for(placeholder: &str) -> (r: Caption)
    ensures
        r@ == part_label(placeholder@),
{
    if same_text(placeholder, "host") {
        Caption::Key("connect.host")
    } else if same_text(placeholder, "port") {
        Caption::Key("connect.port")
    } else if same_text(placeholder, CATALOGUE_PLACEHOLDERS[0]) || same_text(
        placeholder,
        CATALOGUE_PLACEHOLDERS[1],
    ) || same_text(placeholder, CATALOGUE_PLACEHOLDERS[2]) || same_text(
        placeholder,
        CATALOGUE_PLACEHOLDERS[3],
    ) {
        Caption::Key("connect.database")
    } else {
        Caption::Text(placeholder.to_owned())
    }
}

/// The sample value of an empty part field.
pub open spec fn part_sample(name: Seq<char>) -> &'static str {
    if name == "host"@ {
        "db.example.com"
    } else if name == "port"@ {
        "5432"
    } else if name == "file"@ {
        "/var/lib/app.sqlite"
    } else {
        "app"
    }
}

/// The sample value shown in an empty part field.
pub fn placeholder_for(name: &str) -> (r: &'static str)
    ensures
        r == part_sample(name@),
{
    if same_text(name, "host") {
        "db.example.com"
    } else if same_text(name, "port") {
        "5432"
    } else if same_text(name, "file") {
        "/var/lib/app.sqlite"
    } else {
        "app"
    }
}

/// A part field.
#[derive(Debug)]
pub struct PartRow {
    pub name: String,
    pub label: Caption,
    pub sample: &'static str,
}

/// A part field.
pub ghost struct PartText {
    pub name: Seq<char>,
    pub label: CaptionText,
    pub sample: &'static str,
}

impl View for PartRow {
    type V = PartText;

    open spec fn view(&self) -> PartText {
        PartText { name: self.name@, label: self.label@, sample: self.sample }
    }
}

/// The part fields in the order of the template, as far as there is a field.
pub open spec fn part_rows(names: Seq<Seq<char>>, parts: Map<Seq<char>, Seq<char>>) -> Seq<PartText>
    decreases names.len(),
{
    if names.len() == 0 {
        Seq::empty()
    } else {
        let earlier = part_rows(names.drop_last(), parts);
        let name = names.last();
        if parts.dom().contains(name) {
            earlier.push(PartText { name, label: part_label(name), sample: part_sample(name) })
        } else {
            earlier
        }
    }
}

/// The URL's part of the form.
#[derive(Debug)]
pub struct UrlSection {
    pub parts: Vec<PartRow>,
    /// The button that lets the assembled URL back in, where it is overridden.
    pub reset: Option<FormButton>,
    pub hint: &'static str,
}

/// The button that lets the assembled URL back in.
pub open spec fn reset_button() -> FormButton {
    FormButton {
        id: "connect-url-reset",
        label: "connect.url_reset",
        variant: ButtonVariant::Secondary,
        enabled: true,
        tab: None,
    }
}

/// Which of the ways to log in is chosen.
pub open spec fn auth_index(auth: AuthText) -> usize {
    match auth {
        AuthText::Agent => 0,
        AuthText::Key(_) => 1,
        AuthText::Password => 2,
    }
}

/// What a row of the tunnel's section holds.
#[derive(Clone, Copy, Debug, PartialEq, Eq, Structural)]
pub enum TunnelControl {
    HostAndPort,
    User,
    /// The ways to log in, and which of them is chosen.
    Auth(usize),
    Key,
    Secret,
    RemoteHostAndPort,
    Hint,
}

/// A row of the tunnel's section.
#[derive(Clone, Copy, Debug, PartialEq, Eq)]
pub struct TunnelRow {
    pub label: &'static str,
    pub control: TunnelControl,
}

/// The row of the key, where a key logs in.
pub open spec fn key_row(auth: AuthText) -> Seq<TunnelRow> {
    if auth is Key {
        seq![TunnelRow { label: "connect.tunnel_key", control: TunnelControl::Key }]
    } else {
        Seq::empty()
    }
}

/// The row of the secret: the agent holds its own.
pub open spec fn secret_row(auth: AuthText) -> Seq<TunnelRow> {
    match auth {
        AuthText::Agent => Seq::empty(),
        AuthText::Key(_) => seq![
            TunnelRow { label: "connect.tunnel_passphrase", control: TunnelControl::Secret },
        ],
        AuthText::Password => seq![
            TunnelRow { label: "connect.tunnel_password", control: TunnelControl::Secret },
        ],
    }
}

/// The rows of the tunnel's section: none while it is folded away.
pub open spec fn tunnel_rows(form: FormText) -> Seq<TunnelRow> {
    if form.tunnel_enabled && form.tunnel_open {
        seq![
            TunnelRow { label: "connect.tunnel_host", control: TunnelControl::HostAndPort },
            TunnelRow { label: "connect.tunnel_user", control: TunnelControl::User },
            TunnelRow {
                label: "connect.tunnel_auth",
                control: TunnelControl::Auth(auth_index(form.tunnel_auth)),
            },
        ] + key_row(form.tunnel_auth) + secret_row(form.tunnel_auth) + seq![
            TunnelRow { label: "connect.tunnel_remote", control: TunnelControl::RemoteHostAndPort },
            TunnelRow { label: "connect.tunnel_hint", control: TunnelControl::Hint },
        ]
    } else {
        Seq::empty()
    }
}

/// The switch of the tunnel.
pub open spec fn tunnel_toggle(form: FormText) -> Toggle {
    Toggle {
        id: "connect-tunnel",
        label: "connect.tunnel_enabled",
        checked: form.tunnel_enabled,
        tab: TUNNEL_TAB,
    }
}

/// The switches of the session's behaviour.
pub open spec fn behaviour_toggles(form: FormText) -> Seq<Toggle> {
    seq![
        Toggle {
            id: "connect-read-only",
            label: "connect.read_only",
            checked: form.read_only,
            tab: READ_ONLY_TAB,
        },
        Toggle {
            id: "connect-auto-commit",
            label: "connect.auto_commit",
            checked: form.auto_commit,
            tab: AUTO_COMMIT_TAB,
        },
        Toggle {
            id: "connect-confirm-writes",
            label: "connect.confirm_writes",
            checked: form.confirm_writes,
            tab: CONFIRM_WRITES_TAB,
        },
        Toggle {
            id: "connect-keep-alive",
            label: "connect.keep_alive",
            checked: form.keep_alive_enabled,
            tab: KEEP_ALIVE_TAB,
        },
    ]
}

/// The session's behaviour.
#[derive(Debug)]
pub struct BehaviourSection {
    pub toggles: Vec<Toggle>,
    /// Whether the fields of the keep-alive are shown.
    pub keep_alive_fields: bool,
}

/// The driver's part of the form.
#[derive(Debug)]
pub struct DriverSection {
    /// The names of the drivers, in order.
    pub options: Vec<String>,
    /// Their ids, in the same order: two drivers may share a name.
    pub ids: Vec<String>,
    /// The name of the driver of the profile.
    pub selected: Option<String>,
    pub open: bool,
    /// Whether the driver cannot open anything, for want of a JAR.
    pub no_jar: bool,
}

impl ConnectionForm {
    /// The swatches to pick a colour tag with.
    pub fn swatches(&self) -> (r: Vec<Swatch>)
        ensures
            r@ == swatches(self@.color),
    {
        let mut row: Vec<Swatch> = Vec::new();
        row.push(Swatch { color: None, selected: self.color.is_none(), tab: COLOR_TAB });
        let mut i: usize = 0;
        while i < 6
            invariant
                i <= 6,
                row@ == swatches(self@.color).take(i + 1),
            decreases 6 - i,
        {
            let color: &'static str = COLORS[i];
            let selected = match &self.color {
                Some(chosen) => same_text(chosen.as_str(), color),
                None => false,
            };
            row.push(Swatch { color: Some(color), selected, tab: COLOR_TAB + i + 1 });
            assert(row@ =~= swatches(self@.color).take(i + 2));
            i = i + 1;
        }
        assert(row@ =~= swatches(self@.color));
        row
    }

    /// The part fields, the URL, and what is said of it.
    pub fn url_section(&self, driver: Option<&DriverDef>) -> (r: UrlSection)
        ensures
            r.parts@.map_values(|p: PartRow| p@) == part_rows(
                hole_names(template_of(template_for(maybe_driver(driver))).holes),
                self@.url_parts,
            ),
            r.reset == (if self@.url_overridden {
                Some(reset_button())
            } else {
                None
            }),
            r.hint == (if self@.url_overridden {
                "connect.url_overridden"
            } else {
                "connect.url_hint"
            }),
    {
        let template = match driver {
            Some(driver) => driver.url_template.clone(),
            None => String::new(),
        };
        assert(template@ =~= template_for(maybe_driver(driver)));
        let names = placeholders_of(template.as_str());
        let ghost all = texts(names@);
        let mut parts: Vec<PartRow> = Vec::new();
        let mut i: usize = 0;
        assert(all.take(0) =~= Seq::<Seq<char>>::empty());
        assert(parts@.map_values(|p: PartRow| p@) =~= Seq::<PartText>::empty());
        while i < names.len()
            invariant
                i <= names@.len(),
                all == texts(names@),
                parts@.map_values(|p: PartRow| p@) == part_rows(
                    all.take(i as int),
                    self@.url_parts,
                ),
            decreases names.len() - i,
        {
            let ghost next = all.take(i + 1);
            assert(next.drop_last() =~= all.take(i as int));
            assert(next.last() == names@[i as int]@);
            let ghost before = parts@.map_values(|p: PartRow| p@);
            if self.url_parts.get(names[i].as_str()).is_some() {
                let row = PartRow {
                    name: names[i].clone(),
                    label: label_for(names[i].as_str()),
                    sample: placeholder_for(names[i].as_str()),
                };
                let ghost shown = row@;
                parts.push(row);
                assert(parts@.map_values(|p: PartRow| p@) =~= before.push(shown));
            }
            i = i + 1;
        }
        assert(all.take(all.len() as int) =~= all);
        UrlSection {
            parts,
            reset: if self.url_overridden {
                Some(
                    FormButton {
                        id: "connect-url-reset",
                        label: "connect.url_reset",
                        variant: ButtonVariant::Secondary,
                        enabled: true,
                        tab: None,
                    },
                )
            } else {
                None
            },
            hint: if self.url_overridden {
                "connect.url_overridden"
            } else {
                "connect.url_hint"
            },
        }
    }

    /// The switch of the tunnel, and the rows behind it.
    pub fn tunnel_section(&self) -> (r: (Toggle, Vec<TunnelRow>))
        ensures
            r.0 == tunnel_toggle(self@),
            r.1@ == tunnel_rows(self@),
    {
        let mut rows: Vec<TunnelRow> = Vec::new();
        if self.tunnel_enabled && self.tunnel_open {
            let chosen: usize = match &self.tunnel_auth {
                TunnelAuth::Agent => 0,
                TunnelAuth::Key { .. } => 1,
                TunnelAuth::Password => 2,
            };
            rows.push(
                TunnelRow { label: "connect.tunnel_host", control: TunnelControl::HostAndPort },
            );
            rows.push(TunnelRow { label: "connect.tunnel_user", control: TunnelControl::User });
            rows.push(
                TunnelRow { label: "connect.tunnel_auth", control: TunnelControl::Auth(chosen) },
            );
            match &self.tunnel_auth {
                TunnelAuth::Agent => {},
                TunnelAuth::Key { .. } => {
                    rows.push(
                        TunnelRow { label: "connect.tunnel_key", control: TunnelControl::Key },
                    );
                    rows.push(
                        TunnelRow {
                            label: "connect.tunnel_passphrase",
                            control: TunnelControl::Secret,
                        },
                    );
                },
                TunnelAuth::Password => {
                    rows.push(
                        TunnelRow {
                            label: "connect.tunnel_password",
                            control: TunnelControl::Secret,
                        },
                    );
                },
            }
            rows.push(
                TunnelRow {
                    label: "connect.tunnel_remote",
                    control: TunnelControl::RemoteHostAndPort,
                },
            );
            rows.push(TunnelRow { label: "connect.tunnel_hint", control: TunnelControl::Hint });
        }
        assert(rows@ =~= tunnel_rows(self@));
        (
            Toggle {
                id: "connect-tunnel",
                label: "connect.tunnel_enabled",
                checked: self.tunnel_enabled,
                tab: TUNNEL_TAB,
            },
            rows,
        )
    }

    /// The switches of the session's behaviour.
    pub fn behaviour_section(&self) -> (r: BehaviourSection)
        ensures
            r.toggles@ == behaviour_toggles(self@),
            r.keep_alive_fields == self@.keep_alive_enabled,
    {
        let mut toggles: Vec<Toggle> = Vec::new();
        toggles.push(
            Toggle {
                id: "connect-read-only",
                label: "connect.read_only",
                checked: self.read_only,
                tab: READ_ONLY_TAB,
            },
        );
        toggles.push(
            Toggle {
                id: "connect-auto-commit",
                label: "connect.auto_commit",
                checked: self.auto_commit,
                tab: AUTO_COMMIT_TAB,
            },
        );
        toggles.push(
            Toggle {
                id: "connect-confirm-writes",
                label: "connect.confirm_writes",
                checked: self.confirm_writes,
                tab: CONFIRM_WRITES_TAB,
            },
        );
        toggles.push(
            Toggle {
                id: "connect-keep-alive",
                label: "connect.keep_alive",
                checked: self.keep_alive_enabled,
                tab: KEEP_ALIVE_TAB,
            },
        );
        assert(toggles@ =~= behaviour_toggles(self@));
        BehaviourSection { toggles, keep_alive_fields: self.keep_alive_enabled }
    }
}

/// The names of the drivers.
pub open spec fn driver_names(drivers: Seq<DriverText>) -> Seq<Seq<char>> {
    drivers.map_values(|d: DriverText| d.name)
}

/// The ids of the drivers.
pub open spec fn driver_ids(drivers: Seq<DriverText>) -> Seq<Seq<char>> {
    drivers.map_values(|d: DriverText| d.id)
}

/// The colour of a message.
pub open spec fn tone_of(level: Level) -> Tone {
    match level {
        Level::Success => Tone::Success,
        Level::Error => Tone::Danger,
        Level::Busy => Tone::Muted,
    }
}

/// The question about a bastion's key, and the button that trusts it.
#[derive(Debug)]
pub struct HostKeyRow {
    pub question: Label,
    pub trust: FormButton,
}

/// The question about deleting a profile, and its two answers.
#[derive(Debug)]
pub struct ConfirmRow {
    pub question: Label,
    pub cancel: FormButton,
    pub delete: FormButton,
}

/// What stands under the form.
#[derive(Debug)]
pub struct DialogFooter {
    pub status: Option<(Tone, Label)>,
    pub host_key: Option<HostKeyRow>,
    pub confirm: Option<ConfirmRow>,
    pub buttons: Vec<FormButton>,
}

/// The question about a bastion's key.
pub open spec fn key_question(pending: PendingHostKey) -> LabelText {
    with_three(
        "connect.host_key_question",
        "host",
        pending.host@,
        "algorithm",
        pending.algorithm@,
        "fingerprint",
        pending.fingerprint@,
    )
}

/// The question about deleting the selected profile.
pub open spec fn delete_question(dialog: DialogText) -> LabelText {
    with(
        "connect.delete_confirm",
        "name",
        match current(dialog) {
            Some(profile) => profile.name,
            None => Seq::empty(),
        },
    )
}

/// A button under the form; none of them can be pressed while a test is in
/// flight.
pub open spec fn footer_button(
    id: &'static str,
    label: &'static str,
    variant: ButtonVariant,
    tab: usize,
    testing: bool,
) -> FormButton {
    FormButton { id, label, variant, enabled: !testing, tab: Some(tab) }
}

/// The buttons under the form.
pub open spec fn footer_buttons(testing: bool) -> Seq<FormButton> {
    seq![
        footer_button("connect-new", "connect.new", ButtonVariant::Secondary, NEW_TAB, testing),
        footer_button(
            "connect-duplicate",
            "connect.duplicate",
            ButtonVariant::Secondary,
            DUPLICATE_TAB,
            testing,
        ),
        footer_button(
            "connect-delete",
            "connect.delete",
            ButtonVariant::Secondary,
            DELETE_TAB,
            testing,
        ),
        footer_button("connect-test", "connect.test", ButtonVariant::Secondary, TEST_TAB, testing),
        footer_button(
            "connect-cancel",
            "common.cancel",
            ButtonVariant::Secondary,
            CANCEL_TAB,
            testing,
        ),
        footer_button("connect-save", "common.save", ButtonVariant::Secondary, SAVE_TAB, testing),
        footer_button(
            "connect-connect",
            "connect.connect",
            ButtonVariant::Primary,
            CONNECT_TAB,
            testing,
        ),
    ]
}

/// Whether a footer is the one of a dialog.
pub open spec fn is_footer(footer: DialogFooter, dialog: DialogText) -> bool {
    &&& match (footer.status, dialog.status) {
        (Some(shown), Some(status)) => shown.0 == tone_of(status.level) && shown.1@
            == status.message,
        (None, None) => true,
        _ => false,
    }
    &&& match (footer.host_key, dialog.pending_host_key) {
        (Some(row), Some(pending)) => row.question@ == key_question(pending) && row.trust == (
        FormButton {
            id: "connect-trust-host-key",
            label: "connect.trust_host_key",
            variant: ButtonVariant::Secondary,
            enabled: true,
            tab: None,
        }),
        (None, None) => true,
        _ => false,
    }
    &&& match footer.confirm {
        Some(row) => dialog.confirming && row.question@ == delete_question(dialog) && row.cancel
            == (FormButton {
            id: "connect-delete-cancel",
            label: "common.cancel",
            variant: ButtonVariant::Secondary,
            enabled: true,
            tab: None,
        }) && row.delete == (FormButton {
            id: "connect-delete-confirm",
            label: "connect.delete",
            variant: ButtonVariant::Danger,
            enabled: true,
            tab: None,
        }),
        None => !dialog.confirming,
    }
    &&& footer.buttons@ == footer_buttons(dialog.testing)
}

/// What the dialog draws.
#[derive(Clone, Copy, Debug, PartialEq, Eq, Structural)]
pub enum DialogBody {
    /// Nothing: it is closed.
    Hidden,
    /// The driver manager, and nothing of the form.
    Manager,
    /// The list, the form and the footer.
    Form,
}

/// What the dialog draws: the driver manager stands in place of the form, so that
/// only controls on screen are in the tab order.
pub open spec fn shown_body(dialog: DialogText) -> DialogBody {
    if !dialog.open {
        DialogBody::Hidden
    } else if dialog.managing {
        DialogBody::Manager
    } else {
        DialogBody::Form
    }
}

fn form_button(
    id: &'static str,
    label: &'static str,
    variant: ButtonVariant,
    tab: usize,
    testing: bool,
) -> (r: FormButton)
    ensures
        r == footer_button(id, label, variant, tab, testing),
{
    FormButton { id, label, variant, enabled: !testing, tab: Some(tab) }
}

impl ConnectionDialog {
    /// The driver picker, and what is said of the driver that is picked.
    pub fn driver_section(&self) -> (r: DriverSection)
        ensures
            texts(r.options@) == driver_names(self@.drivers),
            texts(r.ids@) == driver_ids(self@.drivers),
            maybe_text(r.selected) == (match current_driver(self@) {
                Some(driver) => Some(driver.name),
                None => None,
            }),
            r.open == self@.driver_list_open,
            r.no_jar == (match current_driver(self@) {
                Some(driver) => driver.jars.len() == 0,
                None => false,
            }),
    {
        let mut options: Vec<String> = Vec::new();
        let mut ids: Vec<String> = Vec::new();
        let mut i: usize = 0;
        while i < self.drivers.drivers.len()
            invariant
                i <= self.drivers.drivers@.len(),
                options@.len() == i,
                ids@.len() == i,
                forall|k: int| 0 <= k < i ==> (#[trigger] options@[k])@ == self@.drivers[k].name,
                forall|k: int| 0 <= k < i ==> (#[trigger] ids@[k])@ == self@.drivers[k].id,
            decreases self.drivers.drivers.len() - i,
        {
            options.push(self.drivers.drivers[i].name.clone());
            ids.push(self.drivers.drivers[i].id.clone());
            i = i + 1;
        }
        assert(texts(options@) =~= driver_names(self@.drivers));
        assert(texts(ids@) =~= driver_ids(self@.drivers));
        let (selected, no_jar) = match self.current_driver() {
            Some(driver) => (Some(driver.name.clone()), driver.jars.len() == 0),
            None => (None, false),
        };
        DriverSection { options, ids, selected, open: self.driver_list_open, no_jar }
    }

    /// The message strip and the buttons.
    pub fn footer(&self) -> (r: DialogFooter)
        ensures
            is_footer(r, self@),
    {
        let status = match &self.status {
            Some(status) => Some(
                (
                    match status.level {
                        Level::Success => Tone::Success,
                        Level::Error => Tone::Danger,
                        Level::Busy => Tone::Muted,
                    },
                    status.message.copy(),
                ),
            ),
            None => None,
        };
        let host_key = match &self.pending_host_key {
            Some(pending) => Some(
                HostKeyRow {
                    question: Label::with_three(
                        "connect.host_key_question",
                        "host",
                        pending.host.as_str(),
                        "algorithm",
                        pending.algorithm.as_str(),
                        "fingerprint",
                        pending.fingerprint.as_str(),
                    ),
                    trust: FormButton {
                        id: "connect-trust-host-key",
                        label: "connect.trust_host_key",
                        variant: ButtonVariant::Secondary,
                        enabled: true,
                        tab: None,
                    },
                },
            ),
            None => None,
        };
        let confirm = if self.confirming {
            let name = match self.current() {
                Some(profile) => profile.name.clone(),
                None => String::new(),
            };
            let question = Label::with("connect.delete_confirm", "name", name.as_str());
            assert(question@ =~= delete_question(self@));
            Some(
                ConfirmRow {
                    question,
                    cancel: FormButton {
                        id: "connect-delete-cancel",
                        label: "common.cancel",
                        variant: ButtonVariant::Secondary,
                        enabled: true,
                        tab: None,
                    },
                    delete: FormButton {
                        id: "connect-delete-confirm",
                        label: "connect.delete",
                        variant: ButtonVariant::Danger,
                        enabled: true,
                        tab: None,
                    },
                },
            )
        } else {
            None
        };
        DialogFooter { status, host_key, confirm, buttons: self.footer_buttons() }
    }

    fn footer_buttons(&self) -> (r: Vec<FormButton>)
        ensures
            r@ == footer_buttons(self@.testing),
    {
        let testing = self.testing;
        let mut buttons: Vec<FormButton> = Vec::new();
        buttons.push(
            form_button("connect-new", "connect.new", ButtonVariant::Secondary, NEW_TAB, testing),
        );
        buttons.push(
            form_button(
                "connect-duplicate",
                "connect.duplicate",
                ButtonVariant::Secondary,
                DUPLICATE_TAB,
                testing,
            ),
        );
        buttons.push(
            form_button(
                "connect-delete",
                "connect.delete",
                ButtonVariant::Secondary,
                DELETE_TAB,
                testing,
            ),
        );
        buttons.push(
            form_button("connect-test", "connect.test", ButtonVariant::Secondary, TEST_TAB, testing),
        );
        buttons.push(
            form_button(
                "connect-cancel",
                "common.cancel",
                ButtonVariant::Secondary,
                CANCEL_TAB,
                testing,
            ),
        );
        buttons.push(
            form_button("connect-save", "common.save", ButtonVariant::Secondary, SAVE_TAB, testing),
        );
        buttons.push(
            form_button(
                "connect-connect",
                "connect.connect",
                ButtonVariant::Primary,
                CONNECT_TAB,
                testing,
            ),
        );
        assert(buttons@ =~= footer_buttons(testing));
        buttons
    }

    /// What the dialog draws.
    pub fn body(&self) -> (r: DialogBody)
        ensures
            r == shown_body(self@),
    {
        if !self.open {
            DialogBody::Hidden
        } else if self.managing {
            DialogBody::Manager
        } else {
            DialogBody::Form
        }
    }

    /// What the dialog is headed with: the driver manager brings its own title.
    pub fn title(&self) -> (r: &'static str)
        ensures
            r == (if self@.managing {
                "driver.title"
            } else {
                "connect.title"
            }),
    {
        if self.managing {
            "driver.title"
        } else {
            "connect.title"
        }
    }
}

} // verus!
