//! The connection dialog: the saved profiles, and the form of the one being
//! edited.
//!
//! The dialog edits the saved profiles and hands a profile over to be opened. It
//! reads no file and opens no socket: whatever has to be read, written or tried
//! is asked for, and its outcome is handed back.

use vstd::prelude::*;

use crate::connection::{
    error_class, driver_at_fault, error_message, named_error, refused_credentials, ConnectError,
    Credentials, JdbcError,
};
use crate::connection_form::{
    blank_form, collected, form_of, in_step, maybe_driver, text_or_empty, with_parts, with_url,
    ConnectionForm, FormText,
};
use crate::keyed::{
    first_match_is_first, found, put, put_is_found, put_keeps_others, without,
};
use crate::profile::{
    fresh_profile, has_driver_id, has_id, ConnectionProfile, ConnectionStore, DriverDef,
    DriverStore, DriverText, ProfileText,
};
use crate::text::{blank, is_blank, maybe_text, same_text, texts, trim, trimmed};
use crate::view::{filled_two, plain, with, Caption, CaptionText, Label, LabelText};

verus! {

/// How a message under the form is meant.
#[derive(Clone, Copy, Debug, PartialEq, Eq, Structural)]
pub enum Level {
    /// A test succeeded, or a profile was saved.
    Success,
    /// Something failed.
    Error,
    /// Something is in flight.
    Busy,
}

/// A bastion's host key the user has been asked to rule on. Never one that has
/// changed: that gets no button.
#[derive(Debug)]
pub struct PendingHostKey {
    pub host: String,
    pub port: u16,
    pub algorithm: String,
    pub fingerprint: String,
}

/// A message under the form.
#[derive(Debug)]
pub struct Status {
    pub level: Level,
    pub message: Label,
}

/// A message under the form.
pub ghost struct StatusText {
    pub level: Level,
    pub message: LabelText,
}

impl View for Status {
    type V = StatusText;

    open spec fn view(&self) -> StatusText {
        StatusText { level: self.level, message: self.message@ }
    }
}

/// A message that may be absent.
pub open spec fn maybe_status(status: Option<Status>) -> Option<StatusText> {
    match status {
        Some(status) => Some(status@),
        None => None,
    }
}

/// The connection dialog.
pub struct ConnectionDialog {
    /// Whether the dialog is visible.
    pub open: bool,
    /// The saved profiles, and unsaved edits to the selected one.
    pub store: ConnectionStore,
    pub drivers: DriverStore,
    /// The profile being edited.
    pub selected: Option<u128>,
    pub driver_list_open: bool,
    pub form: ConnectionForm,
    /// Whether the driver manager stands in place of the form.
    pub managing: bool,
    pub status: Option<Status>,
    /// A host key the last attempt refused.
    pub pending_host_key: Option<PendingHostKey>,
    /// Whether a test is in flight.
    pub testing: bool,
    /// Whether the question about deleting is up.
    pub confirming: bool,
    /// Whether the focus is to move into the form.
    pub pending_focus: bool,
}

/// The connection dialog.
#[verifier::ext_equal]
pub ghost struct DialogText {
    pub open: bool,
    pub store: Seq<ProfileText>,
    pub drivers: Seq<DriverText>,
    pub selected: Option<u128>,
    pub driver_list_open: bool,
    pub form: FormText,
    pub managing: bool,
    pub status: Option<StatusText>,
    pub pending_host_key: Option<PendingHostKey>,
    pub testing: bool,
    pub confirming: bool,
    pub pending_focus: bool,
}

impl View for ConnectionDialog {
    type V = DialogText;

    open spec fn view(&self) -> DialogText {
        DialogText {
            open: self.open,
            store: self.store@,
            drivers: self.drivers@,
            selected: self.selected,
            driver_list_open: self.driver_list_open,
            form: self.form@,
            managing: self.managing,
            status: maybe_status(self.status),
            pending_host_key: self.pending_host_key,
            testing: self.testing,
            confirming: self.confirming,
            pending_focus: self.pending_focus,
        }
    }
}

/// A profile nothing has been typed into.
pub open spec fn blank_profile() -> ProfileText {
    fresh_profile(0, Seq::empty(), Seq::empty(), Seq::empty(), Seq::empty())
}

/// The profile being edited, as it is saved.
pub open spec fn current(dialog: DialogText) -> Option<ProfileText> {
    match dialog.selected {
        Some(id) => found(dialog.store, has_id(id)),
        None => None,
    }
}

/// The profile being edited, or a blank one.
pub open spec fn current_or_blank(dialog: DialogText) -> ProfileText {
    match current(dialog) {
        Some(profile) => profile,
        None => blank_profile(),
    }
}

/// The driver of the profile being edited.
pub open spec fn current_driver(dialog: DialogText) -> Option<DriverText> {
    match current(dialog) {
        Some(profile) => found(dialog.drivers, has_driver_id(profile.driver_id)),
        None => None,
    }
}

/// The profile the form spells.
pub open spec fn edited(dialog: DialogText) -> ProfileText {
    collected(dialog.form, current_or_blank(dialog))
}

/// The dialog with a message under the form.
pub open spec fn reporting(dialog: DialogText, level: Level, message: LabelText) -> DialogText {
    DialogText { status: Some(StatusText { level, message }), ..dialog }
}

/// The dialog with the selected profile copied into the form.
pub open spec fn filled_in(dialog: DialogText) -> DialogText {
    DialogText {
        form: form_of(dialog.form, current_or_blank(dialog), current_driver(dialog)),
        ..dialog
    }
}

/// Which profile a dialog opens over: the one it was asked for where it is
/// saved, and the first otherwise.
pub open spec fn shown_first(store: Seq<ProfileText>, wanted: Option<u128>) -> Option<u128> {
    match wanted {
        Some(id) => if found(store, has_id(id)) is Some {
            Some(id)
        } else if store.len() > 0 {
            Some(store[0].id)
        } else {
            None
        },
        None => if store.len() > 0 {
            Some(store[0].id)
        } else {
            None
        },
    }
}

/// What a new profile starts with.
#[derive(Debug)]
pub struct NewProfile {
    /// An identity no profile has.
    pub id: u128,
    /// What a profile without a name of its own is called.
    pub name: String,
    /// Whether writes are confirmed, as the settings have it.
    pub confirm_writes: bool,
}

/// A new profile, for the first of the drivers.
pub open spec fn new_profile(drivers: Seq<DriverText>, fresh: NewProfile) -> ProfileText {
    ProfileText {
        confirm_writes: fresh.confirm_writes,
        ..fresh_profile(
            fresh.id,
            fresh.name@,
            if drivers.len() > 0 {
                drivers[0].id
            } else {
                Seq::empty()
            },
            Seq::empty(),
            Seq::empty(),
        )
    }
}

/// The dialog with a profile put among the saved ones and selected.
pub open spec fn turned_to(dialog: DialogText, profile: ProfileText) -> DialogText {
    filled_in(
        DialogText {
            store: put(dialog.store, has_id(profile.id), profile),
            selected: Some(profile.id),
            confirming: false,
            status: None,
            ..dialog
        },
    )
}

/// The dialog with a new profile added and selected.
pub open spec fn with_new(dialog: DialogText, fresh: NewProfile) -> DialogText {
    let turned = turned_to(dialog, new_profile(dialog.drivers, fresh));
    DialogText {
        form: with_url(turned.form, current_driver(turned)),
        pending_focus: true,
        ..turned
    }
}

/// The dialog over the selected profile, or over a new one where none is.
pub open spec fn over_something(dialog: DialogText, fresh: NewProfile) -> DialogText {
    if dialog.selected is None {
        with_new(dialog, fresh)
    } else {
        filled_in(dialog)
    }
}

/// The dialog once it is open.
pub open spec fn opened(
    dialog: DialogText,
    wanted: Option<u128>,
    store: Option<Seq<ProfileText>>,
    drivers: Seq<DriverText>,
    fresh: NewProfile,
) -> DialogText {
    let profiles = match store {
        Some(profiles) => profiles,
        None => dialog.store,
    };
    let over = over_something(
        DialogText {
            store: profiles,
            drivers,
            selected: shown_first(profiles, wanted),
            ..dialog
        },
        fresh,
    );
    DialogText {
        open: true,
        status: None,
        pending_host_key: None,
        confirming: false,
        managing: false,
        pending_focus: true,
        ..over
    }
}

/// The dialog once it is closed: a test in flight is abandoned.
pub open spec fn closed(dialog: DialogText) -> DialogText {
    DialogText {
        open: false,
        status: None,
        pending_host_key: None,
        confirming: false,
        managing: false,
        driver_list_open: false,
        testing: false,
        ..dialog
    }
}

/// The dialog with another profile selected. The edits to the one being left are
/// kept, unless its name was taken away.
pub open spec fn turned_over(dialog: DialogText, id: u128) -> DialogText {
    if dialog.selected == Some(id) {
        dialog
    } else {
        let left = edited(dialog);
        filled_in(
            DialogText {
                store: if is_blank(left.name) {
                    dialog.store
                } else {
                    put(dialog.store, has_id(left.id), left)
                },
                selected: Some(id),
                confirming: false,
                status: None,
                ..dialog
            },
        )
    }
}

/// The dialog with the URL fields of the driver made anew; an override is dropped
/// where `anew` says so.
pub open spec fn following_driver(dialog: DialogText, anew: bool) -> DialogText {
    let driver = current_driver(dialog);
    let parts = with_parts(dialog.form, driver);
    DialogText {
        form: with_url(
            if anew {
                FormText { url_overridden: false, ..parts }
            } else {
                parts
            },
            driver,
        ),
        ..dialog
    }
}

/// The dialog with a profile among the saved ones that names another driver.
pub open spec fn naming_driver(
    dialog: DialogText,
    profile: ProfileText,
    id: Seq<char>,
) -> DialogText {
    DialogText {
        store: put(dialog.store, has_id(profile.id), ProfileText { driver_id: id, ..profile }),
        driver_list_open: false,
        ..dialog
    }
}

/// The dialog with the profile being edited pointed at another driver. An
/// override was written for the old driver's grammar, and is one no longer.
pub open spec fn driven_by(dialog: DialogText, id: Seq<char>) -> DialogText {
    match current(dialog) {
        Some(profile) => if profile.driver_id == id {
            dialog
        } else {
            following_driver(naming_driver(dialog, profile, id), true)
        },
        None => dialog,
    }
}

/// The dialog once the drivers have changed under it.
pub open spec fn drivers_are(dialog: DialogText, drivers: Option<Seq<DriverText>>) -> DialogText {
    following_driver(
        DialogText {
            drivers: match drivers {
                Some(drivers) => drivers,
                None => dialog.drivers,
            },
            ..dialog
        },
        false,
    )
}

/// Which profile a dialog opens over.
pub fn profile_to_show(store: &ConnectionStore, wanted: Option<u128>) -> (r: Option<u128>)
    ensures
        r == shown_first(store@, wanted),
{
    match wanted {
        Some(id) => if store.get(id).is_some() {
            Some(id)
        } else {
            store.first()
        },
        None => store.first(),
    }
}

/// What `Escape` comes to.
#[derive(Clone, Copy, Debug, PartialEq, Eq, Structural)]
pub enum Escape {
    /// The driver manager has it.
    Manager,
    /// One layer of the dialog is gone.
    Layer,
    /// The dialog is dismissed.
    Dismissed,
}

/// What `Escape` comes to: one layer at a time, the topmost first.
pub open spec fn escaping(dialog: DialogText) -> Escape {
    if dialog.managing {
        Escape::Manager
    } else if dialog.driver_list_open || dialog.confirming {
        Escape::Layer
    } else {
        Escape::Dismissed
    }
}

/// The dialog after `Escape`.
pub open spec fn escaped(dialog: DialogText) -> DialogText {
    if dialog.managing {
        dialog
    } else if dialog.driver_list_open {
        DialogText { driver_list_open: false, ..dialog }
    } else if dialog.confirming {
        DialogText { confirming: false, ..dialog }
    } else {
        closed(dialog)
    }
}

impl ConnectionDialog {
    /// Builds the dialog. Nothing is read until it is opened.
    pub fn new(drivers: DriverStore) -> (r: Self)
        ensures
            r@ == (DialogText {
                open: false,
                store: Seq::empty(),
                drivers: drivers@,
                selected: None,
                driver_list_open: false,
                form: blank_form(),
                managing: false,
                status: None,
                pending_host_key: None,
                testing: false,
                confirming: false,
                pending_focus: false,
            }),
    {
        ConnectionDialog {
            open: false,
            store: ConnectionStore::default(),
            drivers,
            selected: None,
            driver_list_open: false,
            form: ConnectionForm::new(),
            managing: false,
            status: None,
            pending_host_key: None,
            testing: false,
            confirming: false,
            pending_focus: false,
        }
    }

    /// Whether the dialog is visible.
    pub fn is_open(&self) -> (r: bool)
        ensures
            r == self@.open,
    {
        self.open
    }

    /// The profile being edited, as it is saved.
    pub fn current(&self) -> (r: Option<&ConnectionProfile>)
        ensures
            match r {
                Some(profile) => current(self@) == Some(profile@),
                None => current(self@) is None,
            },
    {
        match self.selected {
            Some(id) => self.store.get(id),
            None => None,
        }
    }

    /// The driver of the profile being edited.
    pub fn current_driver(&self) -> (r: Option<&DriverDef>)
        ensures
            maybe_driver(r) == current_driver(self@),
    {
        match self.current() {
            Some(profile) => self.drivers.get(profile.driver_id.as_str()),
            None => None,
        }
    }

    fn current_or_blank(&self) -> (r: ConnectionProfile)
        ensures
            r@ == current_or_blank(self@),
    {
        match self.current() {
            Some(profile) => profile.copy(),
            None => ConnectionProfile::default(),
        }
    }

    fn copy_driver(&self) -> (r: Option<DriverDef>)
        ensures
            (match r {
                Some(driver) => Some(driver@),
                None => None::<DriverText>,
            }) == current_driver(self@),
    {
        match self.current_driver() {
            Some(driver) => Some(driver.copy()),
            None => None,
        }
    }

    /// Copies the selected profile into every control. The secrets are blank
    /// until `fill_secrets` brings what the keychain holds of a profile that is
    /// saved.
    fn fill_form(&mut self)
        ensures
            final(self)@ == filled_in(old(self)@),
    {
        let ghost before = self@;
        let profile = self.current_or_blank();
        let driver = self.copy_driver();
        match &driver {
            Some(driver) => {
                self.form.fill(&profile, Some(driver));
            },
            None => {
                self.form.fill(&profile, None);
            },
        }
        assert(self@ =~= filled_in(before));
    }

    /// The profile whose secrets belong in the form, if it is saved.
    pub fn secrets_wanted(&self) -> (r: Option<u128>)
        ensures
            r == (match current(self@) {
                Some(profile) => Some(profile.id),
                None => None,
            }),
    {
        match self.current() {
            Some(profile) => Some(profile.id),
            None => None,
        }
    }

    /// Puts what the keychain answered into the two masked fields.
    pub fn fill_secrets(&mut self, password: Option<String>, tunnel: Option<String>)
        ensures
            final(self)@ == (DialogText {
                form: (FormText {
                    password: text_or_empty(maybe_text(password)),
                    tunnel_secret: text_or_empty(maybe_text(tunnel)),
                    ..old(self)@.form
                }),
                ..old(self)@
            }),
    {
        self.form.fill_secrets(password, tunnel);
    }

    /// The profile the form spells.
    pub fn collect(&self) -> (r: ConnectionProfile)
        ensures
            r@ == edited(self@),
    {
        let base = self.current_or_blank();
        self.form.collect(&base)
    }

    /// Shows the dialog with `id` selected. `store` is what could be read of the
    /// saved profiles.
    pub fn open_at(
        &mut self,
        id: u128,
        store: Option<ConnectionStore>,
        drivers: DriverStore,
        fresh: NewProfile,
    )
        ensures
            final(self)@ == opened(
                old(self)@,
                Some(id),
                (match store {
                    Some(store) => Some(store@),
                    None => None,
                }),
                drivers@,
                fresh,
            ),
    {
        self.open_showing(Some(id), store, drivers, fresh);
    }

    /// Shows the dialog.
    pub fn open(&mut self, store: Option<ConnectionStore>, drivers: DriverStore, fresh: NewProfile)
        ensures
            final(self)@ == opened(
                old(self)@,
                None,
                (match store {
                    Some(store) => Some(store@),
                    None => None,
                }),
                drivers@,
                fresh,
            ),
    {
        self.open_showing(None, store, drivers, fresh);
    }

    fn open_showing(
        &mut self,
        wanted: Option<u128>,
        store: Option<ConnectionStore>,
        drivers: DriverStore,
        fresh: NewProfile,
    )
        ensures
            final(self)@ == opened(
                old(self)@,
                wanted,
                (match store {
                    Some(store) => Some(store@),
                    None => None,
                }),
                drivers@,
                fresh,
            ),
    {
        match store {
            Some(store) => {
                self.store = store;
            },
            None => {},
        }
        self.drivers = drivers;
        self.selected = profile_to_show(&self.store, wanted);
        self.show_something(fresh);
        self.open = true;
        self.status = None;
        self.pending_host_key = None;
        self.confirming = false;
        self.managing = false;
        self.pending_focus = true;
    }

    fn show_something(&mut self, fresh: NewProfile)
        ensures
            final(self)@ == over_something(old(self)@, fresh),
    {
        if self.selected.is_none() {
            self.add_profile(fresh);
        } else {
            self.fill_form();
        }
    }

    /// Hides the dialog, abandoning any test in flight.
    pub fn close(&mut self)
        ensures
            final(self)@ == closed(old(self)@),
    {
        self.open = false;
        self.status = None;
        self.pending_host_key = None;
        self.confirming = false;
        self.managing = false;
        self.driver_list_open = false;
        self.testing = false;
    }

    /// Puts a message under the form.
    fn report(&mut self, level: Level, message: Label)
        ensures
            final(self)@ == reporting(old(self)@, level, message@),
    {
        self.status = Some(Status { level, message });
    }

    /// Puts a profile among the saved ones and selects it.
    fn turn_to(&mut self, profile: ConnectionProfile)
        ensures
            final(self)@ == turned_to(old(self)@, profile@),
    {
        let ghost before = self@;
        let ghost shown = profile@;
        let id: u128 = profile.id;
        self.store.upsert(profile);
        self.selected = Some(id);
        self.confirming = false;
        self.status = None;
        assert(self@ =~= (DialogText {
            store: put(before.store, has_id(shown.id), shown),
            selected: Some(shown.id),
            confirming: false,
            status: None,
            ..before
        }));
        self.fill_form();
    }

    /// Adds a blank profile and selects it.
    pub fn add_profile(&mut self, fresh: NewProfile)
        ensures
            final(self)@ == with_new(old(self)@, fresh),
    {
        let ghost before = self@;
        let driver_id = match self.drivers.first() {
            Some(id) => id,
            None => String::new(),
        };
        let mut profile = ConnectionProfile::new(
            fresh.id,
            fresh.name.as_str(),
            driver_id.as_str(),
            "",
            "",
        );
        profile.confirm_writes = fresh.confirm_writes;
        proof {
            reveal_strlit("");
            assert(profile@ =~= new_profile(before.drivers, fresh));
        }
        self.turn_to(profile);
        let driver = self.copy_driver();
        match &driver {
            Some(driver) => {
                self.form.refresh_url(Some(driver));
            },
            None => {
                self.form.refresh_url(None);
            },
        }
        self.pending_focus = true;
        assert(self@ =~= with_new(before, fresh));
    }

    /// Selects `id`, keeping the edits to the profile being left.
    pub fn select(&mut self, id: u128)
        ensures
            final(self)@ == turned_over(old(self)@, id),
    {
        let ghost before = self@;
        let same = match self.selected {
            Some(selected) => selected == id,
            None => false,
        };
        if same {
            return;
        }
        let left = self.collect();
        if !blank(left.name.as_str()) {
            self.store.upsert(left);
        }
        self.selected = Some(id);
        self.confirming = false;
        self.status = None;
        self.fill_form();
        assert(self@ =~= turned_over(before, id));
    }

    /// What a copy of the profile is called, for the words of the interface to be
    /// put round it.
    pub fn copy_name(&self) -> (r: Label)
        ensures
            r@ == with("connect.copy_name", "name", edited(self@).name),
    {
        let profile = self.collect();
        Label::with("connect.copy_name", "name", profile.name.as_str())
    }

    /// Copies the profile under another identity and selects the copy. The
    /// password is not copied.
    pub fn duplicate_profile(&mut self, id: u128, name: String)
        ensures
            final(self)@ == turned_to(
                old(self)@,
                (ProfileText { id, name: name@, ..edited(old(self)@) }),
            ),
    {
        let ghost before = self@;
        let mut profile = self.collect();
        profile.id = id;
        profile.name = name;
        assert(profile@ =~= (ProfileText { id, name: name@, ..edited(before) }));
        self.turn_to(profile);
    }

    /// Takes the selected profile out. What is given back is the identity both of
    /// whose secrets are to be deleted before the profiles are written.
    pub fn delete_profile(&mut self) -> (r: Option<u128>)
        ensures
            r == old(self)@.selected,
            final(self)@ == (DialogText {
                confirming: false,
                store: match old(self)@.selected {
                    Some(id) => without(old(self)@.store, has_id(id)),
                    None => old(self)@.store,
                },
                ..old(self)@
            }),
    {
        self.confirming = false;
        match self.selected {
            Some(id) => {
                self.store.remove(id);
                Some(id)
            },
            None => None,
        }
    }

    /// Turns to the first of the profiles that are left, or to a new one. `error`
    /// says why they could not be written, if they could not.
    pub fn deleted(&mut self, error: Option<String>, fresh: NewProfile)
        ensures
            final(self)@ == ({
                let before = old(self)@;
                over_something(
                    (DialogText {
                        selected: shown_first(before.store, None),
                        status: match error {
                            Some(error) => Some(
                                StatusText {
                                    level: Level::Error,
                                    message: with("connect.save_failed", "error", error@),
                                },
                            ),
                            None => before.status,
                        },
                        ..before
                    }),
                    fresh,
                )
            }),
    {
        match error {
            Some(error) => {
                self.report(
                    Level::Error,
                    Label::with("connect.save_failed", "error", error.as_str()),
                );
            },
            None => {},
        }
        self.selected = self.store.first();
        self.show_something(fresh);
    }

    /// Makes the part fields of the driver anew, and the URL with them; an
    /// override is dropped where `anew` says so.
    fn follow_driver(&mut self, anew: bool)
        ensures
            final(self)@ == following_driver(old(self)@, anew),
    {
        let driver = self.copy_driver();
        match &driver {
            Some(driver) => {
                self.form.rebuild_url_parts(Some(driver));
                if anew {
                    self.form.reset_url(Some(driver));
                } else {
                    self.form.refresh_url(Some(driver));
                }
            },
            None => {
                self.form.rebuild_url_parts(None);
                if anew {
                    self.form.reset_url(None);
                } else {
                    self.form.refresh_url(None);
                }
            },
        }
    }

    /// Points the profile at another driver and makes the URL fields anew.
    pub fn set_driver(&mut self, id: String)
        ensures
            final(self)@ == driven_by(old(self)@, id@),
    {
        let profile = match self.current() {
            Some(profile) => profile.copy(),
            None => {
                return;
            },
        };
        if same_text(profile.driver_id.as_str(), id.as_str()) {
            return;
        }
        self.name_driver(profile, id);
        self.follow_driver(true);
    }

    fn name_driver(&mut self, profile: ConnectionProfile, id: String)
        ensures
            final(self)@ == naming_driver(old(self)@, profile@, id@),
    {
        let mut profile = profile;
        let ghost was = profile@;
        profile.driver_id = id;
        assert(profile@ =~= (ProfileText { driver_id: id@, ..was }));
        self.store.upsert(profile);
        self.driver_list_open = false;
    }

    /// Follows a change of the drivers, as far as they could be read.
    pub fn drivers_changed(&mut self, drivers: Option<DriverStore>)
        ensures
            final(self)@ == drivers_are(
                old(self)@,
                (match drivers {
                    Some(drivers) => Some(drivers@),
                    None => None,
                }),
            ),
    {
        match drivers {
            Some(drivers) => {
                self.drivers = drivers;
            },
            None => {},
        }
        self.follow_driver(false);
    }

    /// Puts the driver manager in place of the form.
    pub fn open_driver_manager(&mut self)
        ensures
            final(self)@ == (DialogText {
                managing: true,
                driver_list_open: false,
                ..old(self)@
            }),
    {
        self.managing = true;
        self.driver_list_open = false;
    }

    /// Puts the form back.
    pub fn manager_dismissed(&mut self)
        ensures
            final(self)@ == (DialogText { managing: false, pending_focus: true, ..old(self)@ }),
    {
        self.managing = false;
        self.pending_focus = true;
    }

    /// `Escape`, one layer at a time.
    pub fn escape(&mut self) -> (r: Escape)
        ensures
            r == escaping(old(self)@),
            final(self)@ == escaped(old(self)@),
    {
        if self.managing {
            return Escape::Manager;
        }
        if self.driver_list_open {
            self.driver_list_open = false;
            return Escape::Layer;
        }
        if self.confirming {
            self.confirming = false;
            return Escape::Layer;
        }
        self.close();
        Escape::Dismissed
    }

    /// Whether the focus moves into the name field now: once after the dialog has
    /// opened, and not while the driver manager stands there.
    pub fn apply_pending_focus(&mut self) -> (r: bool)
        ensures
            r == (old(self)@.pending_focus && !old(self)@.managing),
            final(self)@ == (DialogText {
                pending_focus: old(self)@.pending_focus && old(self)@.managing,
                ..old(self)@
            }),
    {
        if !self.pending_focus || self.managing {
            return false;
        }
        self.pending_focus = false;
        true
    }

    /// Brings the URL field and the part fields in step, while the form is what
    /// is shown.
    pub fn keep_in_step(&mut self, url_focused: bool)
        ensures
            final(self)@ == (if old(self)@.managing {
                old(self)@
            } else {
                DialogText {
                    form: in_step(old(self)@.form, current_driver(old(self)@), url_focused),
                    ..old(self)@
                }
            }),
    {
        if self.managing {
            return;
        }
        let driver = self.copy_driver();
        match &driver {
            Some(driver) => {
                self.form.keep_in_step(Some(driver), url_focused);
            },
            None => {
                self.form.keep_in_step(None, url_focused);
            },
        }
    }
}

/// One of the two secrets of a profile.
#[derive(Clone, Copy, Debug, PartialEq, Eq, Structural)]
pub enum SecretSlot {
    Connection,
    Tunnel,
}

/// A secret that is to be put in the keychain, or taken out of it.
pub struct SecretWrite {
    pub slot: SecretSlot,
    /// What to put in; nothing means that the entry is to go.
    pub secret: Option<String>,
}

/// A secret that is to be put in the keychain, or taken out of it.
pub ghost struct WriteText {
    pub slot: SecretSlot,
    pub secret: Option<Seq<char>>,
}

impl View for SecretWrite {
    type V = WriteText;

    open spec fn view(&self) -> WriteText {
        WriteText { slot: self.slot, secret: maybe_text(self.secret) }
    }
}

/// What a masked field comes to in the keychain: a blank one is a deletion, not
/// an empty password.
pub open spec fn secret_write(slot: SecretSlot, field: Seq<char>) -> WriteText {
    WriteText {
        slot,
        secret: if trim(field).len() == 0 {
            None
        } else {
            Some(trim(field))
        },
    }
}

/// What the keychain is to be told: the password always, the tunnel's secret
/// only where there is a tunnel.
pub open spec fn secret_writes(form: FormText) -> Seq<WriteText> {
    let password = secret_write(SecretSlot::Connection, form.password);
    if form.tunnel_enabled {
        seq![password, secret_write(SecretSlot::Tunnel, form.tunnel_secret)]
    } else {
        seq![password]
    }
}

/// Whether the form spells a profile that can be saved: it has a name and a URL.
pub open spec fn can_save(dialog: DialogText) -> bool {
    !is_blank(edited(dialog).name) && !is_blank(edited(dialog).url)
}

/// The dialog once saving has been asked for.
pub open spec fn saving(dialog: DialogText) -> DialogText {
    let profile = edited(dialog);
    if is_blank(profile.name) {
        reporting(dialog, Level::Error, plain("connect.name_required"))
    } else if is_blank(profile.url) {
        reporting(dialog, Level::Error, plain("connect.url_required"))
    } else {
        DialogText { store: put(dialog.store, has_id(profile.id), profile), ..dialog }
    }
}

/// The dialog once each failure of the keychain has been reported: the last one
/// stays.
pub open spec fn refusals_reported(dialog: DialogText, failures: Seq<Seq<char>>) -> DialogText {
    if failures.len() == 0 {
        dialog
    } else {
        reporting(
            dialog,
            Level::Error,
            with("connect.keychain_failed", "error", failures.last()),
        )
    }
}

/// The dialog once the profiles have been written, or not, and the keychain told.
pub open spec fn written(
    dialog: DialogText,
    id: u128,
    error: Option<Seq<char>>,
    failures: Seq<Seq<char>>,
) -> DialogText {
    match error {
        Some(error) => reporting(dialog, Level::Error, with("connect.save_failed", "error", error)),
        None => DialogText { selected: Some(id), ..refusals_reported(dialog, failures) },
    }
}

/// Whether an error stands under the form.
pub open spec fn shows_error(dialog: DialogText) -> bool {
    match dialog.status {
        Some(status) => status.level == Level::Error,
        None => false,
    }
}

/// What a failed test is answered with besides the message.
pub open spec fn hint_for(error: ConnectError) -> Option<&'static str> {
    if refused_credentials(error) {
        Some("connect.hint_auth")
    } else if driver_at_fault(error) {
        Some("connect.hint_driver")
    } else {
        match error {
            ConnectError::JvmStart(_) => Some("connect.hint_jvm"),
            ConnectError::HostKeyUnknown { .. } => Some("connect.hint_host_key"),
            ConnectError::HostKeyMismatch { .. } => Some("connect.hint_host_key"),
            _ => if error_class(error) == Some("08"@) {
                Some("connect.hint_network")
            } else {
                None
            },
        }
    }
}

/// A suggestion for a failure that can be classified, by its translation key.
pub fn error_hint(error: &ConnectError) -> (r: Option<&'static str>)
    ensures
        r == hint_for(*error),
{
    if error.is_authentication() {
        return Some("connect.hint_auth");
    }
    if error.is_driver() {
        return Some("connect.hint_driver");
    }
    match error {
        ConnectError::JvmStart(_) => Some("connect.hint_jvm"),
        ConnectError::HostKeyUnknown { .. } => Some("connect.hint_host_key"),
        ConnectError::HostKeyMismatch { .. } => Some("connect.hint_host_key"),
        _ => {
            let network = match error.sql_state_class() {
                Some(class) => same_text(class, "08"),
                None => false,
            };
            if network {
                Some("connect.hint_network")
            } else {
                None
            }
        },
    }
}

/// The message a failed test leaves.
pub open spec fn failure_message(error: ConnectError) -> LabelText {
    match hint_for(error) {
        Some(hint) => filled_two(
            "connect.test_failed_hint",
            "error",
            CaptionText::Text(error_message(error)),
            "hint",
            CaptionText::Key(hint),
        ),
        None => with("connect.test_failed", "error", error_message(error)),
    }
}

/// The host key a failure leaves to rule on: only one that nobody has trusted
/// yet.
pub open spec fn key_to_rule_on(error: ConnectError, port: u16) -> Option<PendingHostKey> {
    match error {
        ConnectError::HostKeyUnknown { host, fingerprint, algorithm } => Some(
            PendingHostKey { host, port, algorithm, fingerprint },
        ),
        _ => None,
    }
}

/// The port of the bastion the form names.
pub open spec fn bastion_port(dialog: DialogText) -> u16 {
    match edited(dialog).tunnel {
        Some(tunnel) => tunnel.port,
        None => 22,
    }
}

/// The dialog once a test has come back.
pub open spec fn after_test(
    dialog: DialogText,
    outcome: Result<Option<String>, ConnectError>,
) -> DialogText {
    let idle = DialogText { testing: false, ..dialog };
    match outcome {
        Ok(Some(product)) => reporting(
            idle,
            Level::Success,
            with("connect.test_ok", "product", product@),
        ),
        Ok(None) => reporting(idle, Level::Success, plain("connect.test_ok_unnamed")),
        Err(error) => reporting(
            DialogText { pending_host_key: key_to_rule_on(error, bastion_port(dialog)), ..idle },
            Level::Error,
            failure_message(error),
        ),
    }
}

/// What a test tries.
pub struct TestRequest {
    pub profile: ConnectionProfile,
    pub driver: DriverDef,
    pub credentials: Credentials,
}

/// What a test comes to, once a session has been opened: it has to answer, and
/// it has to close.
pub fn test_outcome(
    product: Option<String>,
    ping: Result<(), JdbcError>,
    closed: Result<(), JdbcError>,
) -> (r: Result<Option<String>, ConnectError>)
    ensures
        r == (match (ping, closed) {
            (Err(error), _) => Err::<Option<String>, ConnectError>(named_error(error)),
            (Ok(_), Err(error)) => Err(named_error(error)),
            (Ok(_), Ok(_)) => Ok(product),
        }),
{
    match ping {
        Err(error) => Err(ConnectError::from(error)),
        Ok(_) => match closed {
            Err(error) => Err(ConnectError::from(error)),
            Ok(_) => Ok(product),
        },
    }
}

impl ConnectionDialog {
    /// Puts what the form spells among the saved profiles, where it has a name and
    /// a URL. The profiles are then to be written, and after them the secrets.
    pub fn persist(&mut self) -> (r: Option<ConnectionProfile>)
        ensures
            final(self)@ == saving(old(self)@),
            match r {
                Some(profile) => can_save(old(self)@) && profile@ == edited(old(self)@),
                None => !can_save(old(self)@),
            },
    {
        let profile = self.collect();
        if blank(profile.name.as_str()) {
            self.report(Level::Error, Label::plain("connect.name_required"));
            return None;
        }
        if blank(profile.url.as_str()) {
            self.report(Level::Error, Label::plain("connect.url_required"));
            return None;
        }
        self.store.upsert(profile.copy());
        Some(profile)
    }

    /// What the keychain is to be told once the profiles are written.
    pub fn secret_writes(&self) -> (r: Vec<SecretWrite>)
        ensures
            r@.map_values(|w: SecretWrite| w@) == secret_writes(self@.form),
    {
        let mut writes: Vec<SecretWrite> = Vec::new();
        let password = trimmed(self.form.password.as_str());
        writes.push(
            SecretWrite {
                slot: SecretSlot::Connection,
                secret: if password.unicode_len() == 0 {
                    None
                } else {
                    Some(password.to_owned())
                },
            },
        );
        if self.form.tunnel_enabled {
            let secret = trimmed(self.form.tunnel_secret.as_str());
            writes.push(
                SecretWrite {
                    slot: SecretSlot::Tunnel,
                    secret: if secret.unicode_len() == 0 {
                        None
                    } else {
                        Some(secret.to_owned())
                    },
                },
            );
        }
        assert(writes@.map_values(|w: SecretWrite| w@) =~= secret_writes(self@.form));
        writes
    }

    /// Takes note of how the profiles were written, and the secrets after them.
    /// Says whether the profile is saved.
    pub fn persisted(&mut self, id: u128, error: Option<String>, failures: &Vec<String>) -> (r: bool)
        ensures
            r == (error is None),
            final(self)@ == written(
                old(self)@,
                id,
                maybe_text(error),
                texts(failures@),
            ),
    {
        match error {
            Some(error) => {
                self.report(
                    Level::Error,
                    Label::with("connect.save_failed", "error", error.as_str()),
                );
                false
            },
            None => {
                if failures.len() > 0 {
                    let last = &failures[failures.len() - 1];
                    assert(last@ == texts(failures@).last());
                    self.report(
                        Level::Error,
                        Label::with("connect.keychain_failed", "error", last.as_str()),
                    );
                }
                self.selected = Some(id);
                true
            },
        }
    }

    /// Whether an error stands under the form.
    fn error_stands(&self) -> (r: bool)
        ensures
            r == shows_error(self@),
    {
        match &self.status {
            Some(status) => status.level == Level::Error,
            None => false,
        }
    }

    /// Reports that a profile is saved, unless an error stands under the form.
    pub fn save(&mut self, saved: bool)
        ensures
            final(self)@ == (if saved && !shows_error(old(self)@) {
                reporting(old(self)@, Level::Success, plain("connect.saved"))
            } else {
                old(self)@
            }),
    {
        if saved && !self.error_stands() {
            self.report(Level::Success, Label::plain("connect.saved"));
        }
    }

    /// Whether a profile that is saved is handed over to be opened, which closes
    /// the dialog: not where an error stands under the form.
    pub fn connect(&mut self, saved: bool) -> (r: bool)
        ensures
            r == (saved && !shows_error(old(self)@)),
            final(self)@ == (if r {
                closed(old(self)@)
            } else {
                old(self)@
            }),
    {
        if !saved || self.error_stands() {
            return false;
        }
        self.close();
        true
    }

    /// Tries what the form holds, without saving it first: the secrets come out of
    /// the form too.
    pub fn test_connection(&mut self) -> (r: Option<TestRequest>)
        ensures
            ({
                let profile = edited(old(self)@);
                match found(old(self)@.drivers, has_driver_id(profile.driver_id)) {
                    Some(driver) => {
                        &&& r matches Some(request) && request.profile@ == profile
                            && request.driver@ == driver && maybe_text(
                            request.credentials.password,
                        ) == Some(trim(old(self)@.form.password)) && maybe_text(
                            request.credentials.tunnel,
                        ) == (if profile.tunnel is Some {
                            Some(trim(old(self)@.form.tunnel_secret))
                        } else {
                            None
                        })
                        &&& final(self)@ == reporting(
                            (DialogText {
                                pending_host_key: None,
                                testing: true,
                                ..old(self)@
                            }),
                            Level::Busy,
                            plain("connect.testing"),
                        )
                    },
                    None => r is None && final(self)@ == reporting(
                        old(self)@,
                        Level::Error,
                        with("connect.no_driver", "driver", profile.driver_id),
                    ),
                }
            }),
    {
        let profile = self.collect();
        let driver = match self.drivers.get(profile.driver_id.as_str()) {
            Some(driver) => driver.copy(),
            None => {
                self.report(
                    Level::Error,
                    Label::with("connect.no_driver", "driver", profile.driver_id.as_str()),
                );
                return None;
            },
        };
        let credentials = Credentials::typed(
            Some(trimmed(self.form.password.as_str()).to_owned()),
            match &profile.tunnel {
                Some(_) => Some(trimmed(self.form.tunnel_secret.as_str()).to_owned()),
                None => None,
            },
        );
        self.pending_host_key = None;
        self.report(Level::Busy, Label::plain("connect.testing"));
        self.testing = true;
        Some(TestRequest { profile, driver, credentials })
    }

    /// Reports what a test produced.
    pub fn tested(&mut self, outcome: Result<Option<String>, ConnectError>)
        ensures
            final(self)@ == after_test(old(self)@, outcome),
    {
        self.testing = false;
        match outcome {
            Ok(Some(product)) => {
                self.report(
                    Level::Success,
                    Label::with("connect.test_ok", "product", product.as_str()),
                );
            },
            Ok(None) => {
                self.report(Level::Success, Label::plain("connect.test_ok_unnamed"));
            },
            Err(error) => {
                let port: u16 = match self.collect().tunnel {
                    Some(tunnel) => tunnel.port,
                    None => 22,
                };
                self.pending_host_key = match &error {
                    ConnectError::HostKeyUnknown { host, fingerprint, algorithm } => Some(
                        PendingHostKey {
                            host: host.clone(),
                            port,
                            algorithm: algorithm.clone(),
                            fingerprint: fingerprint.clone(),
                        },
                    ),
                    _ => None,
                };
                let message = error.message();
                let label = match error_hint(&error) {
                    Some(hint) => Label::filled_two(
                        "connect.test_failed_hint",
                        "error",
                        Caption::Text(message),
                        "hint",
                        Caption::Key(hint),
                    ),
                    None => Label::with("connect.test_failed", "error", message.as_str()),
                };
                self.report(Level::Error, label);
            },
        }
    }

    /// Takes note of how a host key was put on record.
    pub fn host_key_trusted(&mut self, error: Option<String>)
        ensures
            final(self)@ == ({
                let asked = DialogText { pending_host_key: None, ..old(self)@ };
                match error {
                    None => reporting(asked, Level::Success, plain("connect.host_key_trusted")),
                    Some(error) => reporting(
                        asked,
                        Level::Error,
                        with("connect.save_failed", "error", error@),
                    ),
                }
            }),
    {
        self.pending_host_key = None;
        match error {
            None => {
                self.report(Level::Success, Label::plain("connect.host_key_trusted"));
            },
            Some(error) => {
                self.report(
                    Level::Error,
                    Label::with("connect.save_failed", "error", error.as_str()),
                );
            },
        }
    }
}

/// A key that has changed gets no button: only one that nobody has trusted yet is
/// left to rule on, whatever the test came to.
pub proof fn a_changed_key_is_never_offered(
    dialog: DialogText,
    outcome: Result<Option<String>, ConnectError>,
)
    requires
        dialog.pending_host_key is None,
    ensures
        after_test(dialog, outcome).pending_host_key is Some <==> outcome matches Err(
            ConnectError::HostKeyUnknown { .. },
        ),
{
}

/// A test saves nothing: it leaves the saved profiles and the form as they are.
pub proof fn a_test_saves_nothing(
    dialog: DialogText,
    outcome: Result<Option<String>, ConnectError>,
)
    ensures
        after_test(dialog, outcome).store == dialog.store,
        after_test(dialog, outcome).form == dialog.form,
        after_test(dialog, outcome).selected == dialog.selected,
{
}

/// A profile that is saved is found again under its identity, as the form spelt
/// it.
pub proof fn a_saved_profile_is_found(dialog: DialogText)
    requires
        can_save(dialog),
    ensures
        found(saving(dialog).store, has_id(edited(dialog).id)) == Some(edited(dialog)),
{
    put_is_found(dialog.store, has_id(edited(dialog).id), edited(dialog));
}

/// Edits are kept while the list is walked: a profile that is left for another
/// is still there as the form spelt it, and coming back to it turns to it so.
pub proof fn a_profile_left_keeps_its_edits(dialog: DialogText, id: u128)
    requires
        current(dialog) is Some,
        dialog.selected != Some(id),
        !is_blank(edited(dialog).name),
    ensures
        found(turned_over(dialog, id).store, has_id(edited(dialog).id)) == Some(edited(dialog)),
        current(turned_over(turned_over(dialog, id), edited(dialog).id)) == Some(edited(dialog)),
{
    let own = dialog.selected.unwrap();
    let left = edited(dialog);
    first_match_is_first(dialog.store, has_id(own));
    assert(left.id == own);
    put_is_found(dialog.store, has_id(own), left);
    let away = turned_over(dialog, id);
    first_match_is_first(away.store, has_id(id));
    let other = edited(away);
    match current(away) {
        Some(profile) => {
            assert(other.id == id);
            put_keeps_others(away.store, has_id(id), other, has_id(own));
        },
        None => {
            assert(other.name.len() == 0);
        },
    }
}

/// A copy carries no secret with it, and the profile it was made from stays as it
/// is saved.
pub proof fn a_copy_carries_no_secret(dialog: DialogText, id: u128, name: Seq<char>)
    requires
        dialog.selected != Some(id),
    ensures
        ({
            let copy = turned_to(dialog, ProfileText { id, name, ..edited(dialog) });
            &&& current(copy) == Some(ProfileText { id, name, ..edited(dialog) })
            &&& copy.form.password.len() == 0
            &&& copy.form.tunnel_secret.len() == 0
            &&& dialog.selected matches Some(own) ==> found(copy.store, has_id(own)) == found(
                dialog.store,
                has_id(own),
            )
        }),
{
    let profile = ProfileText { id, name, ..edited(dialog) };
    put_is_found(dialog.store, has_id(id), profile);
    match dialog.selected {
        Some(own) => {
            put_keeps_others(dialog.store, has_id(id), profile, has_id(own));
        },
        None => {},
    }
}

/// `Escape` always leads out: it takes one layer away, and after three there is
/// none left but the dialog itself, which it closes.
pub proof fn escape_leads_out(dialog: DialogText)
    requires
        !dialog.managing,
    ensures
        !escaped(escaped(escaped(dialog))).open,
        escaping(dialog) == Escape::Dismissed <==> !dialog.driver_list_open && !dialog.confirming,
        escaping(dialog) == Escape::Layer ==> escaped(dialog).open == dialog.open
            && escaped(dialog).form == dialog.form,
{
}

} // verus!
