//! What the connection dialog shows, keeps and reports, from opening it to saving a
//! profile, and what each step leaves alone.

use vstd::prelude::*;

use crate::connection::{
    driver_at_fault, error_class, error_message, refused_credentials, ConnectError,
};
use crate::connection_dialog::{
    after_test, bastion_port, blank_profile, can_save, closed, current, current_driver,
    current_or_blank, driven_by, drivers_are, edited, escaped, escaping, failure_message,
    filled_in, hint_for, new_profile, opened, over_something, reporting, saving,
    secret_writes, shown_first, shows_error, turned_over, turned_to, with_new, written,
    ConnectionDialog, DialogText, Level, NewProfile, SecretWrite, Status,
};
use crate::connection_form::{collected, form_of, with_parts, with_url, FormText};
use crate::keyed::{found, only_the_first_is_touched, put, put_is_found, what_is_missing_goes_last};
use crate::profile::{has_driver_id, has_id, DriverText, ProfileText};
use crate::text::{is_blank, maybe_text, trim};
use crate::view::{CaptionText, LabelText};

verus! {

/// Whether two dialogs agree on everything but the profiles, the one selected, the
/// form and what is said.
pub open spec fn same_around(a: DialogText, b: DialogText) -> bool {
    &&& a.open == b.open
    &&& a.drivers == b.drivers
    &&& a.driver_list_open == b.driver_list_open
    &&& a.managing == b.managing
    &&& a.pending_host_key == b.pending_host_key
    &&& a.testing == b.testing
    &&& a.pending_focus == b.pending_focus
}

/// Whether two dialogs agree on what they hold: the profiles, the drivers, the one
/// selected and the form.
pub open spec fn same_contents(a: DialogText, b: DialogText) -> bool {
    &&& a.store == b.store
    &&& a.drivers == b.drivers
    &&& a.selected == b.selected
    &&& a.form == b.form
}

/// The profile at hand is the one with the selected number; its driver is the one it
/// names. What the form says of it is read over that profile.
pub proof fn the_profile_at_hand(dialog: DialogText, at: int, by: int)
    requires
        0 <= at < dialog.store.len(),
        dialog.selected == Some(dialog.store[at].id),
        forall|k: int|
            0 <= k < at ==> (#[trigger] dialog.store[k]).id != dialog.store[at].id,
        0 <= by < dialog.drivers.len(),
        dialog.drivers[by].id == dialog.store[at].driver_id,
        forall|k: int|
            0 <= k < by ==> (#[trigger] dialog.drivers[k]).id != dialog.drivers[by].id,
    ensures
        current(dialog) == Some(dialog.store[at]),
        current_or_blank(dialog) == dialog.store[at],
        current_driver(dialog) == Some(dialog.drivers[by]),
        edited(dialog) == collected(dialog.form, dialog.store[at]),
        filled_in(dialog) == (DialogText {
            form: form_of(dialog.form, dialog.store[at], Some(dialog.drivers[by])),
            ..dialog
        }),
{
    let same = has_id(dialog.store[at].id);
    assert forall|k: int| 0 <= k < at implies !same(#[trigger] dialog.store[k]) by {}
    only_the_first_is_touched(dialog.store, same, dialog.store[at], at);
    let named = has_driver_id(dialog.store[at].driver_id);
    assert forall|k: int| 0 <= k < by implies !named(#[trigger] dialog.drivers[k]) by {}
    only_the_first_is_touched(dialog.drivers, named, dialog.drivers[by], by);
}

/// With no profile selected, or one that is not there, there is none at hand and no
/// driver, and the form is read over a profile that holds nothing.
pub proof fn no_profile_at_hand(dialog: DialogText)
    requires
        dialog.selected matches Some(id) ==> forall|k: int|
            0 <= k < dialog.store.len() ==> (#[trigger] dialog.store[k]).id != id,
    ensures
        current(dialog) is None,
        current_driver(dialog) is None,
        current_or_blank(dialog) == blank_profile(),
        blank_profile().id == 0,
        blank_profile().name.len() == 0,
        blank_profile().driver_id.len() == 0,
        blank_profile().url.len() == 0,
        blank_profile().username.len() == 0,
        blank_profile().folder is None,
        blank_profile().color is None,
        blank_profile().keep_alive is None,
        blank_profile().tunnel is None,
        !blank_profile().read_only,
        blank_profile().auto_commit,
        blank_profile().confirm_writes,
        edited(dialog) == collected(dialog.form, blank_profile()),
        filled_in(dialog) == (DialogText {
            form: form_of(dialog.form, blank_profile(), None),
            ..dialog
        }),
{
    if let Some(id) = dialog.selected {
        what_is_missing_goes_last(dialog.store, has_id(id), blank_profile());
    }
}

/// What is shown first is the profile asked for where it is there, else the first of
/// the list, and nothing where there is none.
pub proof fn what_is_shown_first(store: Seq<ProfileText>, wanted: u128)
    ensures
        shown_first(store, None) is None <==> store.len() == 0,
        store.len() > 0 ==> shown_first(store, None) == Some(store[0].id),
        (exists|k: int| 0 <= k < store.len() && (#[trigger] store[k]).id == wanted) ==> shown_first(
            store,
            Some(wanted),
        ) == Some(wanted),
        (forall|k: int| 0 <= k < store.len() ==> (#[trigger] store[k]).id != wanted)
            ==> shown_first(store, Some(wanted)) == shown_first(store, None),
{
    crate::keyed::first_match_is_first(store, has_id(wanted));
}

/// A new profile holds its number, its name, whether writes are confirmed, and the
/// first driver there is; nothing else is set.
pub proof fn a_new_profile_uses_the_first_driver(drivers: Seq<DriverText>, fresh: NewProfile)
    ensures
        ({
            let profile = new_profile(drivers, fresh);
            &&& profile.id == fresh.id
            &&& profile.name == fresh.name@
            &&& profile.confirm_writes == fresh.confirm_writes
            &&& drivers.len() > 0 ==> profile.driver_id == drivers[0].id
            &&& drivers.len() == 0 ==> profile.driver_id.len() == 0
            &&& profile.url.len() == 0
            &&& profile.username.len() == 0
            &&& profile.folder is None
            &&& profile.color is None
            &&& profile.props.dom() == Set::<Seq<char>>::empty()
            &&& !profile.read_only
            &&& profile.auto_commit
            &&& profile.keep_alive is None
            &&& profile.tunnel is None
        }),
{
    assert(new_profile(drivers, fresh).props.dom() =~= Set::<Seq<char>>::empty());
}

/// Turning to a profile puts it into the list in place of the one with its number, or
/// behind the rest, selects it and shows it in the form; what was being confirmed or
/// said is over.
pub proof fn turning_to_a_profile_shows_it(dialog: DialogText, profile: ProfileText)
    ensures
        ({
            let after = turned_to(dialog, profile);
            &&& after.store == put(dialog.store, has_id(profile.id), profile)
            &&& after.selected == Some(profile.id)
            &&& !after.confirming
            &&& after.status is None
            &&& after.form == form_of(
                dialog.form,
                profile,
                found(dialog.drivers, has_driver_id(profile.driver_id)),
            )
            &&& same_around(after, dialog)
        }),
{
    put_is_found(dialog.store, has_id(profile.id), profile);
}

/// A profile that is added is turned to, with the URL its driver's template starts
/// from, and its name is ready to be typed.
pub proof fn adding_a_profile_shows_it(dialog: DialogText, fresh: NewProfile)
    ensures
        ({
            let profile = new_profile(dialog.drivers, fresh);
            let driver = found(dialog.drivers, has_driver_id(profile.driver_id));
            let after = with_new(dialog, fresh);
            &&& after.store == put(dialog.store, has_id(fresh.id), profile)
            &&& after.selected == Some(fresh.id)
            &&& after.form == with_url(form_of(dialog.form, profile, driver), driver)
            &&& after.pending_focus
            &&& !after.confirming
            &&& after.status is None
            &&& after.open == dialog.open
            &&& after.drivers == dialog.drivers
            &&& after.driver_list_open == dialog.driver_list_open
            &&& after.managing == dialog.managing
            &&& after.pending_host_key == dialog.pending_host_key
            &&& after.testing == dialog.testing
            &&& dialog.selected is None ==> over_something(dialog, fresh) == after
            &&& dialog.selected is Some ==> over_something(dialog, fresh) == filled_in(dialog)
        }),
{
    put_is_found(
        dialog.store,
        has_id(new_profile(dialog.drivers, fresh).id),
        new_profile(dialog.drivers, fresh),
    );
}

/// Opening the dialog reads the profiles, where they could be read, and the drivers,
/// and shows the profile asked for or the first; where there is none, one is added.
/// Nothing that stood over it the last time stands over it again.
pub proof fn opening_starts_clean(
    dialog: DialogText,
    wanted: Option<u128>,
    store: Option<Seq<ProfileText>>,
    drivers: Seq<DriverText>,
    fresh: NewProfile,
)
    ensures
        ({
            let after = opened(dialog, wanted, store, drivers, fresh);
            let profiles = match store {
                Some(read) => read,
                None => dialog.store,
            };
            let first = shown_first(profiles, wanted);
            &&& after.open
            &&& after.status is None
            &&& after.pending_host_key is None
            &&& !after.confirming
            &&& !after.managing
            &&& after.pending_focus
            &&& after.testing == dialog.testing
            &&& after.driver_list_open == dialog.driver_list_open
            &&& after.drivers == drivers
            &&& first is Some ==> {
                let before = DialogText { store: profiles, drivers, selected: first, ..dialog };
                &&& after.store == profiles
                &&& after.selected == first
                &&& after.form == form_of(
                    dialog.form,
                    current_or_blank(before),
                    current_driver(before),
                )
            }
            &&& first is None ==> {
                &&& after.store == put(profiles, has_id(fresh.id), new_profile(drivers, fresh))
                &&& after.selected == Some(fresh.id)
            }
        }),
{
}

/// Closing the dialog takes everything off it, and loses neither the profiles nor what
/// is in the form.
pub proof fn closing_keeps_what_was_entered(dialog: DialogText)
    ensures
        ({
            let after = closed(dialog);
            &&& !after.open
            &&& after.status is None
            &&& after.pending_host_key is None
            &&& !after.confirming
            &&& !after.managing
            &&& !after.driver_list_open
            &&& !after.testing
            &&& after.pending_focus == dialog.pending_focus
            &&& same_contents(after, dialog)
        }),
{
}

/// Selecting another profile keeps what was typed into the one left, unless it has no
/// name, and shows the other; selecting the one at hand does nothing.
pub proof fn selecting_another_profile_shows_it(dialog: DialogText, id: u128)
    ensures
        dialog.selected == Some(id) ==> turned_over(dialog, id) == dialog,
        dialog.selected != Some(id) ==> {
            let after = turned_over(dialog, id);
            let left = collected(dialog.form, current_or_blank(dialog));
            &&& is_blank(left.name) ==> after.store == dialog.store
            &&& !is_blank(left.name) ==> after.store == put(dialog.store, has_id(left.id), left)
            &&& after.selected == Some(id)
            &&& !after.confirming
            &&& after.status is None
            &&& after.form == form_of(
                dialog.form,
                current_or_blank((DialogText { store: after.store, selected: Some(id), ..dialog })),
                current_driver((DialogText { store: after.store, selected: Some(id), ..dialog })),
            )
            &&& same_around(after, dialog)
        },
{
}

/// Another driver is put down in the profile at hand, and the form goes over to it: its
/// parts are those of the driver's template and its URL is assembled from them, even
/// where one had been typed. The same driver again, or no profile, changes nothing.
pub proof fn another_driver_takes_the_form_over(dialog: DialogText, id: Seq<char>)
    ensures
        current(dialog) is None ==> driven_by(dialog, id) == dialog,
        current(dialog) matches Some(profile) ==> {
            let after = driven_by(dialog, id);
            let driver = found(dialog.drivers, has_driver_id(id));
            let parts = with_parts(dialog.form, driver);
            &&& profile.driver_id == id ==> after == dialog
            &&& profile.driver_id != id ==> {
                &&& after.store == put(
                    dialog.store,
                    has_id(profile.id),
                    (ProfileText { driver_id: id, ..profile }),
                )
                &&& after.form == with_url((FormText { url_overridden: false, ..parts }), driver)
                &&& !after.driver_list_open
                &&& after.open == dialog.open
                &&& after.drivers == dialog.drivers
                &&& after.selected == dialog.selected
                &&& after.managing == dialog.managing
                &&& after.status == dialog.status
                &&& after.pending_host_key == dialog.pending_host_key
                &&& after.testing == dialog.testing
                &&& after.confirming == dialog.confirming
                &&& after.pending_focus == dialog.pending_focus
            }
        },
{
    if let Some(profile) = current(dialog) {
        let own = dialog.selected.unwrap();
        crate::keyed::first_match_is_first(dialog.store, has_id(own));
        assert(profile.id == own);
        put_is_found(
            dialog.store,
            has_id(profile.id),
            ProfileText { driver_id: id, ..profile },
        );
    }
}

/// Drivers that have changed are taken over where they could be read. The form follows
/// its driver, and a URL typed by hand stands.
pub proof fn changed_drivers_are_followed(
    dialog: DialogText,
    drivers: Option<Seq<DriverText>>,
)
    ensures
        ({
            let after = drivers_are(dialog, drivers);
            let read = match drivers {
                Some(list) => list,
                None => dialog.drivers,
            };
            let driver = current_driver((DialogText { drivers: read, ..dialog }));
            &&& after.drivers == read
            &&& after.form == with_url(with_parts(dialog.form, driver), driver)
            &&& after.open == dialog.open
            &&& after.store == dialog.store
            &&& after.selected == dialog.selected
            &&& after.driver_list_open == dialog.driver_list_open
            &&& after.managing == dialog.managing
            &&& after.status == dialog.status
            &&& after.pending_host_key == dialog.pending_host_key
            &&& after.testing == dialog.testing
            &&& after.confirming == dialog.confirming
            &&& after.pending_focus == dialog.pending_focus
        }),
{
}

/// Escape takes off one thing at a time: it goes to the driver manager while that is
/// up, then the list of drivers, then the question, then the dialog itself. Nothing
/// that was entered is lost.
pub proof fn escape_takes_off_one_layer(dialog: DialogText)
    ensures
        same_contents(escaped(dialog), dialog),
        dialog.managing ==> escaping(dialog) is Manager && escaped(dialog) == dialog,
        !dialog.managing && dialog.driver_list_open ==> escaping(dialog) is Layer && escaped(dialog)
            == (DialogText { driver_list_open: false, ..dialog }),
        !dialog.managing && !dialog.driver_list_open && dialog.confirming ==> escaping(
            dialog,
        ) is Layer && escaped(dialog) == (DialogText { confirming: false, ..dialog }),
        !dialog.managing && !dialog.driver_list_open && !dialog.confirming ==> escaping(
            dialog,
        ) is Dismissed && escaped(dialog) == closed(dialog),
{
}

/// The secret of the session is written always and that of the tunnel where there is
/// one, each without the white space around it; a field left empty takes the secret
/// away.
pub proof fn each_secret_goes_to_its_place(form: FormText)
    ensures
        ({
            let writes = secret_writes(form);
            &&& writes.len() == if form.tunnel_enabled {
                2int
            } else {
                1
            }
            &&& writes[0].slot is Connection
            &&& writes[0].secret is None <==> trim(form.password).len() == 0
            &&& writes[0].secret matches Some(secret) ==> secret == trim(form.password)
            &&& form.tunnel_enabled ==> {
                &&& writes[1].slot is Tunnel
                &&& writes[1].secret is None <==> trim(form.tunnel_secret).len() == 0
                &&& writes[1].secret matches Some(secret) ==> secret == trim(form.tunnel_secret)
            }
        }),
{
}

/// A profile needs a name and a URL to be saved, and where one is missing the dialog
/// says which, the name first. Where it has both, it is in the list as the form says
/// it, and nothing else changes.
pub proof fn a_profile_needs_a_name_and_a_url(dialog: DialogText)
    ensures
        ({
            let profile = edited(dialog);
            let after = saving(dialog);
            &&& can_save(dialog) <==> !is_blank(profile.name) && !is_blank(profile.url)
            &&& can_save(dialog) ==> after.store == put(dialog.store, has_id(profile.id), profile)
                && after.status == dialog.status
            &&& !can_save(dialog) ==> after.store == dialog.store
            &&& !can_save(dialog) ==> (after.status matches Some(said) && said.level is Error
                && said.message.args.len() == 0 && said.message.key == if is_blank(profile.name) {
                "connect.name_required"
            } else {
                "connect.url_required"
            })
            &&& after.selected == dialog.selected
            &&& after.form == dialog.form
            &&& after.confirming == dialog.confirming
            &&& same_around(after, dialog)
        }),
{
}

/// What could not be written is reported with its reason: the profiles first, and else
/// the last secret the keychain refused. Once the profiles are written the saved one is
/// selected.
pub proof fn what_could_not_be_written_is_reported(
    dialog: DialogText,
    id: u128,
    error: Option<Seq<char>>,
    failures: Seq<Seq<char>>,
)
    ensures
        ({
            let after = written(dialog, id, error, failures);
            &&& after.store == dialog.store
            &&& after.form == dialog.form
            &&& after.confirming == dialog.confirming
            &&& same_around(after, dialog)
            &&& match error {
                Some(reason) => after.selected == dialog.selected && reports(
                    after,
                    "connect.save_failed",
                    reason,
                ),
                None => after.selected == Some(id) && if failures.len() == 0 {
                    after.status == dialog.status
                } else {
                    reports(after, "connect.keychain_failed", failures.last())
                },
            }
            &&& shows_error(dialog) <==> (dialog.status matches Some(said)
                && said.level is Error)
        }),
{
}

/// Whether a dialog reports an error under a key, with its reason.
pub open spec fn reports(dialog: DialogText, key: &'static str, reason: Seq<char>) -> bool {
    dialog.status matches Some(said) && said.level is Error && said.message.key == key
        && said.message.args == seq![("error", CaptionText::Text(reason))]
}

/// A report changes what the dialog says and nothing else.
pub proof fn a_report_changes_nothing_else(dialog: DialogText, level: Level, message: LabelText)
    ensures
        ({
            let after = reporting(dialog, level, message);
            &&& after.status matches Some(said) && said.level == level && said.message == message
            &&& same_contents(after, dialog)
            &&& same_around(after, dialog)
            &&& after.confirming == dialog.confirming
        }),
{
}

/// A failure comes with a hint at what to look at: the credentials where they were
/// refused, the driver where it is at fault, else the virtual machine, the host's key
/// or the network, each for its own kind of failure; any other has none.
pub proof fn a_failure_hints_at_its_cause(error: ConnectError)
    ensures
        refused_credentials(error) ==> hint_for(error) == Some("connect.hint_auth"),
        !refused_credentials(error) && driver_at_fault(error) ==> hint_for(error) == Some(
            "connect.hint_driver",
        ),
        !refused_credentials(error) && !driver_at_fault(error) ==> {
            &&& error is JvmStart ==> hint_for(error) == Some("connect.hint_jvm")
            &&& error is HostKeyUnknown || error is HostKeyMismatch ==> hint_for(error) == Some(
                "connect.hint_host_key",
            )
            &&& !(error is JvmStart || error is HostKeyUnknown || error is HostKeyMismatch) ==> (
            hint_for(error) == if error_class(error) == Some("08"@) {
                Some("connect.hint_network")
            } else {
                None
            })
        },
        hint_for(error) is None ==> failure_message(error).key == "connect.test_failed"
            && failure_message(error).args == seq![
            ("error", CaptionText::Text(error_message(error))),
        ],
        hint_for(error) matches Some(hint) ==> failure_message(error).key
            == "connect.test_failed_hint" && failure_message(error).args == seq![
            ("error", CaptionText::Text(error_message(error))),
            ("hint", CaptionText::Key(hint)),
        ],
{
}

/// A test that is over says how it went: the product that answered where it gave its
/// name, or what failed. A key nobody has trusted is put to the user with the host, the
/// port of the bastion, the algorithm and the fingerprint; nothing else is touched.
pub proof fn a_test_says_how_it_went(
    dialog: DialogText,
    outcome: Result<Option<String>, ConnectError>,
)
    ensures
        ({
            let after = after_test(dialog, outcome);
            &&& !after.testing
            &&& after.open == dialog.open
            &&& same_contents(after, dialog)
            &&& after.driver_list_open == dialog.driver_list_open
            &&& after.managing == dialog.managing
            &&& after.confirming == dialog.confirming
            &&& after.pending_focus == dialog.pending_focus
            &&& match outcome {
                Ok(Some(product)) => {
                    &&& after.pending_host_key == dialog.pending_host_key
                    &&& after.status matches Some(said) && said.level is Success
                        && said.message.key == "connect.test_ok" && said.message.args == seq![
                        ("product", CaptionText::Text(product@)),
                    ]
                },
                Ok(None) => {
                    &&& after.pending_host_key == dialog.pending_host_key
                    &&& after.status matches Some(said) && said.level is Success
                        && said.message.key == "connect.test_ok_unnamed" && said.message.args.len()
                        == 0
                },
                Err(error) => {
                    &&& after.status matches Some(said) && said.level is Error && said.message
                        == failure_message(error)
                    &&& match error {
                        ConnectError::HostKeyUnknown { host, fingerprint, algorithm } => {
                            after.pending_host_key matches Some(key) && key.host == host && key.port
                                == bastion_port(dialog) && key.algorithm == algorithm
                                && key.fingerprint == fingerprint
                        },
                        _ => after.pending_host_key is None,
                    }
                },
            }
            &&& edited(dialog).tunnel matches Some(tunnel) ==> bastion_port(dialog) == tunnel.port
            &&& edited(dialog).tunnel is None ==> bastion_port(dialog) == 22
        }),
{
}

/// A dialog reads as what it holds.
pub proof fn a_dialog_reads_as_it_is(dialog: ConnectionDialog, status: Status)
    ensures
        dialog@.open == dialog.open,
        dialog@.store == dialog.store@,
        dialog@.drivers == dialog.drivers@,
        dialog@.selected == dialog.selected,
        dialog@.driver_list_open == dialog.driver_list_open,
        dialog@.form == dialog.form@,
        dialog@.managing == dialog.managing,
        dialog@.status is Some <==> dialog.status is Some,
        dialog.status matches Some(said) ==> dialog@.status == Some(said@),
        dialog@.pending_host_key == dialog.pending_host_key,
        dialog@.testing == dialog.testing,
        dialog@.confirming == dialog.confirming,
        dialog@.pending_focus == dialog.pending_focus,
        status@.level == status.level,
        status@.message == status.message@,
{
}

/// A secret that is to be written reads as what it holds.
pub proof fn a_secret_reads_as_it_is(write: SecretWrite)
    ensures
        write@.slot == write.slot,
        write@.secret == maybe_text(write.secret),
{
}

} // verus!
