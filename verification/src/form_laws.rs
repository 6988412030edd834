//! What a connection form makes of a profile and a profile of the form, field by
//! field, and how the parts of a URL and the URL keep to each other.

use vstd::prelude::*;

use crate::connection_form::{
    assembled_url, blank_form, collected, collected_props, form_of, in_step, parts_of_form,
    port_for, template_for, with_parts, with_url, with_values, ConnectionForm, FormText,
};
use crate::ordered::{listed, map_texts, pair_texts, Pair};
use crate::profile::{AuthText, DriverText, ProfileText};
use crate::template::{decomposed, filled, hole_names, template_of};
use crate::text::{decimal, maybe_text, parsed, trim};

verus! {

/// A saved profile is what the form says, without white space around what was typed:
/// a field left empty is none, a number that cannot be read is the usual one, and
/// what is switched off is not there. The form decides neither which profile it is
/// nor which driver it uses.
pub proof fn a_profile_is_what_the_form_says(form: FormText, base: ProfileText)
    ensures
        ({
            let profile = collected(form, base);
            &&& profile.id == base.id
            &&& profile.driver_id == base.driver_id
            &&& profile.name == trim(form.name)
            &&& profile.folder is None <==> trim(form.folder).len() == 0
            &&& profile.folder matches Some(folder) ==> folder == trim(form.folder)
            &&& profile.color == form.color
            &&& profile.url == trim(form.url)
            &&& profile.username == trim(form.username)
            &&& profile.props == collected_props(form.props)
            &&& profile.read_only == form.read_only
            &&& profile.auto_commit == form.auto_commit
            &&& profile.confirm_writes == form.confirm_writes
            &&& profile.keep_alive is Some <==> form.keep_alive_enabled
            &&& profile.keep_alive matches Some(keep) ==> {
                &&& keep.interval_s == match parsed(trim(form.keep_alive_interval), u32::MAX as nat) {
                    Some(n) => n as u32,
                    None => 300,
                }
                &&& keep.query == if trim(form.keep_alive_query).len() > 0 {
                    trim(form.keep_alive_query)
                } else {
                    "select 1"@
                }
            }
            &&& profile.tunnel is Some <==> form.tunnel_enabled
            &&& profile.tunnel matches Some(tunnel) ==> {
                &&& tunnel.host == trim(form.tunnel_host)
                &&& tunnel.port == match parsed(trim(form.tunnel_port), u16::MAX as nat) {
                    Some(n) => n as u16,
                    None => 22,
                }
                &&& tunnel.username == trim(form.tunnel_user)
                &&& tunnel.auth == match form.tunnel_auth {
                    AuthText::Key(_) => AuthText::Key(trim(form.tunnel_key)),
                    other => other,
                }
                &&& tunnel.remote_host == trim(form.tunnel_remote_host)
                &&& tunnel.remote_port == match parsed(
                    trim(form.tunnel_remote_port),
                    u16::MAX as nat,
                ) {
                    Some(n) => n as u16,
                    None => 0,
                }
                &&& tunnel.local_port == 0
            }
        }),
{
}

/// A property is kept under its name, without the white space around the name and the
/// value. A row without a name is none, and a later row stands over an earlier one of
/// the same name.
pub proof fn a_property_is_kept_under_its_name(rows: Seq<Pair>, row: Pair)
    ensures
        collected_props(Seq::empty()) == Map::<Seq<char>, Seq<char>>::empty(),
        collected_props(rows.push(row)) == if trim(row.0).len() == 0 {
            collected_props(rows)
        } else {
            collected_props(rows).insert(trim(row.0), trim(row.1))
        },
{
    assert(rows.push(row).drop_last() =~= rows);
}

/// The form shows what the profile holds, and no secret. What the profile has not got
/// is empty, or set to what is usual for it; a tunnel and a keep-alive are switched on
/// where the profile has one. Its properties are listed in order with an empty row
/// behind them. A URL that the parts do not assemble to is taken as typed by hand.
pub proof fn the_form_shows_what_the_profile_holds(
    form: FormText,
    profile: ProfileText,
    driver: Option<DriverText>,
)
    ensures
        ({
            let shown = form_of(form, profile, driver);
            &&& shown.name == profile.name
            &&& profile.folder matches Some(folder) ==> shown.folder == folder
            &&& profile.folder is None ==> shown.folder.len() == 0
            &&& shown.color == profile.color
            &&& shown.url == profile.url
            &&& shown.username == profile.username
            &&& shown.password.len() == 0
            &&& shown.props == listed(profile.props) + seq![(Seq::<char>::empty(), Seq::<char>::empty())]
            &&& shown.read_only == profile.read_only
            &&& shown.auto_commit == profile.auto_commit
            &&& shown.confirm_writes == profile.confirm_writes
            &&& shown.keep_alive_enabled == (profile.keep_alive is Some)
            &&& match profile.keep_alive {
                Some(keep) => shown.keep_alive_interval == decimal(keep.interval_s as nat)
                    && shown.keep_alive_query == keep.query,
                None => shown.keep_alive_interval == decimal(300) && shown.keep_alive_query
                    == "select 1"@,
            }
            &&& shown.tunnel_enabled == (profile.tunnel is Some)
            &&& shown.tunnel_open == (profile.tunnel is Some)
            &&& shown.tunnel_secret.len() == 0
            &&& match profile.tunnel {
                Some(tunnel) => {
                    &&& shown.tunnel_auth == tunnel.auth
                    &&& shown.tunnel_host == tunnel.host
                    &&& shown.tunnel_port == decimal(tunnel.port as nat)
                    &&& shown.tunnel_user == tunnel.username
                    &&& tunnel.auth matches AuthText::Key(path) ==> shown.tunnel_key == path
                    &&& !(tunnel.auth is Key) ==> shown.tunnel_key.len() == 0
                    &&& shown.tunnel_remote_host == tunnel.remote_host
                    &&& tunnel.remote_port == 0 ==> shown.tunnel_remote_port.len() == 0
                    &&& tunnel.remote_port != 0 ==> shown.tunnel_remote_port == decimal(
                        tunnel.remote_port as nat,
                    )
                },
                None => {
                    &&& shown.tunnel_auth is Agent
                    &&& shown.tunnel_host.len() == 0
                    &&& shown.tunnel_port == decimal(22)
                    &&& shown.tunnel_user.len() == 0
                    &&& shown.tunnel_key.len() == 0
                    &&& shown.tunnel_remote_host.len() == 0
                    &&& shown.tunnel_remote_port.len() == 0
                },
            }
            &&& shown.url_overridden <==> profile.url.len() > 0 && profile.url != assembled_url(
                shown,
                driver,
            )
            &&& shown.url_parts == parts_of_form(
                (FormText { url: profile.url, ..form }),
                driver,
            )
        }),
{
    let shown = form_of(form, profile, driver);
    assert(shown.props =~= listed(profile.props) + seq![
        (Seq::<char>::empty(), Seq::<char>::empty()),
    ]);
}

/// One value more is written over the part of its name, where there is such a part,
/// and over no other.
pub proof fn a_value_is_written_to_its_part(
    parts: Map<Seq<char>, Seq<char>>,
    values: Seq<Pair>,
    value: Pair,
)
    ensures
        with_values(parts, Seq::empty()) == parts,
        with_values(parts, values.push(value)) == if parts.dom().contains(value.0) {
            with_values(parts, values).insert(value.0, value.1)
        } else {
            with_values(parts, values)
        },
{
    assert(values.push(value).drop_last() =~= values);
    lemma_same_parts(parts, values);
}

/// Writing values adds no part and takes none away.
proof fn lemma_same_parts(parts: Map<Seq<char>, Seq<char>>, values: Seq<Pair>)
    ensures
        with_values(parts, values).dom() =~= parts.dom(),
    decreases values.len(),
{
    if values.len() > 0 {
        lemma_same_parts(parts, values.drop_last());
    }
}

/// The value of a part, where nothing is read from the URL: what the part held
/// before, else the driver's port in the part of that name, else nothing.
pub open spec fn kept_part(form: FormText, driver: Option<DriverText>, name: Seq<char>) -> Seq<char> {
    if form.url_parts.dom().contains(name) {
        form.url_parts[name]
    } else {
        match driver {
            Some(driver) => match driver.default_port {
                Some(port) => if name == "port"@ {
                    decimal(port as nat)
                } else {
                    Seq::empty()
                },
                None => Seq::empty(),
            },
            None => Seq::empty(),
        }
    }
}

/// There is a part for each name in the driver's template, and no other. A URL that
/// the template reads fills the parts with what it read; where there is none, or the
/// template cannot read it, each part keeps what it held, or starts as it does.
pub proof fn the_parts_are_read_from_the_url(
    form: FormText,
    driver: DriverText,
    kept: Map<Seq<char>, Seq<char>>,
)
    requires
        forall|name: Seq<char>| #[trigger]
            kept.dom().contains(name) <==> hole_names(
                template_of(driver.url_template).holes,
            ).contains(name),
        forall|name: Seq<char>| #[trigger]
            kept.dom().contains(name) ==> kept[name] == kept_part(form, Some(driver), name),
    ensures
        ({
            let template = template_of(driver.url_template);
            let parts = parts_of_form(form, Some(driver));
            &&& parts.dom() == kept.dom()
            &&& match decomposed(template, trim(form.url)) {
                Some(values) => if trim(form.url).len() > 0 {
                    parts == with_values(kept, values)
                } else {
                    parts == kept
                },
                None => parts == kept,
            }
        }),
{
    let template = template_of(driver.url_template);
    let starts = crate::connection_form::parts_for(
        hole_names(template.holes),
        form.url_parts,
        port_for(Some(driver)),
    );
    assert(template_for(Some(driver)) == driver.url_template);
    assert(starts =~= kept);
    if let Some(values) = decomposed(template, trim(form.url)) {
        lemma_same_parts(kept, values);
    }
}

/// The URL is assembled from the driver's template, each part without the white space
/// around it; without a driver there is none.
pub proof fn the_url_is_assembled_from_the_parts(
    form: FormText,
    driver: DriverText,
    parts: Map<Seq<char>, Seq<char>>,
)
    requires
        parts.dom() == form.url_parts.dom(),
        forall|name: Seq<char>| #[trigger]
            parts.dom().contains(name) ==> parts[name] == trim(form.url_parts[name]),
    ensures
        assembled_url(form, None).len() == 0,
        assembled_url(form, Some(driver)) == filled(template_of(driver.url_template), parts),
{
    assert(crate::connection_form::trimmed_parts(form.url_parts) =~= parts);
}

/// Rebuilding the parts changes the parts alone, and assembling the URL the URL alone,
/// unless it was typed by hand. Where the two have come apart, the one being typed in
/// stands: a URL with the caret in it counts as typed by hand from there on, and
/// otherwise the URL follows its parts.
pub proof fn the_url_follows_its_parts(
    form: FormText,
    driver: Option<DriverText>,
    url_focused: bool,
)
    ensures
        with_parts(form, driver) == (FormText { url_parts: parts_of_form(form, driver), ..form }),
        !form.url_overridden ==> with_url(form, driver) == (FormText {
            url: assembled_url(form, driver),
            ..form
        }),
        ({
            let assembled = assembled_url(form, driver);
            let apart = !form.url_overridden && assembled.len() > 0 && assembled != trim(form.url);
            &&& !apart ==> in_step(form, driver, url_focused) == form
            &&& apart && url_focused ==> in_step(form, driver, url_focused) == (FormText {
                url_overridden: true,
                ..form
            })
            &&& apart && !url_focused ==> in_step(form, driver, url_focused) == (FormText {
                url: assembled,
                ..form
            })
        }),
{
}

/// A new form is empty: nothing is switched on but that changes are committed at once
/// and that writes are confirmed.
pub proof fn a_new_form_is_empty()
    ensures
        ({
            let form = blank_form();
            &&& form.name.len() == 0
            &&& form.folder.len() == 0
            &&& form.color is None
            &&& form.url.len() == 0
            &&& !form.url_overridden
            &&& form.url_parts == Map::<Seq<char>, Seq<char>>::empty()
            &&& form.username.len() == 0
            &&& form.password.len() == 0
            &&& form.props.len() == 0
            &&& !form.read_only
            &&& form.auto_commit
            &&& form.confirm_writes
            &&& !form.keep_alive_enabled
            &&& form.keep_alive_interval.len() == 0
            &&& form.keep_alive_query.len() == 0
            &&& !form.tunnel_enabled
            &&& !form.tunnel_open
            &&& form.tunnel_auth is Agent
            &&& form.tunnel_host.len() == 0
            &&& form.tunnel_port.len() == 0
            &&& form.tunnel_user.len() == 0
            &&& form.tunnel_key.len() == 0
            &&& form.tunnel_secret.len() == 0
            &&& form.tunnel_remote_host.len() == 0
            &&& form.tunnel_remote_port.len() == 0
        }),
{
}

/// A form reads as what its controls hold.
pub proof fn a_form_reads_as_its_controls(form: ConnectionForm)
    ensures
        form@.name == form.name@,
        form@.folder == form.folder@,
        form@.color == maybe_text(form.color),
        form@.url == form.url@,
        form@.url_overridden == form.url_overridden,
        form@.url_parts == map_texts(form.url_parts@),
        form@.username == form.username@,
        form@.password == form.password@,
        form@.props == pair_texts(form.props@),
        form@.read_only == form.read_only,
        form@.auto_commit == form.auto_commit,
        form@.confirm_writes == form.confirm_writes,
        form@.keep_alive_enabled == form.keep_alive_enabled,
        form@.keep_alive_interval == form.keep_alive_interval@,
        form@.keep_alive_query == form.keep_alive_query@,
        form@.tunnel_enabled == form.tunnel_enabled,
        form@.tunnel_open == form.tunnel_open,
        form@.tunnel_auth == form.tunnel_auth@,
        form@.tunnel_host == form.tunnel_host@,
        form@.tunnel_port == form.tunnel_port@,
        form@.tunnel_user == form.tunnel_user@,
        form@.tunnel_key == form.tunnel_key@,
        form@.tunnel_secret == form.tunnel_secret@,
        form@.tunnel_remote_host == form.tunnel_remote_host@,
        form@.tunnel_remote_port == form.tunnel_remote_port@,
{
}

} // verus!
