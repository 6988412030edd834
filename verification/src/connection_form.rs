//! The form of one connection: what its controls hold, how a profile is copied
//! into them and read back out, and the URL that its part fields assemble.

use vstd::prelude::*;

use crate::erd_pane::copy_part;
use crate::ordered::{
    ascends, entry_map, entry_map_grows, has_key, keys_ascend, listed, listing_shortens, map_texts,
    pair_texts, spells_map, text_rows, Pair, TextMap,
};
use crate::profile::{
    blank_tunnel, copy_auth, copy_tunnel, usual_keep_alive, AuthText, ConnectionProfile, DriverDef,
    DriverText, KeepAlive, KeepAliveText, ProfileText, TunnelAuth, TunnelConfig, TunnelText,
};
use crate::template::{
    decompose, decomposed, filled, fillings, hole_names, placeholders_of, substitute, template_of,
};
use crate::text::{
    decimal, decimal_text, is_white, maybe_text, number_reads_back, parse_number, parsed, same_text,
    texts, trim, trimmed,
};

verus! {

/// What the controls hold, as it is typed.
pub struct ConnectionForm {
    pub name: String,
    pub folder: String,
    pub color: Option<String>,
    /// The URL, assembled or typed over.
    pub url: String,
    /// Whether the URL has been edited away from the assembled one. Once it has,
    /// the part fields stop rewriting it.
    pub url_overridden: bool,
    /// One field for each hole of the driver's template.
    pub url_parts: TextMap<String>,
    pub username: String,
    pub password: String,
    /// Driver properties, a key and a value to a row.
    pub props: Vec<(String, String)>,
    pub read_only: bool,
    pub auto_commit: bool,
    pub confirm_writes: bool,
    pub keep_alive_enabled: bool,
    pub keep_alive_interval: String,
    pub keep_alive_query: String,
    pub tunnel_enabled: bool,
    /// Whether the tunnel's section is unfolded.
    pub tunnel_open: bool,
    pub tunnel_auth: TunnelAuth,
    pub tunnel_host: String,
    pub tunnel_port: String,
    pub tunnel_user: String,
    pub tunnel_key: String,
    pub tunnel_secret: String,
    pub tunnel_remote_host: String,
    pub tunnel_remote_port: String,
}

/// What the controls hold.
#[verifier::ext_equal]
pub ghost struct FormText {
    pub name: Seq<char>,
    pub folder: Seq<char>,
    pub color: Option<Seq<char>>,
    pub url: Seq<char>,
    pub url_overridden: bool,
    pub url_parts: Map<Seq<char>, Seq<char>>,
    pub username: Seq<char>,
    pub password: Seq<char>,
    pub props: Seq<Pair>,
    pub read_only: bool,
    pub auto_commit: bool,
    pub confirm_writes: bool,
    pub keep_alive_enabled: bool,
    pub keep_alive_interval: Seq<char>,
    pub keep_alive_query: Seq<char>,
    pub tunnel_enabled: bool,
    pub tunnel_open: bool,
    pub tunnel_auth: AuthText,
    pub tunnel_host: Seq<char>,
    pub tunnel_port: Seq<char>,
    pub tunnel_user: Seq<char>,
    pub tunnel_key: Seq<char>,
    pub tunnel_secret: Seq<char>,
    pub tunnel_remote_host: Seq<char>,
    pub tunnel_remote_port: Seq<char>,
}

impl View for ConnectionForm {
    type V = FormText;

    open spec fn view(&self) -> FormText {
        FormText {
            name: self.name@,
            folder: self.folder@,
            color: maybe_text(self.color),
            url: self.url@,
            url_overridden: self.url_overridden,
            url_parts: map_texts(self.url_parts@),
            username: self.username@,
            password: self.password@,
            props: pair_texts(self.props@),
            read_only: self.read_only,
            auto_commit: self.auto_commit,
            confirm_writes: self.confirm_writes,
            keep_alive_enabled: self.keep_alive_enabled,
            keep_alive_interval: self.keep_alive_interval@,
            keep_alive_query: self.keep_alive_query@,
            tunnel_enabled: self.tunnel_enabled,
            tunnel_open: self.tunnel_open,
            tunnel_auth: self.tunnel_auth@,
            tunnel_host: self.tunnel_host@,
            tunnel_port: self.tunnel_port@,
            tunnel_user: self.tunnel_user@,
            tunnel_key: self.tunnel_key@,
            tunnel_secret: self.tunnel_secret@,
            tunnel_remote_host: self.tunnel_remote_host@,
            tunnel_remote_port: self.tunnel_remote_port@,
        }
    }
}

/// A form nothing has been copied into.
pub open spec fn blank_form() -> FormText {
    FormText {
        name: Seq::empty(),
        folder: Seq::empty(),
        color: None,
        url: Seq::empty(),
        url_overridden: false,
        url_parts: Map::empty(),
        username: Seq::empty(),
        password: Seq::empty(),
        props: Seq::empty(),
        read_only: false,
        auto_commit: true,
        confirm_writes: true,
        keep_alive_enabled: false,
        keep_alive_interval: Seq::empty(),
        keep_alive_query: Seq::empty(),
        tunnel_enabled: false,
        tunnel_open: false,
        tunnel_auth: AuthText::Agent,
        tunnel_host: Seq::empty(),
        tunnel_port: Seq::empty(),
        tunnel_user: Seq::empty(),
        tunnel_key: Seq::empty(),
        tunnel_secret: Seq::empty(),
        tunnel_remote_host: Seq::empty(),
        tunnel_remote_port: Seq::empty(),
    }
}

/// A driver that may be absent.
pub open spec fn maybe_driver(driver: Option<&DriverDef>) -> Option<DriverText> {
    match driver {
        Some(driver) => Some(driver@),
        None => None,
    }
}

/// The template of a driver, or none.
pub open spec fn template_for(driver: Option<DriverText>) -> Seq<char> {
    match driver {
        Some(driver) => driver.url_template,
        None => Seq::empty(),
    }
}

/// The port a driver listens on unless it is told otherwise.
pub open spec fn port_for(driver: Option<DriverText>) -> Option<u16> {
    match driver {
        Some(driver) => driver.default_port,
        None => None,
    }
}

/// What a part field starts with: what the field of that name already held, the
/// driver's own port in a port field, and nothing otherwise.
pub open spec fn part_start(
    name: Seq<char>,
    held: Map<Seq<char>, Seq<char>>,
    port: Option<u16>,
) -> Seq<char> {
    if held.dom().contains(name) {
        held[name]
    } else if name == "port"@ && port is Some {
        decimal(port.unwrap() as nat)
    } else {
        Seq::empty()
    }
}

/// A field for each of the names.
pub open spec fn parts_for(
    names: Seq<Seq<char>>,
    held: Map<Seq<char>, Seq<char>>,
    port: Option<u16>,
) -> Map<Seq<char>, Seq<char>> {
    Map::new(|name: Seq<char>| names.contains(name), |name: Seq<char>| part_start(name, held, port))
}

/// The fields with each value written into the field of its name, where there is
/// one.
pub open spec fn with_values(parts: Map<Seq<char>, Seq<char>>, values: Seq<Pair>) -> Map<
    Seq<char>,
    Seq<char>,
>
    decreases values.len(),
{
    if values.len() == 0 {
        parts
    } else {
        let earlier = with_values(parts, values.drop_last());
        if earlier.dom().contains(values.last().0) {
            earlier.insert(values.last().0, values.last().1)
        } else {
            earlier
        }
    }
}

/// The part fields of a driver's template: a URL that fits the template is taken
/// apart into them.
pub open spec fn parts_of_form(form: FormText, driver: Option<DriverText>) -> Map<
    Seq<char>,
    Seq<char>,
> {
    let template = template_of(template_for(driver));
    let parts = parts_for(hole_names(template.holes), form.url_parts, port_for(driver));
    let url = trim(form.url);
    match decomposed(template, url) {
        Some(values) => if url.len() > 0 {
            with_values(parts, values)
        } else {
            parts
        },
        None => parts,
    }
}

/// The form with the part fields of a driver's template.
pub open spec fn with_parts(form: FormText, driver: Option<DriverText>) -> FormText {
    FormText { url_parts: parts_of_form(form, driver), ..form }
}

/// The values of the part fields, without the white space around them.
pub open spec fn trimmed_parts(parts: Map<Seq<char>, Seq<char>>) -> Map<Seq<char>, Seq<char>> {
    parts.map_values(|value: Seq<char>| trim(value))
}

/// The URL the part fields assemble; without a driver there is none.
pub open spec fn assembled_url(form: FormText, driver: Option<DriverText>) -> Seq<char> {
    match driver {
        Some(driver) => filled(template_of(driver.url_template), trimmed_parts(form.url_parts)),
        None => Seq::empty(),
    }
}

/// The form with the assembled URL in the URL field, unless it is overridden.
pub open spec fn with_url(form: FormText, driver: Option<DriverText>) -> FormText {
    if form.url_overridden {
        form
    } else {
        FormText { url: assembled_url(form, driver), ..form }
    }
}

/// The form once the URL field and the part fields have been brought in step.
/// Where they differ it is the field with the caret that has been typed in: the
/// URL field's own text is an override, and a part field's is shown in the URL.
pub open spec fn in_step(form: FormText, driver: Option<DriverText>, url_focused: bool) -> FormText {
    let assembled = assembled_url(form, driver);
    let diverged = assembled.len() > 0 && assembled != trim(form.url);
    if form.url_overridden || !diverged {
        form
    } else if url_focused {
        FormText { url_overridden: true, ..form }
    } else {
        FormText { url: assembled, ..form }
    }
}

/// The rows of a set of driver properties: one each, by ascending key, and an
/// empty one to type into.
pub open spec fn prop_rows(props: Map<Seq<char>, Seq<char>>) -> Seq<Pair> {
    listed(props).push((Seq::empty(), Seq::empty()))
}

/// A tunnel, or the one a form starts from.
pub open spec fn tunnel_or_blank(tunnel: Option<TunnelText>) -> TunnelText {
    match tunnel {
        Some(tunnel) => tunnel,
        None => blank_tunnel(),
    }
}

/// A keep-alive, or the one a form offers.
pub open spec fn keep_alive_or_usual(keep: Option<KeepAliveText>) -> KeepAliveText {
    match keep {
        Some(keep) => keep,
        None => usual_keep_alive(),
    }
}

/// The path of a key, where a key is what logs in.
pub open spec fn key_path(auth: AuthText) -> Seq<char> {
    match auth {
        AuthText::Key(path) => path,
        _ => Seq::empty(),
    }
}

/// A text that may be absent, or an empty one.
pub open spec fn text_or_empty(text: Option<Seq<char>>) -> Seq<char> {
    match text {
        Some(text) => text,
        None => Seq::empty(),
    }
}

/// A profile copied into the controls, before the part fields are made: the
/// secrets are blank, for they are in no profile.
pub open spec fn copied(form: FormText, profile: ProfileText) -> FormText {
    let keep = keep_alive_or_usual(profile.keep_alive);
    let tunnel = tunnel_or_blank(profile.tunnel);
    FormText {
        name: profile.name,
        folder: text_or_empty(profile.folder),
        color: profile.color,
        url: profile.url,
        url_overridden: form.url_overridden,
        url_parts: form.url_parts,
        username: profile.username,
        password: Seq::empty(),
        props: prop_rows(profile.props),
        read_only: profile.read_only,
        auto_commit: profile.auto_commit,
        confirm_writes: profile.confirm_writes,
        keep_alive_enabled: profile.keep_alive is Some,
        keep_alive_interval: decimal(keep.interval_s as nat),
        keep_alive_query: keep.query,
        tunnel_enabled: profile.tunnel is Some,
        tunnel_open: profile.tunnel is Some,
        tunnel_auth: tunnel.auth,
        tunnel_host: tunnel.host,
        tunnel_port: decimal(tunnel.port as nat),
        tunnel_user: tunnel.username,
        tunnel_key: key_path(tunnel.auth),
        tunnel_secret: Seq::empty(),
        tunnel_remote_host: tunnel.remote_host,
        tunnel_remote_port: if tunnel.remote_port == 0 {
            Seq::empty()
        } else {
            decimal(tunnel.remote_port as nat)
        },
    }
}

/// A profile copied into every control. A URL that the template cannot reproduce
/// is an override from the start.
pub open spec fn form_of(
    form: FormText,
    profile: ProfileText,
    driver: Option<DriverText>,
) -> FormText {
    let parts = with_parts(copied(form, profile), driver);
    FormText {
        url_overridden: profile.url.len() > 0 && profile.url != assembled_url(parts, driver),
        ..parts
    }
}

/// The number a field spells, or the default where it is blank or spells none
/// that fits.
pub open spec fn number_or(field: Seq<char>, max: nat, default: nat) -> nat {
    match parsed(trim(field), max) {
        Some(n) => n,
        None => default,
    }
}

/// The properties the rows spell: a row without a key is none, and of two with
/// one key the later counts.
pub open spec fn collected_props(rows: Seq<Pair>) -> Map<Seq<char>, Seq<char>>
    decreases rows.len(),
{
    if rows.len() == 0 {
        Map::empty()
    } else {
        let earlier = collected_props(rows.drop_last());
        let key = trim(rows.last().0);
        if key.len() == 0 {
            earlier
        } else {
            earlier.insert(key, trim(rows.last().1))
        }
    }
}

/// What is typed, or the default where nothing is.
pub open spec fn typed_or(field: Seq<char>, default: Seq<char>) -> Seq<char> {
    if trim(field).len() == 0 {
        default
    } else {
        trim(field)
    }
}

/// The form read back into a profile: what no control edits is kept.
pub open spec fn collected(form: FormText, base: ProfileText) -> ProfileText {
    ProfileText {
        id: base.id,
        driver_id: base.driver_id,
        name: trim(form.name),
        folder: if trim(form.folder).len() == 0 {
            None
        } else {
            Some(trim(form.folder))
        },
        color: form.color,
        url: trim(form.url),
        username: trim(form.username),
        props: collected_props(form.props),
        read_only: form.read_only,
        auto_commit: form.auto_commit,
        confirm_writes: form.confirm_writes,
        keep_alive: if form.keep_alive_enabled {
            Some(
                KeepAliveText {
                    interval_s: number_or(form.keep_alive_interval, u32::MAX as nat, 300) as u32,
                    query: typed_or(form.keep_alive_query, "select 1"@),
                },
            )
        } else {
            None
        },
        tunnel: if form.tunnel_enabled {
            Some(
                TunnelText {
                    host: trim(form.tunnel_host),
                    port: number_or(form.tunnel_port, u16::MAX as nat, 22) as u16,
                    username: trim(form.tunnel_user),
                    auth: match form.tunnel_auth {
                        AuthText::Key(_) => AuthText::Key(trim(form.tunnel_key)),
                        AuthText::Password => AuthText::Password,
                        AuthText::Agent => AuthText::Agent,
                    },
                    remote_host: trim(form.tunnel_remote_host),
                    remote_port: number_or(form.tunnel_remote_port, u16::MAX as nat, 0) as u16,
                    local_port: 0,
                },
            )
        } else {
            None
        },
    }
}

/// A field for each of the names.
fn make_parts(names: &Vec<String>, held: &TextMap<String>, port: Option<u16>) -> (r: TextMap<
    String,
>)
    ensures
        map_texts(r@) == parts_for(texts(names@), map_texts(held@), port),
{
    let ghost all = texts(names@);
    let ghost before = map_texts(held@);
    let mut parts: TextMap<String> = TextMap::new();
    let mut i: usize = 0;
    assert(map_texts(parts@) =~= parts_for(all.take(0), before, port));
    while i < names.len()
        invariant
            i <= names@.len(),
            all == texts(names@),
            before == map_texts(held@),
            map_texts(parts@) == parts_for(all.take(i as int), before, port),
        decreases names.len() - i,
    {
        let name = &names[i];
        let value = match held.get(name.as_str()) {
            Some(value) => value.clone(),
            None => match port {
                Some(port) => if same_text(name.as_str(), "port") {
                    decimal_text(port as u64)
                } else {
                    String::new()
                },
                None => String::new(),
            },
        };
        assert(value@ =~= part_start(name@, before, port));
        let ghost earlier = parts@;
        parts.insert(name.clone(), value);
        proof {
            let taken = all.take(i as int);
            let next = all.take(i + 1);
            assert(next =~= taken.push(name@));
            assert forall|n: Seq<char>| #[trigger] next.contains(n) == (taken.contains(n) || n
                == name@) by {
                if next.contains(n) {
                    let k = choose|k: int| 0 <= k < next.len() && next[k] == n;
                    if k < taken.len() {
                        assert(taken[k] == n);
                    }
                }
                if taken.contains(n) {
                    let k = choose|k: int| 0 <= k < taken.len() && taken[k] == n;
                    assert(next[k] == n);
                }
                assert(next[i as int] == name@);
            }
            let now = map_texts(parts@);
            let wanted = parts_for(next, before, port);
            assert forall|n: Seq<char>| #[trigger] now.dom().contains(n) == wanted.dom().contains(
                n,
            ) by {
                assert(map_texts(earlier).dom().contains(n) == taken.contains(n));
            }
            assert forall|n: Seq<char>| #[trigger] now.dom().contains(n) implies now[n]
                == wanted[n] by {
                if n != name@ {
                    assert(map_texts(earlier).dom().contains(n));
                    assert(map_texts(earlier)[n] == part_start(n, before, port));
                }
            }
            assert(now =~= wanted);
        }
        i = i + 1;
    }
    assert(all.take(all.len() as int) =~= all);
    parts
}

/// Writes each value into the field of its name.
fn write_values(parts: &mut TextMap<String>, values: &Vec<(String, String)>)
    ensures
        map_texts(final(parts)@) == with_values(map_texts(old(parts)@), pair_texts(values@)),
{
    let ghost start = map_texts(parts@);
    let ghost all = pair_texts(values@);
    let mut i: usize = 0;
    assert(all.take(0) =~= Seq::<Pair>::empty());
    while i < values.len()
        invariant
            i <= values@.len(),
            all == pair_texts(values@),
            map_texts(parts@) == with_values(start, all.take(i as int)),
        decreases values.len() - i,
    {
        let ghost next = all.take(i + 1);
        assert(next.drop_last() =~= all.take(i as int));
        assert(next.last() == all[i as int]);
        let ghost earlier = map_texts(parts@);
        if parts.get(values[i].0.as_str()).is_some() {
            parts.insert(values[i].0.clone(), values[i].1.clone());
            assert(map_texts(parts@) =~= earlier.insert(all[i as int].0, all[i as int].1));
        }
        i = i + 1;
    }
    assert(all.take(all.len() as int) =~= all);
}

/// The values of the part fields, without the white space around them.
fn trim_parts(parts: &TextMap<String>) -> (r: TextMap<String>)
    ensures
        map_texts(r@) == trimmed_parts(map_texts(parts@)),
{
    let entries = parts.entries();
    let mut out: TextMap<String> = TextMap::new();
    let mut i: usize = 0;
    assert(map_texts(out@) =~= trimmed_parts(map_texts(entry_map(entries@.take(0)))));
    while i < entries.len()
        invariant
            i <= entries@.len(),
            keys_ascend(entries@),
            map_texts(out@) == trimmed_parts(map_texts(entry_map(entries@.take(i as int)))),
        decreases entries.len() - i,
    {
        proof {
            entry_map_grows(entries@, i as int);
        }
        let value = trimmed(entries[i].1.as_str()).to_owned();
        let ghost earlier = map_texts(out@);
        out.insert(entries[i].0.clone(), value);
        assert(map_texts(out@) =~= earlier.insert(entries@[i as int].0@, value@));
        assert(map_texts(out@) =~= trimmed_parts(map_texts(entry_map(entries@.take(i + 1)))));
        i = i + 1;
    }
    assert(entries@.take(entries@.len() as int) =~= entries@);
    out
}

/// The number a field spells, or the default.
fn parse_or(field: &str, max: u64, default: u64) -> (r: u64)
    requires
        default <= max,
    ensures
        r == number_or(field@, max as nat, default as nat),
        r <= max,
{
    match parse_number(trimmed(field), max) {
        Some(n) => n,
        None => default,
    }
}

/// The properties the rows spell.
fn collect_props(rows: &Vec<(String, String)>) -> (r: TextMap<String>)
    ensures
        map_texts(r@) == collected_props(pair_texts(rows@)),
{
    let ghost all = pair_texts(rows@);
    let mut out: TextMap<String> = TextMap::new();
    let mut i: usize = 0;
    assert(all.take(0) =~= Seq::<Pair>::empty());
    assert(map_texts(out@) =~= Map::<Seq<char>, Seq<char>>::empty());
    while i < rows.len()
        invariant
            i <= rows@.len(),
            all == pair_texts(rows@),
            map_texts(out@) == collected_props(all.take(i as int)),
        decreases rows.len() - i,
    {
        let ghost next = all.take(i + 1);
        assert(next.drop_last() =~= all.take(i as int));
        assert(next.last() == all[i as int]);
        let key = trimmed(rows[i].0.as_str());
        let ghost earlier = map_texts(out@);
        if key.unicode_len() > 0 {
            let value = trimmed(rows[i].1.as_str());
            out.insert(key.to_owned(), value.to_owned());
            assert(map_texts(out@) =~= earlier.insert(key@, value@));
        }
        i = i + 1;
    }
    assert(all.take(all.len() as int) =~= all);
    out
}

impl ConnectionForm {
    /// A form nothing has been copied into.
    pub fn new() -> (r: Self)
        ensures
            r@ == blank_form(),
    {
        let r = ConnectionForm {
            name: String::new(),
            folder: String::new(),
            color: None,
            url: String::new(),
            url_overridden: false,
            url_parts: TextMap::new(),
            username: String::new(),
            password: String::new(),
            props: Vec::new(),
            read_only: false,
            auto_commit: true,
            confirm_writes: true,
            keep_alive_enabled: false,
            keep_alive_interval: String::new(),
            keep_alive_query: String::new(),
            tunnel_enabled: false,
            tunnel_open: false,
            tunnel_auth: TunnelAuth::Agent,
            tunnel_host: String::new(),
            tunnel_port: String::new(),
            tunnel_user: String::new(),
            tunnel_key: String::new(),
            tunnel_secret: String::new(),
            tunnel_remote_host: String::new(),
            tunnel_remote_port: String::new(),
        };
        assert(r@ =~= blank_form());
        r
    }

    /// Makes the part fields of a driver's template. What a field of that name
    /// already held is kept, and a URL that fits is taken apart into them.
    pub fn rebuild_url_parts(&mut self, driver: Option<&DriverDef>)
        ensures
            final(self)@ == with_parts(old(self)@, maybe_driver(driver)),
    {
        let ghost before = self@;
        let template = match driver {
            Some(driver) => driver.url_template.clone(),
            None => String::new(),
        };
        let port = match driver {
            Some(driver) => driver.default_port,
            None => None,
        };
        assert(template@ =~= template_for(maybe_driver(driver)));
        let names = placeholders_of(template.as_str());
        let mut parts = make_parts(&names, &self.url_parts, port);
        let url = trimmed(self.url.as_str());
        if url.unicode_len() > 0 {
            match decompose(template.as_str(), url) {
                Some(values) => {
                    assert(fillings(values@) =~= pair_texts(values@));
                    write_values(&mut parts, &values);
                },
                None => {},
            }
        }
        self.url_parts = parts;
        assert(self@ =~= with_parts(before, maybe_driver(driver)));
    }

    /// The URL the part fields assemble, without touching the URL field.
    pub fn assembled_url(&self, driver: Option<&DriverDef>) -> (r: String)
        ensures
            r@ == assembled_url(self@, maybe_driver(driver)),
    {
        match driver {
            Some(driver) => {
                let values = trim_parts(&self.url_parts);
                substitute(driver.url_template.as_str(), &values)
            },
            None => String::new(),
        }
    }

    /// Writes the assembled URL into the URL field, unless it is overridden.
    pub fn refresh_url(&mut self, driver: Option<&DriverDef>)
        ensures
            final(self)@ == with_url(old(self)@, maybe_driver(driver)),
    {
        let ghost before = self@;
        if !self.url_overridden {
            self.url = self.assembled_url(driver);
            assert(self@ =~= with_url(before, maybe_driver(driver)));
        }
    }

    /// Lets the assembled URL back into the URL field.
    pub fn reset_url(&mut self, driver: Option<&DriverDef>)
        ensures
            final(self)@ == with_url(
                (FormText { url_overridden: false, ..old(self)@ }),
                maybe_driver(driver),
            ),
    {
        let ghost before = self@;
        self.url_overridden = false;
        assert(self@ =~= (FormText { url_overridden: false, ..before }));
        self.refresh_url(driver);
    }

    /// Brings the URL field and the part fields in step.
    pub fn keep_in_step(&mut self, driver: Option<&DriverDef>, url_focused: bool)
        ensures
            final(self)@ == in_step(old(self)@, maybe_driver(driver), url_focused),
    {
        let ghost before = self@;
        if self.url_overridden {
            return;
        }
        let assembled = self.assembled_url(driver);
        let diverged = assembled.as_str().unicode_len() > 0 && !same_text(
            assembled.as_str(),
            trimmed(self.url.as_str()),
        );
        if diverged {
            if url_focused {
                self.url_overridden = true;
            } else {
                self.url = assembled;
            }
        }
        assert(self@ =~= in_step(before, maybe_driver(driver), url_focused));
    }

    /// Makes the rows of a set of driver properties, and an empty one to type
    /// into.
    pub fn rebuild_props(&mut self, props: &TextMap<String>)
        ensures
            final(self)@ == (FormText { props: prop_rows(map_texts(props@)), ..old(self)@ }),
    {
        let ghost before = self@;
        let mut rows = text_rows(props);
        let ghost shown = pair_texts(rows@);
        rows.push((String::new(), String::new()));
        self.props = rows;
        assert(self@.props =~= shown.push((Seq::empty(), Seq::empty())));
        assert(self@ =~= (FormText { props: prop_rows(map_texts(props@)), ..before }));
    }

    /// Adds an empty row of driver properties.
    pub fn add_prop(&mut self)
        ensures
            final(self)@ == (FormText {
                props: old(self)@.props.push((Seq::empty(), Seq::empty())),
                ..old(self)@
            }),
    {
        let ghost before = self@;
        self.props.push((String::new(), String::new()));
        assert(self@.props =~= before.props.push((Seq::empty(), Seq::empty())));
    }

    /// Copies a profile into every control. The secrets are left blank.
    pub fn fill(&mut self, profile: &ConnectionProfile, driver: Option<&DriverDef>)
        ensures
            final(self)@ == form_of(old(self)@, profile@, maybe_driver(driver)),
    {
        let ghost before = self@;
        let keep = match &profile.keep_alive {
            Some(keep) => KeepAlive { interval_s: keep.interval_s, query: keep.query.clone() },
            None => KeepAlive::default(),
        };
        let tunnel = match &profile.tunnel {
            Some(tunnel) => copy_tunnel(tunnel),
            None => TunnelConfig::default(),
        };
        let mut url_parts: TextMap<String> = TextMap::new();
        std::mem::swap(&mut url_parts, &mut self.url_parts);
        *self = ConnectionForm {
            name: profile.name.clone(),
            folder: match &profile.folder {
                Some(folder) => folder.clone(),
                None => String::new(),
            },
            color: copy_part(&profile.color),
            url: profile.url.clone(),
            url_overridden: self.url_overridden,
            url_parts,
            username: profile.username.clone(),
            password: String::new(),
            props: Vec::new(),
            read_only: profile.read_only,
            auto_commit: profile.auto_commit,
            confirm_writes: profile.confirm_writes,
            keep_alive_enabled: profile.keep_alive.is_some(),
            keep_alive_interval: decimal_text(keep.interval_s as u64),
            keep_alive_query: keep.query,
            tunnel_enabled: profile.tunnel.is_some(),
            tunnel_open: profile.tunnel.is_some(),
            tunnel_auth: copy_auth(&tunnel.auth),
            tunnel_host: tunnel.host,
            tunnel_port: decimal_text(tunnel.port as u64),
            tunnel_user: tunnel.username,
            tunnel_key: match &tunnel.auth {
                TunnelAuth::Key { path } => path.clone(),
                _ => String::new(),
            },
            tunnel_secret: String::new(),
            tunnel_remote_host: tunnel.remote_host,
            tunnel_remote_port: if tunnel.remote_port == 0 {
                String::new()
            } else {
                decimal_text(tunnel.remote_port as u64)
            },
        };
        self.rebuild_props(&profile.props);
        assert(self@ =~= copied(before, profile@));
        self.rebuild_url_parts(driver);
        let assembled = self.assembled_url(driver);
        self.url_overridden = profile.url.as_str().unicode_len() > 0 && !same_text(
            profile.url.as_str(),
            assembled.as_str(),
        );
        assert(self@ =~= form_of(before, profile@, maybe_driver(driver)));
    }

    /// Puts what the keychain answered into the two masked fields.
    pub fn fill_secrets(&mut self, password: Option<String>, tunnel: Option<String>)
        ensures
            final(self)@ == (FormText {
                password: text_or_empty(maybe_text(password)),
                tunnel_secret: text_or_empty(maybe_text(tunnel)),
                ..old(self)@
            }),
    {
        let ghost before = self@;
        self.password = match password {
            Some(password) => password,
            None => String::new(),
        };
        self.tunnel_secret = match tunnel {
            Some(secret) => secret,
            None => String::new(),
        };
        assert(self@ =~= (FormText {
            password: text_or_empty(maybe_text(password)),
            tunnel_secret: text_or_empty(maybe_text(tunnel)),
            ..before
        }));
    }

    /// Reads the form back into a profile. It starts from the stored profile, so
    /// that what no control edits survives.
    pub fn collect(&self, base: &ConnectionProfile) -> (r: ConnectionProfile)
        ensures
            r@ == collected(self@, base@),
    {
        let folder = trimmed(self.folder.as_str());
        let keep_alive = if self.keep_alive_enabled {
            let interval_s: u32 = parse_or(
                self.keep_alive_interval.as_str(),
                u32::MAX as u64,
                300,
            ) as u32;
            let query = trimmed(self.keep_alive_query.as_str());
            Some(
                KeepAlive {
                    interval_s,
                    query: if query.unicode_len() == 0 {
                        "select 1".to_owned()
                    } else {
                        query.to_owned()
                    },
                },
            )
        } else {
            None
        };
        let tunnel = if self.tunnel_enabled {
            let port: u16 = parse_or(self.tunnel_port.as_str(), u16::MAX as u64, 22) as u16;
            let remote_port: u16 = parse_or(
                self.tunnel_remote_port.as_str(),
                u16::MAX as u64,
                0,
            ) as u16;
            Some(
                TunnelConfig {
                    host: trimmed(self.tunnel_host.as_str()).to_owned(),
                    port,
                    username: trimmed(self.tunnel_user.as_str()).to_owned(),
                    auth: match &self.tunnel_auth {
                        TunnelAuth::Key { .. } => TunnelAuth::Key {
                            path: trimmed(self.tunnel_key.as_str()).to_owned(),
                        },
                        TunnelAuth::Password => TunnelAuth::Password,
                        TunnelAuth::Agent => TunnelAuth::Agent,
                    },
                    remote_host: trimmed(self.tunnel_remote_host.as_str()).to_owned(),
                    remote_port,
                    local_port: 0,
                },
            )
        } else {
            None
        };
        let r = ConnectionProfile {
            id: base.id,
            name: trimmed(self.name.as_str()).to_owned(),
            folder: if folder.unicode_len() == 0 {
                None
            } else {
                Some(folder.to_owned())
            },
            color: copy_part(&self.color),
            driver_id: base.driver_id.clone(),
            url: trimmed(self.url.as_str()).to_owned(),
            username: trimmed(self.username.as_str()).to_owned(),
            props: collect_props(&self.props),
            read_only: self.read_only,
            auto_commit: self.auto_commit,
            confirm_writes: self.confirm_writes,
            keep_alive,
            tunnel,
        };
        assert(r@ =~= collected(self@, base@));
        r
    }

    /// Turns the tunnel on or off; its section unfolds with it.
    pub fn set_tunnel(&mut self, enabled: bool)
        ensures
            final(self)@ == (FormText {
                tunnel_enabled: enabled,
                tunnel_open: enabled,
                ..old(self)@
            }),
    {
        self.tunnel_enabled = enabled;
        self.tunnel_open = enabled;
    }

    /// Takes one of the three ways to log in to the bastion.
    pub fn choose_auth(&mut self, index: usize)
        ensures
            final(self)@ == (FormText {
                tunnel_auth: if index == 1 {
                    AuthText::Key(Seq::empty())
                } else if index == 2 {
                    AuthText::Password
                } else {
                    AuthText::Agent
                },
                ..old(self)@
            }),
    {
        self.tunnel_auth = if index == 1 {
            TunnelAuth::Key { path: String::new() }
        } else if index == 2 {
            TunnelAuth::Password
        } else {
            TunnelAuth::Agent
        };
    }
}

/// A number in decimal has no white space around it.
proof fn lemma_number_is_trimmed(n: nat)
    ensures
        trim(decimal(n)) == decimal(n),
{
    number_reads_back(n, n);
    let digits = decimal(n);
    assert(digits.len() > 0);
    lemma_digits_only(n);
    assert(!is_white(digits[0]));
    assert(!is_white(digits.last()));
}

/// A number in decimal is made of digits.
proof fn lemma_digits_only(n: nat)
    ensures
        decimal(n).len() > 0,
        forall|i: int| 0 <= i < decimal(n).len() ==> '0' <= #[trigger] decimal(n)[i] <= '9',
    decreases n,
{
    if n >= 10 {
        lemma_digits_only(n / 10);
    }
}

/// Whether a text has no white space around it.
pub open spec fn tidy_text(s: Seq<char>) -> bool {
    trim(s) == s
}

/// Whether a map has an ascending list that spells it, as every map in a program
/// has.
pub open spec fn listable(map: Map<Seq<char>, Seq<char>>) -> bool {
    ascends(listed(map)) && spells_map(listed(map), map)
}

/// Whether the properties of a profile have names, and no white space around
/// either half.
pub open spec fn tidy_props(props: Map<Seq<char>, Seq<char>>) -> bool {
    forall|key: Seq<char>| #[trigger]
        props.dom().contains(key) ==> key.len() > 0 && tidy_text(key) && tidy_text(props[key])
}

/// Whether a profile is one a form writes: no text of it has white space around
/// it, nothing optional is there and empty, and its tunnel pins no local port.
pub open spec fn tidy(profile: ProfileText) -> bool {
    &&& tidy_text(profile.name)
    &&& match profile.folder {
        Some(folder) => folder.len() > 0 && tidy_text(folder),
        None => true,
    }
    &&& tidy_text(profile.url)
    &&& tidy_text(profile.username)
    &&& tidy_props(profile.props)
    &&& listable(profile.props)
    &&& match profile.keep_alive {
        Some(keep) => keep.query.len() > 0 && tidy_text(keep.query),
        None => true,
    }
    &&& match profile.tunnel {
        Some(tunnel) => tidy_text(tunnel.host) && tidy_text(tunnel.username) && tidy_text(
            tunnel.remote_host,
        ) && tidy_text(key_path(tunnel.auth)) && tunnel.local_port == 0,
        None => true,
    }
}

/// Properties that are listed in rows and collected again are the same.
proof fn lemma_props_come_back(list: Seq<Pair>, props: Map<Seq<char>, Seq<char>>)
    requires
        ascends(list),
        spells_map(list, props),
        tidy_props(props),
    ensures
        collected_props(list) == props,
    decreases list.len(),
{
    if list.len() == 0 {
        assert forall|key: Seq<char>| !#[trigger] props.dom().contains(key) by {
            if props.dom().contains(key) {
                assert(has_key(list, key));
            }
        }
        assert(props =~= Map::empty());
    } else {
        listing_shortens(list, props);
        let top = list.last().0;
        lemma_props_come_back(list.drop_last(), props.remove(top));
        assert(props.dom().contains(list[list.len() - 1].0));
        assert(collected_props(list) =~= props);
    }
}

/// A profile that is opened in the form and saved untouched is the profile it
/// was.
pub proof fn an_untouched_form_keeps_the_profile(
    form: FormText,
    profile: ProfileText,
    driver: Option<DriverText>,
)
    requires
        tidy(profile),
    ensures
        collected(form_of(form, profile, driver), profile) == profile,
{
    let shown = form_of(form, profile, driver);
    let rows = listed(profile.props);
    assert(trim(Seq::<char>::empty()) =~= Seq::<char>::empty());
    assert(shown.props.drop_last() =~= rows);
    lemma_props_come_back(rows, profile.props);
    if profile.keep_alive is Some {
        let interval = profile.keep_alive.unwrap().interval_s as nat;
        lemma_number_is_trimmed(interval);
        number_reads_back(interval, u32::MAX as nat);
    }
    if profile.tunnel is Some {
        let tunnel = profile.tunnel.unwrap();
        lemma_number_is_trimmed(tunnel.port as nat);
        number_reads_back(tunnel.port as nat, u16::MAX as nat);
        lemma_number_is_trimmed(tunnel.remote_port as nat);
        number_reads_back(tunnel.remote_port as nat, u16::MAX as nat);
    }
    assert(collected(shown, profile) =~= profile);
}

/// Opening a saved profile does not rewrite its URL, wherever the caret stands:
/// either the part fields assemble it, or it is an override from the start.
pub proof fn opening_a_profile_keeps_its_url(
    form: FormText,
    profile: ProfileText,
    driver: Option<DriverText>,
    url_focused: bool,
)
    requires
        profile.url.len() > 0,
        tidy_text(profile.url),
    ensures
        in_step(form_of(form, profile, driver), driver, url_focused).url == profile.url,
{
    let shown = form_of(form, profile, driver);
    let parts = with_parts(copied(form, profile), driver);
    assert(assembled_url(shown, driver) == assembled_url(parts, driver));
}

/// A URL that is an override is left alone, whatever the part fields say.
pub proof fn an_override_stands(form: FormText, driver: Option<DriverText>, url_focused: bool)
    requires
        form.url_overridden,
    ensures
        in_step(form, driver, url_focused) == form,
        with_url(form, driver) == form,
        with_parts(form, driver).url == form.url,
{
}

/// Typing in the URL field is an override, and typing in a part field shows in
/// the URL: once the two are in step, the URL either is an override or is the
/// assembled one, and what stands in the field with the caret is not rewritten.
pub proof fn the_field_with_the_caret_wins(
    form: FormText,
    driver: Option<DriverText>,
    url_focused: bool,
)
    ensures
        ({
            let after = in_step(form, driver, url_focused);
            &&& after.url_parts == form.url_parts
            &&& url_focused ==> after.url == form.url
            &&& !after.url_overridden && assembled_url(form, driver).len() > 0 ==> after.url
                == assembled_url(form, driver) || trim(after.url) == assembled_url(form, driver)
        }),
{
}

/// The two secrets are no part of a profile: whatever stands in their fields, the
/// form is read back into the same profile.
pub proof fn secrets_stay_out_of_the_profile(
    form: FormText,
    base: ProfileText,
    password: Seq<char>,
    tunnel_secret: Seq<char>,
)
    ensures
        collected(FormText { password, tunnel_secret, ..form }, base) == collected(form, base),
{
}

} // verus!
