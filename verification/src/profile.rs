//! Saved connections and driver definitions, as plain values, and the two lists
//! they are kept in.

use vstd::prelude::*;

use crate::erd_pane::copy_part;
use crate::keyed::{first_is_matched, first_match, first_match_is_first, found, put, without};
use crate::ordered::{copy_text_map, map_texts, TextMap};
use crate::text::{copy_texts, maybe_text, same_text, texts};

verus! {

/// A probe that keeps an idle session from being dropped.
#[derive(Debug, PartialEq, Eq)]
pub struct KeepAlive {
    pub interval_s: u32,
    pub query: String,
}

/// A probe that keeps an idle session from being dropped.
#[verifier::ext_equal]
pub ghost struct KeepAliveText {
    pub interval_s: u32,
    pub query: Seq<char>,
}

/// The probe a form offers: every five minutes, the statement nearly every
/// product takes.
pub open spec fn usual_keep_alive() -> KeepAliveText {
    KeepAliveText { interval_s: 300, query: "select 1"@ }
}

impl Default for KeepAlive {
    fn default() -> (r: Self)
        ensures
            r@ == usual_keep_alive(),
    {
        KeepAlive { interval_s: 300, query: "select 1".to_owned() }
    }
}

impl View for KeepAlive {
    type V = KeepAliveText;

    open spec fn view(&self) -> KeepAliveText {
        KeepAliveText { interval_s: self.interval_s, query: self.query@ }
    }
}

/// How a bastion is logged in to.
#[derive(Debug, PartialEq, Eq)]
pub enum TunnelAuth {
    Agent,
    Key { path: String },
    Password,
}

/// How a bastion is logged in to.
pub ghost enum AuthText {
    Agent,
    Key(Seq<char>),
    Password,
}

impl View for TunnelAuth {
    type V = AuthText;

    open spec fn view(&self) -> AuthText {
        match self {
            TunnelAuth::Agent => AuthText::Agent,
            TunnelAuth::Key { path } => AuthText::Key(path@),
            TunnelAuth::Password => AuthText::Password,
        }
    }
}

/// A tunnel through a bastion.
#[derive(Debug, PartialEq, Eq)]
pub struct TunnelConfig {
    pub host: String,
    pub port: u16,
    pub username: String,
    pub auth: TunnelAuth,
    pub remote_host: String,
    pub remote_port: u16,
    pub local_port: u16,
}

/// A tunnel through a bastion.
#[verifier::ext_equal]
pub ghost struct TunnelText {
    pub host: Seq<char>,
    pub port: u16,
    pub username: Seq<char>,
    pub auth: AuthText,
    pub remote_host: Seq<char>,
    pub remote_port: u16,
    pub local_port: u16,
}

impl View for TunnelConfig {
    type V = TunnelText;

    open spec fn view(&self) -> TunnelText {
        TunnelText {
            host: self.host@,
            port: self.port,
            username: self.username@,
            auth: self.auth@,
            remote_host: self.remote_host@,
            remote_port: self.remote_port,
            local_port: self.local_port,
        }
    }
}

/// The tunnel a form starts from: the usual port, the agent, and nothing else.
pub open spec fn blank_tunnel() -> TunnelText {
    TunnelText {
        host: Seq::empty(),
        port: 22,
        username: Seq::empty(),
        auth: AuthText::Agent,
        remote_host: Seq::empty(),
        remote_port: 0,
        local_port: 0,
    }
}

impl Default for TunnelConfig {
    fn default() -> (r: Self)
        ensures
            r@ == blank_tunnel(),
    {
        TunnelConfig {
            host: String::new(),
            port: 22,
            username: String::new(),
            auth: TunnelAuth::Agent,
            remote_host: String::new(),
            remote_port: 0,
            local_port: 0,
        }
    }
}

/// A saved connection.
pub struct ConnectionProfile {
    /// The identity everything else of the profile is filed under.
    pub id: u128,
    pub name: String,
    pub folder: Option<String>,
    pub color: Option<String>,
    pub driver_id: String,
    pub url: String,
    pub username: String,
    pub props: TextMap<String>,
    pub read_only: bool,
    pub auto_commit: bool,
    pub confirm_writes: bool,
    pub keep_alive: Option<KeepAlive>,
    pub tunnel: Option<TunnelConfig>,
}

/// A saved connection.
#[verifier::ext_equal]
pub ghost struct ProfileText {
    pub id: u128,
    pub name: Seq<char>,
    pub folder: Option<Seq<char>>,
    pub color: Option<Seq<char>>,
    pub driver_id: Seq<char>,
    pub url: Seq<char>,
    pub username: Seq<char>,
    pub props: Map<Seq<char>, Seq<char>>,
    pub read_only: bool,
    pub auto_commit: bool,
    pub confirm_writes: bool,
    pub keep_alive: Option<KeepAliveText>,
    pub tunnel: Option<TunnelText>,
}

/// A keep-alive that may be absent.
pub open spec fn maybe_keep_alive(keep: Option<KeepAlive>) -> Option<KeepAliveText> {
    match keep {
        Some(keep) => Some(keep@),
        None => None,
    }
}

/// A tunnel that may be absent.
pub open spec fn maybe_tunnel(tunnel: Option<TunnelConfig>) -> Option<TunnelText> {
    match tunnel {
        Some(tunnel) => Some(tunnel@),
        None => None,
    }
}

impl View for ConnectionProfile {
    type V = ProfileText;

    open spec fn view(&self) -> ProfileText {
        ProfileText {
            id: self.id,
            name: self.name@,
            folder: maybe_text(self.folder),
            color: maybe_text(self.color),
            driver_id: self.driver_id@,
            url: self.url@,
            username: self.username@,
            props: map_texts(self.props@),
            read_only: self.read_only,
            auto_commit: self.auto_commit,
            confirm_writes: self.confirm_writes,
            keep_alive: maybe_keep_alive(self.keep_alive),
            tunnel: maybe_tunnel(self.tunnel),
        }
    }
}

/// A profile with these four things and nothing else set: it may be written
/// through, commits as it goes, and confirms writes.
pub open spec fn fresh_profile(
    id: u128,
    name: Seq<char>,
    driver_id: Seq<char>,
    url: Seq<char>,
    username: Seq<char>,
) -> ProfileText {
    ProfileText {
        id,
        name,
        folder: None,
        color: None,
        driver_id,
        url,
        username,
        props: Map::empty(),
        read_only: false,
        auto_commit: true,
        confirm_writes: true,
        keep_alive: None,
        tunnel: None,
    }
}

/// A copy of a login method.
pub fn copy_auth(auth: &TunnelAuth) -> (r: TunnelAuth)
    ensures
        r == *auth,
{
    match auth {
        TunnelAuth::Agent => TunnelAuth::Agent,
        TunnelAuth::Key { path } => TunnelAuth::Key { path: path.clone() },
        TunnelAuth::Password => TunnelAuth::Password,
    }
}

/// A copy of a tunnel.
pub fn copy_tunnel(tunnel: &TunnelConfig) -> (r: TunnelConfig)
    ensures
        r == *tunnel,
{
    TunnelConfig {
        host: tunnel.host.clone(),
        port: tunnel.port,
        username: tunnel.username.clone(),
        auth: copy_auth(&tunnel.auth),
        remote_host: tunnel.remote_host.clone(),
        remote_port: tunnel.remote_port,
        local_port: tunnel.local_port,
    }
}

impl ConnectionProfile {
    /// A profile with these four things and nothing else set.
    pub fn new(id: u128, name: &str, driver_id: &str, url: &str, username: &str) -> (r: Self)
        ensures
            r@ == fresh_profile(id, name@, driver_id@, url@, username@),
    {
        let r = ConnectionProfile {
            id,
            name: name.to_owned(),
            folder: None,
            color: None,
            driver_id: driver_id.to_owned(),
            url: url.to_owned(),
            username: username.to_owned(),
            props: TextMap::new(),
            read_only: false,
            auto_commit: true,
            confirm_writes: true,
            keep_alive: None,
            tunnel: None,
        };
        assert(r@.props =~= Map::<Seq<char>, Seq<char>>::empty());
        r
    }

    /// A copy of the profile.
    pub fn copy(&self) -> (r: Self)
        ensures
            r@ == self@,
    {
        ConnectionProfile {
            id: self.id,
            name: self.name.clone(),
            folder: copy_part(&self.folder),
            color: copy_part(&self.color),
            driver_id: self.driver_id.clone(),
            url: self.url.clone(),
            username: self.username.clone(),
            props: copy_text_map(&self.props),
            read_only: self.read_only,
            auto_commit: self.auto_commit,
            confirm_writes: self.confirm_writes,
            keep_alive: match &self.keep_alive {
                Some(keep) => Some(
                    KeepAlive { interval_s: keep.interval_s, query: keep.query.clone() },
                ),
                None => None,
            },
            tunnel: match &self.tunnel {
                Some(tunnel) => Some(copy_tunnel(tunnel)),
                None => None,
            },
        }
    }
}

impl Default for ConnectionProfile {
    fn default() -> (r: Self)
        ensures
            r@ == fresh_profile(
                0,
                Seq::empty(),
                Seq::empty(),
                Seq::empty(),
                Seq::empty(),
            ),
    {
        let r = ConnectionProfile {
            id: 0,
            name: String::new(),
            folder: None,
            color: None,
            driver_id: String::new(),
            url: String::new(),
            username: String::new(),
            props: TextMap::new(),
            read_only: false,
            auto_commit: true,
            confirm_writes: true,
            keep_alive: None,
            tunnel: None,
        };
        assert(r@.props =~= Map::<Seq<char>, Seq<char>>::empty());
        r
    }
}

/// The saved connections, in the order the user arranged them.
pub struct ConnectionStore {
    pub connections: Vec<ConnectionProfile>,
}

impl View for ConnectionStore {
    type V = Seq<ProfileText>;

    open spec fn view(&self) -> Seq<ProfileText> {
        self.connections@.map_values(|p: ConnectionProfile| p@)
    }
}

/// Whether a profile has the identity.
pub open spec fn has_id(id: u128) -> spec_fn(ProfileText) -> bool {
    |p: ProfileText| p.id == id
}

impl Default for ConnectionStore {
    fn default() -> (r: Self)
        ensures
            r@ == Seq::<ProfileText>::empty(),
    {
        let r = ConnectionStore { connections: Vec::new() };
        assert(r@ =~= Seq::<ProfileText>::empty());
        r
    }
}

impl ConnectionStore {
    /// Where the profile stands, or the end.
    fn position(&self, id: u128) -> (r: usize)
        ensures
            r <= self@.len(),
            first_match(self@, has_id(id)) == (if r < self@.len() {
                Some(r as int)
            } else {
                None
            }),
    {
        let mut i: usize = 0;
        while i < self.connections.len()
            invariant
                i <= self@.len(),
                self@.len() == self.connections@.len(),
                forall|k: int| 0 <= k < i ==> !has_id(id)(#[trigger] self@[k]),
            decreases self.connections.len() - i,
        {
            if self.connections[i].id == id {
                proof {
                    first_is_matched(self@, has_id(id), i as int);
                }
                return i;
            }
            i = i + 1;
        }
        proof {
            first_match_is_first(self@, has_id(id));
        }
        i
    }

    /// The profile with the identity.
    pub fn get(&self, id: u128) -> (r: Option<&ConnectionProfile>)
        ensures
            match r {
                Some(profile) => found(self@, has_id(id)) == Some(profile@),
                None => found(self@, has_id(id)) is None,
            },
    {
        let at: usize = self.position(id);
        if at < self.connections.len() {
            Some(&self.connections[at])
        } else {
            None
        }
    }

    /// Puts a profile in place of the one with its identity, or behind the rest.
    pub fn upsert(&mut self, profile: ConnectionProfile)
        ensures
            final(self)@ == put(old(self)@, has_id(profile@.id), profile@),
    {
        let ghost before = self@;
        let ghost shown = profile@;
        let at: usize = self.position(profile.id);
        if at < self.connections.len() {
            self.connections.remove(at);
            self.connections.insert(at, profile);
            assert(self@ =~= before.update(at as int, shown));
        } else {
            self.connections.push(profile);
            assert(self@ =~= before.push(shown));
        }
    }

    /// Takes the profile with the identity out.
    pub fn remove(&mut self, id: u128)
        ensures
            final(self)@ == without(old(self)@, has_id(id)),
    {
        let ghost before = self@;
        let at: usize = self.position(id);
        if at < self.connections.len() {
            self.connections.remove(at);
            assert(self@ =~= before.remove(at as int));
        }
    }

    /// The first of the profiles.
    pub fn first(&self) -> (r: Option<u128>)
        ensures
            r == (if self@.len() > 0 {
                Some(self@[0].id)
            } else {
                None
            }),
    {
        if self.connections.len() > 0 {
            Some(self.connections[0].id)
        } else {
            None
        }
    }
}

/// A driver definition.
#[derive(Debug)]
pub struct DriverDef {
    pub id: String,
    pub name: String,
    /// The fully qualified name of the driver class.
    pub class: String,
    /// The class path, in the order it is searched.
    pub jars: Vec<String>,
    /// The shape of a URL, with `{placeholder}` holes.
    pub url_template: String,
    pub dialect: String,
    pub default_port: Option<u16>,
    /// Where the JAR can be fetched from.
    pub maven: Option<String>,
    pub use_table_comments: bool,
    pub table_comments_sql: String,
    pub use_column_comments: bool,
    pub column_comments_sql: String,
}

/// A driver definition.
#[verifier::ext_equal]
pub ghost struct DriverText {
    pub id: Seq<char>,
    pub name: Seq<char>,
    pub class: Seq<char>,
    pub jars: Seq<Seq<char>>,
    pub url_template: Seq<char>,
    pub dialect: Seq<char>,
    pub default_port: Option<u16>,
    pub maven: Option<Seq<char>>,
    pub use_table_comments: bool,
    pub table_comments_sql: Seq<char>,
    pub use_column_comments: bool,
    pub column_comments_sql: Seq<char>,
}

impl View for DriverDef {
    type V = DriverText;

    open spec fn view(&self) -> DriverText {
        DriverText {
            id: self.id@,
            name: self.name@,
            class: self.class@,
            jars: texts(self.jars@),
            url_template: self.url_template@,
            dialect: self.dialect@,
            default_port: self.default_port,
            maven: maybe_text(self.maven),
            use_table_comments: self.use_table_comments,
            table_comments_sql: self.table_comments_sql@,
            use_column_comments: self.use_column_comments,
            column_comments_sql: self.column_comments_sql@,
        }
    }
}

/// A driver definition with nothing in it.
pub open spec fn blank_driver() -> DriverText {
    DriverText {
        id: Seq::empty(),
        name: Seq::empty(),
        class: Seq::empty(),
        jars: Seq::empty(),
        url_template: Seq::empty(),
        dialect: Seq::empty(),
        default_port: None,
        maven: None,
        use_table_comments: false,
        table_comments_sql: Seq::empty(),
        use_column_comments: false,
        column_comments_sql: Seq::empty(),
    }
}

impl Default for DriverDef {
    fn default() -> (r: Self)
        ensures
            r@ == blank_driver(),
    {
        let r = DriverDef {
            id: String::new(),
            name: String::new(),
            class: String::new(),
            jars: Vec::new(),
            url_template: String::new(),
            dialect: String::new(),
            default_port: None,
            maven: None,
            use_table_comments: false,
            table_comments_sql: String::new(),
            use_column_comments: false,
            column_comments_sql: String::new(),
        };
        assert(r@.jars =~= Seq::<Seq<char>>::empty());
        r
    }
}

impl DriverDef {
    /// A copy of the definition.
    pub fn copy(&self) -> (r: Self)
        ensures
            r@ == self@,
    {
        DriverDef {
            id: self.id.clone(),
            name: self.name.clone(),
            class: self.class.clone(),
            jars: copy_texts(&self.jars),
            url_template: self.url_template.clone(),
            dialect: self.dialect.clone(),
            default_port: self.default_port,
            maven: copy_part(&self.maven),
            use_table_comments: self.use_table_comments,
            table_comments_sql: self.table_comments_sql.clone(),
            use_column_comments: self.use_column_comments,
            column_comments_sql: self.column_comments_sql.clone(),
        }
    }
}

/// The driver definitions.
#[derive(Debug)]
pub struct DriverStore {
    pub drivers: Vec<DriverDef>,
}

impl View for DriverStore {
    type V = Seq<DriverText>;

    open spec fn view(&self) -> Seq<DriverText> {
        self.drivers@.map_values(|d: DriverDef| d@)
    }
}

/// Whether a definition has the id.
pub open spec fn has_driver_id(id: Seq<char>) -> spec_fn(DriverText) -> bool {
    |d: DriverText| d.id == id
}

impl DriverStore {
    /// Where the definition stands, or the end.
    fn position(&self, id: &str) -> (r: usize)
        ensures
            r <= self@.len(),
            first_match(self@, has_driver_id(id@)) == (if r < self@.len() {
                Some(r as int)
            } else {
                None
            }),
    {
        let mut i: usize = 0;
        while i < self.drivers.len()
            invariant
                i <= self@.len(),
                self@.len() == self.drivers@.len(),
                forall|k: int| 0 <= k < i ==> !has_driver_id(id@)(#[trigger] self@[k]),
            decreases self.drivers.len() - i,
        {
            if same_text(self.drivers[i].id.as_str(), id) {
                proof {
                    first_is_matched(self@, has_driver_id(id@), i as int);
                }
                return i;
            }
            i = i + 1;
        }
        proof {
            first_match_is_first(self@, has_driver_id(id@));
        }
        i
    }

    /// The definition with the id.
    pub fn get(&self, id: &str) -> (r: Option<&DriverDef>)
        ensures
            match r {
                Some(driver) => found(self@, has_driver_id(id@)) == Some(driver@),
                None => found(self@, has_driver_id(id@)) is None,
            },
    {
        let at: usize = self.position(id);
        if at < self.drivers.len() {
            Some(&self.drivers[at])
        } else {
            None
        }
    }

    /// Puts a definition in place of the one with its id, or behind the rest.
    pub fn upsert(&mut self, driver: DriverDef)
        ensures
            final(self)@ == put(old(self)@, has_driver_id(driver@.id), driver@),
    {
        let ghost before = self@;
        let ghost shown = driver@;
        let at: usize = self.position(driver.id.as_str());
        if at < self.drivers.len() {
            self.drivers.remove(at);
            self.drivers.insert(at, driver);
            assert(self@ =~= before.update(at as int, shown));
        } else {
            self.drivers.push(driver);
            assert(self@ =~= before.push(shown));
        }
    }

    /// Takes the definition with the id out.
    pub fn remove(&mut self, id: &str)
        ensures
            final(self)@ == without(old(self)@, has_driver_id(id@)),
    {
        let ghost before = self@;
        let at: usize = self.position(id);
        if at < self.drivers.len() {
            self.drivers.remove(at);
            assert(self@ =~= before.remove(at as int));
        }
    }

    /// The id of the first definition.
    pub fn first(&self) -> (r: Option<String>)
        ensures
            maybe_text(r) == (if self@.len() > 0 {
                Some(self@[0].id)
            } else {
                None
            }),
    {
        if self.drivers.len() > 0 {
            Some(self.drivers[0].id.clone())
        } else {
            None
        }
    }
}

/// A profile reads as what it holds, and so do its tunnel, its keep-alive and its
/// driver.
pub proof fn a_profile_reads_as_it_is(
    profile: ConnectionProfile,
    tunnel: TunnelConfig,
    keep: KeepAlive,
    auth: TunnelAuth,
    driver: DriverDef,
)
    ensures
        profile@.id == profile.id,
        profile@.name == profile.name@,
        profile@.folder == maybe_text(profile.folder),
        profile@.color == maybe_text(profile.color),
        profile@.driver_id == profile.driver_id@,
        profile@.url == profile.url@,
        profile@.username == profile.username@,
        profile@.props == map_texts(profile.props@),
        profile@.read_only == profile.read_only,
        profile@.auto_commit == profile.auto_commit,
        profile@.confirm_writes == profile.confirm_writes,
        profile@.keep_alive is Some <==> profile.keep_alive is Some,
        profile.keep_alive matches Some(kept) ==> profile@.keep_alive == Some(kept@),
        profile@.tunnel is Some <==> profile.tunnel is Some,
        profile.tunnel matches Some(through) ==> profile@.tunnel == Some(through@),
        tunnel@.host == tunnel.host@,
        tunnel@.port == tunnel.port,
        tunnel@.username == tunnel.username@,
        tunnel@.auth == tunnel.auth@,
        tunnel@.remote_host == tunnel.remote_host@,
        tunnel@.remote_port == tunnel.remote_port,
        tunnel@.local_port == tunnel.local_port,
        keep@.interval_s == keep.interval_s,
        keep@.query == keep.query@,
        auth is Agent <==> auth@ is Agent,
        auth is Password <==> auth@ is Password,
        auth matches TunnelAuth::Key { path } ==> auth@ == AuthText::Key(path@),
        driver@.id == driver.id@,
        driver@.name == driver.name@,
        driver@.class == driver.class@,
        driver@.jars == texts(driver.jars@),
        driver@.url_template == driver.url_template@,
        driver@.dialect == driver.dialect@,
        driver@.default_port == driver.default_port,
        driver@.maven == maybe_text(driver.maven),
        driver@.use_table_comments == driver.use_table_comments,
        driver@.table_comments_sql == driver.table_comments_sql@,
        driver@.use_column_comments == driver.use_column_comments,
        driver@.column_comments_sql == driver.column_comments_sql@,
{
}

/// A new profile holds what it was made with and nothing else: changes are committed
/// at once and writes confirmed, it may be written through, and it goes through no
/// tunnel.
pub proof fn a_new_profile_holds_what_it_was_made_with(
    id: u128,
    name: Seq<char>,
    driver_id: Seq<char>,
    url: Seq<char>,
    username: Seq<char>,
)
    ensures
        ({
            let profile = fresh_profile(id, name, driver_id, url, username);
            &&& profile.id == id
            &&& profile.name == name
            &&& profile.driver_id == driver_id
            &&& profile.url == url
            &&& profile.username == username
            &&& profile.folder is None
            &&& profile.color is None
            &&& profile.props.dom() == Set::<Seq<char>>::empty()
            &&& !profile.read_only
            &&& profile.auto_commit
            &&& profile.confirm_writes
            &&& profile.keep_alive is None
            &&& profile.tunnel is None
        }),
        has_id(id)(fresh_profile(id, name, driver_id, url, username)),
{
    assert(fresh_profile(id, name, driver_id, url, username).props.dom() =~= Set::<
        Seq<char>,
    >::empty());
}

/// A profile answers to its own number and to no other, and a driver to its own name.
pub proof fn an_entry_answers_to_its_own_key(
    profile: ProfileText,
    id: u128,
    driver: DriverText,
    name: Seq<char>,
)
    ensures
        has_id(id)(profile) <==> profile.id == id,
        has_driver_id(name)(driver) <==> driver.id == name,
{
}

/// A new driver says nothing: no class, no archives, no port and no comments asked for.
pub proof fn a_new_driver_says_nothing()
    ensures
        ({
            let driver = blank_driver();
            &&& driver.id.len() == 0
            &&& driver.name.len() == 0
            &&& driver.class.len() == 0
            &&& driver.jars.len() == 0
            &&& driver.url_template.len() == 0
            &&& driver.dialect.len() == 0
            &&& driver.default_port is None
            &&& driver.maven is None
            &&& !driver.use_table_comments
            &&& driver.table_comments_sql.len() == 0
            &&& !driver.use_column_comments
            &&& driver.column_comments_sql.len() == 0
        }),
{
}

} // verus!
