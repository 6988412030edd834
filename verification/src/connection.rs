//! Opening and closing a database session.
//!
//! The tunnel stands up first and lies down last: a session whose tunnel closed
//! underneath it sees nothing but an unexplained socket error. What is decided
//! on the way — which step comes next, what a failure says, whether the attempt
//! is made once more — is decided here; the sockets are somebody else's.

use vstd::prelude::*;

use crate::erd_pane::copy_part;
use crate::ordered::{copy_text_map, map_texts, TextMap};
use crate::profile::{ConnectionProfile, DriverDef, DriverText, KeepAliveText, ProfileText};
use crate::template::{redirect_authority, redirected};
use crate::text::{
    copy_texts, maybe_text, occurs, occurs_at, same_text, str_text, text_occurs, texts, trim,
    trimmed,
};

verus! {

/// Placeholders that name the catalogue rather than the server.
pub const CATALOGUE_PLACEHOLDERS: [&'static str; 4] = ["database", "service", "sid", "file"];

/// A profile's secrets, held no longer than the connection attempt they belong
/// to.
pub struct Credentials {
    /// The database password.
    pub password: Option<String>,
    /// The tunnel's password or key passphrase.
    pub tunnel: Option<String>,
}

impl Credentials {
    /// The secrets of `profile`, out of what the two slots of the keychain
    /// answered: a profile without a tunnel has no use for a tunnel's secret.
    pub fn read(
        profile: &ConnectionProfile,
        password: Option<String>,
        tunnel: Option<String>,
    ) -> (r: Self)
        ensures
            r.password == password,
            r.tunnel == (if profile.tunnel is Some {
                tunnel
            } else {
                None
            }),
    {
        Credentials {
            password,
            tunnel: match &profile.tunnel {
                Some(_) => tunnel,
                None => None,
            },
        }
    }

    /// Secrets typed into a form that has not been saved.
    pub fn typed(password: Option<String>, tunnel: Option<String>) -> (r: Self)
        ensures
            r == (Credentials { password, tunnel }),
    {
        Credentials { password, tunnel }
    }
}

/// Which layer an error of the driver came from.
#[derive(Clone, Copy, Debug, PartialEq, Eq, Structural)]
pub enum BridgeErrorKind {
    /// The driver class, or a URL it does not recognise.
    Driver,
    /// A file or a socket.
    Io,
    /// The database.
    Sql,
    /// Anything else.
    Other,
}

/// An error of the driver or the database.
#[derive(Debug)]
pub struct BridgeError {
    pub kind: BridgeErrorKind,
    pub sql_state: Option<String>,
    pub message: String,
    /// The flattened chain of causes, outermost first.
    pub causes: Vec<String>,
    /// The error in one line: the kind, the state and the message.
    pub shown: String,
}

/// An error of the layer that talks to the driver.
#[derive(Debug)]
pub enum JdbcError {
    /// The virtual machine would not start.
    JvmStart(String),
    /// The driver or the database refused.
    Bridge(BridgeError),
    /// Anything else, in one line.
    Other(String),
}

/// Anything that can stop a connection from opening, split by where the fix is.
#[derive(Debug)]
pub enum ConnectError {
    /// The driver has no JAR, so there is nothing to load the class from.
    NoDriverJar(String),
    /// The virtual machine would not start.
    JvmStart(String),
    /// The tunnel could not be established.
    Tunnel(String),
    /// The bastion presented a host key that is not the one on record.
    HostKeyMismatch { host: String, presented: String, stored: String },
    /// The bastion presented a host key nothing has ever trusted.
    HostKeyUnknown { host: String, fingerprint: String, algorithm: String },
    /// The driver or the database refused.
    Database(BridgeError),
    /// Anything else that came back from the driver's layer.
    Bridge(String),
}

/// The first two characters of a state.
pub open spec fn state_class(state: Option<Seq<char>>) -> Option<Seq<char>> {
    match state {
        Some(state) => if state.len() >= 2 {
            Some(state.take(2))
        } else {
            None
        },
        None => None,
    }
}

/// The class of the state a failure carries: only one that reached the database
/// has any.
pub open spec fn error_class(error: ConnectError) -> Option<Seq<char>> {
    match error {
        ConnectError::Database(error) => state_class(maybe_text(error.sql_state)),
        _ => None,
    }
}

/// Whether the credentials were refused.
pub open spec fn refused_credentials(error: ConnectError) -> bool {
    error_class(error) == Some("28"@)
}

/// Whether the driver is at fault rather than the database.
pub open spec fn driver_at_fault(error: ConnectError) -> bool {
    match error {
        ConnectError::NoDriverJar(_) => true,
        ConnectError::Database(error) => error.kind == BridgeErrorKind::Driver,
        _ => false,
    }
}

/// What a failure says.
pub open spec fn error_message(error: ConnectError) -> Seq<char> {
    match error {
        ConnectError::NoDriverJar(name) => "the driver “"@ + name@
            + "” has no JAR; add one in the driver manager"@,
        ConnectError::JvmStart(message) => message@,
        ConnectError::Tunnel(message) => message@,
        ConnectError::HostKeyMismatch { host, presented, stored } => "the host key of "@ + host@
            + " has changed: "@ + presented@ + " was presented, "@ + stored@ + " is on record"@,
        ConnectError::HostKeyUnknown { host, fingerprint, algorithm } => host@
            + " presented an unknown "@ + algorithm@ + " host key: "@ + fingerprint@,
        ConnectError::Database(error) => if error.causes@.len() > 0 {
            error.shown@ + " — "@ + error.causes@[0]@
        } else {
            error.shown@
        },
        ConnectError::Bridge(message) => message@,
    }
}

/// What a failure of the driver's layer is called here.
pub open spec fn named_error(error: JdbcError) -> ConnectError {
    match error {
        JdbcError::JvmStart(message) => ConnectError::JvmStart(message),
        JdbcError::Bridge(bridge) => ConnectError::Database(bridge),
        JdbcError::Other(shown) => ConnectError::Bridge(shown),
    }
}

impl ConnectError {
    /// The class of the state, when the failure came from the database.
    pub fn sql_state_class(&self) -> (r: Option<&str>)
        ensures
            str_text(r) == error_class(*self),
    {
        match self {
            ConnectError::Database(error) => match &error.sql_state {
                Some(state) => {
                    let text = state.as_str();
                    if text.unicode_len() >= 2 {
                        let class = text.substring_char(0, 2);
                        assert(class@ =~= text@.take(2));
                        Some(class)
                    } else {
                        None
                    }
                },
                None => None,
            },
            _ => None,
        }
    }

    /// Whether the database said the credentials were wrong.
    pub fn is_authentication(&self) -> (r: bool)
        ensures
            r == refused_credentials(*self),
    {
        match self.sql_state_class() {
            Some(class) => same_text(class, "28"),
            None => false,
        }
    }

    /// Whether the failure was the driver rather than the database.
    pub fn is_driver(&self) -> (r: bool)
        ensures
            r == driver_at_fault(*self),
    {
        match self {
            ConnectError::NoDriverJar(_) => true,
            ConnectError::Database(error) => error.kind == BridgeErrorKind::Driver,
            _ => false,
        }
    }

    /// The message that is shown.
    pub fn message(&self) -> (r: String)
        ensures
            r@ == error_message(*self),
    {
        match self {
            ConnectError::NoDriverJar(name) => {
                let mut message = "the driver “".to_owned();
                message.append(name.as_str());
                message.append("” has no JAR; add one in the driver manager");
                message
            },
            ConnectError::JvmStart(message) => message.clone(),
            ConnectError::Tunnel(message) => message.clone(),
            ConnectError::HostKeyMismatch { host, presented, stored } => {
                let mut message = "the host key of ".to_owned();
                message.append(host.as_str());
                message.append(" has changed: ");
                message.append(presented.as_str());
                message.append(" was presented, ");
                message.append(stored.as_str());
                message.append(" is on record");
                message
            },
            ConnectError::HostKeyUnknown { host, fingerprint, algorithm } => {
                let mut message = host.clone();
                message.append(" presented an unknown ");
                message.append(algorithm.as_str());
                message.append(" host key: ");
                message.append(fingerprint.as_str());
                message
            },
            ConnectError::Database(error) => {
                let mut message = error.shown.clone();
                if error.causes.len() > 0 {
                    message.append(" — ");
                    message.append(error.causes[0].as_str());
                }
                message
            },
            ConnectError::Bridge(message) => message.clone(),
        }
    }
}

impl From<JdbcError> for ConnectError {
    fn from(error: JdbcError) -> (r: Self) {
        match error {
            JdbcError::JvmStart(message) => ConnectError::JvmStart(message),
            JdbcError::Bridge(bridge) => ConnectError::Database(bridge),
            JdbcError::Other(shown) => ConnectError::Bridge(shown),
        }
    }
}

impl vstd::std_specs::convert::FromSpecImpl<JdbcError> for ConnectError {
    open spec fn obeys_from_spec() -> bool {
        true
    }

    open spec fn from_spec(error: JdbcError) -> ConnectError {
        named_error(error)
    }
}

/// What an open session says of the server.
#[derive(Debug)]
pub struct SessionInfo {
    pub product_name: Option<String>,
    pub product_version: Option<String>,
}

/// A line that describes the server: its name, and its version where it has one.
pub open spec fn product_line(info: SessionInfo) -> Option<Seq<char>> {
    match maybe_text(info.product_name) {
        Some(name) => if trim(name).len() == 0 {
            None
        } else {
            match maybe_text(info.product_version) {
                Some(version) => if trim(version).len() == 0 {
                    Some(trim(name))
                } else {
                    Some(trim(name) + " "@ + trim(version))
                },
                None => Some(trim(name)),
            }
        },
        None => None,
    }
}

impl SessionInfo {
    /// A one-line description of the server, where it names itself.
    pub fn product(&self) -> (r: Option<String>)
        ensures
            maybe_text(r) == product_line(*self),
    {
        match &self.product_name {
            Some(name) => {
                let name = trimmed(name.as_str());
                if name.unicode_len() == 0 {
                    return None;
                }
                let mut line = name.to_owned();
                match &self.product_version {
                    Some(version) => {
                        let version = trimmed(version.as_str());
                        if version.unicode_len() > 0 {
                            line.append(" ");
                            line.append(version);
                        }
                    },
                    None => {},
                }
                Some(line)
            },
            None => None,
        }
    }
}

/// A keep-alive, as the session is told of it.
#[derive(Debug)]
pub struct KeepAliveSpec {
    pub enabled: bool,
    pub interval_s: u32,
    pub query: String,
}

/// What a session is opened with.
pub struct ConnectionSpec {
    pub url: String,
    pub driver_class: String,
    pub jars: Vec<String>,
    pub username: Option<String>,
    pub password: Option<String>,
    pub props: TextMap<String>,
    pub read_only: bool,
    pub auto_commit: bool,
    pub keep_alive: Option<KeepAliveSpec>,
}

/// What a session is opened with.
#[verifier::ext_equal]
pub ghost struct SpecText {
    pub url: Seq<char>,
    pub driver_class: Seq<char>,
    pub jars: Seq<Seq<char>>,
    pub username: Option<Seq<char>>,
    pub password: Option<Seq<char>>,
    pub props: Map<Seq<char>, Seq<char>>,
    pub read_only: bool,
    pub auto_commit: bool,
    pub keep_alive: Option<(bool, KeepAliveText)>,
}

impl View for ConnectionSpec {
    type V = SpecText;

    open spec fn view(&self) -> SpecText {
        SpecText {
            url: self.url@,
            driver_class: self.driver_class@,
            jars: texts(self.jars@),
            username: maybe_text(self.username),
            password: maybe_text(self.password),
            props: map_texts(self.props@),
            read_only: self.read_only,
            auto_commit: self.auto_commit,
            keep_alive: match self.keep_alive {
                Some(keep) => Some(
                    (keep.enabled, KeepAliveText { interval_s: keep.interval_s, query: keep.query@ }),
                ),
                None => None,
            },
        }
    }
}

/// What a profile's session is opened with: an empty user name is none at all,
/// and a keep-alive that is there is on.
pub open spec fn spec_of(
    profile: ProfileText,
    driver: DriverText,
    password: Option<Seq<char>>,
    url: Seq<char>,
) -> SpecText {
    SpecText {
        url,
        driver_class: driver.class,
        jars: driver.jars,
        username: if profile.username.len() == 0 {
            None
        } else {
            Some(profile.username)
        },
        password,
        props: profile.props,
        read_only: profile.read_only,
        auto_commit: profile.auto_commit,
        keep_alive: match profile.keep_alive {
            Some(keep) => Some((true, keep)),
            None => None,
        },
    }
}

/// The specification a profile asks for, without connecting.
pub fn build_spec(
    profile: &ConnectionProfile,
    driver: &DriverDef,
    credentials: &Credentials,
    url: &str,
) -> (r: ConnectionSpec)
    ensures
        r@ == spec_of(profile@, driver@, maybe_text(credentials.password), url@),
{
    ConnectionSpec {
        url: url.to_owned(),
        driver_class: driver.class.clone(),
        jars: copy_texts(&driver.jars),
        username: if profile.username.as_str().unicode_len() == 0 {
            None
        } else {
            Some(profile.username.clone())
        },
        password: copy_part(&credentials.password),
        props: copy_text_map(&profile.props),
        read_only: profile.read_only,
        auto_commit: profile.auto_commit,
        keep_alive: match &profile.keep_alive {
            Some(keep) => Some(
                KeepAliveSpec {
                    enabled: true,
                    interval_s: keep.interval_s,
                    query: keep.query.clone(),
                },
            ),
            None => None,
        },
    }
}

/// The lowercase equivalent of a text, as `str::to_lowercase` gives it.
pub uninterp spec fn lowered(s: Seq<char>) -> Seq<char>;

/// Whether every character is ASCII.
pub open spec fn ascii_only(s: Seq<char>) -> bool {
    forall|i: int| 0 <= i < s.len() ==> (#[trigger] s[i] as u32) < 128
}

/// The lowercase letter of an ASCII letter, and any other character as it is.
pub open spec fn ascii_lower(c: char) -> char {
    if 'A' <= c && c <= 'Z' {
        ((c as u32) + 32) as char
    } else {
        c
    }
}

/// `str::to_lowercase`. Its result is a function of the text alone; of a text of
/// ASCII characters it is the text with each capital letter replaced by its small
/// one, character by character. What it does to any other character is not said.
#[verifier::external_body]
fn lowercase(s: &str) -> (r: String)
    ensures
        r@ == lowered(s@),
        ascii_only(s@) ==> r@ == s@.map_values(|c: char| ascii_lower(c)),
{
    s.to_lowercase()
}

/// Whether a message, already in lower case, reports that there is no route to
/// the host.
pub fn mentions_no_route(message: &str) -> (r: bool)
    ensures
        r == occurs(message@, "no route to host"@),
{
    text_occurs(message, "no route to host")
}

/// Whether a failure is the one that a second attempt may get past: no route to
/// the host, from whichever layer touched the network.
pub open spec fn no_route(error: ConnectError) -> bool {
    match error {
        ConnectError::NoDriverJar(_) => false,
        ConnectError::JvmStart(_) => false,
        _ => occurs(lowered(error_message(error)), "no route to host"@),
    }
}

/// Whether a failure is the one that a second attempt may get past.
pub fn is_no_route(error: &ConnectError) -> (r: bool)
    ensures
        r == no_route(*error),
{
    match error {
        ConnectError::NoDriverJar(_) => false,
        ConnectError::JvmStart(_) => false,
        _ => {
            let message = error.message();
            let lower = lowercase(message.as_str());
            mentions_no_route(lower.as_str())
        },
    }
}

/// How long to wait before the second attempt, in milliseconds.
pub const NO_ROUTE_RETRY_DELAY: u64 = 1500;

/// How far an attempt to connect has come.
#[derive(Clone, Copy, Debug, PartialEq, Eq, Structural)]
pub enum Stage {
    /// Nothing has been done yet.
    Fresh,
    /// The tunnel is being opened.
    Tunnel,
    /// The virtual machine is being started.
    Jvm,
    /// The session is being opened.
    Session,
    /// The session is open and is being asked what it is.
    Info,
    /// Waiting before the second attempt.
    Waiting,
    /// Connected, or given up.
    Over,
}

/// An attempt to connect.
#[derive(Clone, Copy, Debug, PartialEq, Eq, Structural)]
pub struct Connecting {
    pub stage: Stage,
    /// Whether this is already the second attempt.
    pub retried: bool,
    /// The port of the tunnel that is held, if one is.
    pub local_port: Option<u16>,
}

/// What came of the last step.
#[derive(Debug)]
pub enum ConnectEvent {
    /// The user asked for the connection.
    Asked,
    /// The tunnel is up.
    TunnelReady { local_port: u16 },
    /// The tunnel is not.
    TunnelFailed(ConnectError),
    /// The virtual machine runs.
    JvmReady,
    /// It does not.
    JvmFailed(JdbcError),
    /// The session is open.
    SessionOpened,
    /// It is not.
    SessionFailed(JdbcError),
    /// What the session says of the server.
    InfoRead(SessionInfo),
    /// It could not be asked.
    InfoFailed(JdbcError),
    /// The wait is over.
    Waited,
}

/// Something that is undone when a session is closed, or was not to be.
#[derive(Clone, Copy, Debug, PartialEq, Eq, Structural)]
pub enum CloseStep {
    CloseSession,
    ReleaseTunnel,
}

/// What undoing a connection comes to: the session first, where one is open, and
/// the tunnel under it last, where one is held.
pub open spec fn undoing(session: bool, tunnel: bool) -> Seq<CloseStep> {
    if session && tunnel {
        seq![CloseStep::CloseSession, CloseStep::ReleaseTunnel]
    } else if session {
        seq![CloseStep::CloseSession]
    } else if tunnel {
        seq![CloseStep::ReleaseTunnel]
    } else {
        Seq::empty()
    }
}

fn undo(session: bool, tunnel: bool) -> (r: Vec<CloseStep>)
    ensures
        r@ == undoing(session, tunnel),
{
    let mut steps: Vec<CloseStep> = Vec::new();
    if session {
        steps.push(CloseStep::CloseSession);
    }
    if tunnel {
        steps.push(CloseStep::ReleaseTunnel);
    }
    assert(steps@ =~= undoing(session, tunnel));
    steps
}

/// What closing a session comes to, in order: nothing yet while somebody else
/// still uses it, and otherwise the session first and the tunnel under it last.
pub fn close(in_use: bool, tunnelled: bool) -> (r: Vec<CloseStep>)
    ensures
        r@ == (if in_use {
            Seq::empty()
        } else {
            undoing(true, tunnelled)
        }),
{
    if in_use {
        return Vec::new();
    }
    undo(true, tunnelled)
}

/// The next thing to do.
pub enum ConnectAction {
    /// Take a lease on the profile's tunnel.
    OpenTunnel,
    /// Start the virtual machine, with the bridge that comes with the application
    /// where the settings name none.
    StartJvm { default_bridge: bool },
    /// Open the session.
    OpenSession(ConnectionSpec),
    /// Ask the session what it is.
    ReadInfo,
    /// Undo what the attempt has done, and wait.
    Wait { undo: Vec<CloseStep>, millis: u64 },
    /// The session is open.
    Connected(SessionInfo),
    /// Undo what the attempt has done, and report the failure.
    Failed { undo: Vec<CloseStep>, error: ConnectError },
    /// Nothing: the event does not belong to this stage.
    Nothing,
}

/// The next thing to do.
pub ghost enum ActionText {
    OpenTunnel,
    StartJvm(bool),
    OpenSession(SpecText),
    ReadInfo,
    Wait(Seq<CloseStep>, nat),
    Connected(SessionInfo),
    Failed(Seq<CloseStep>, ConnectError),
    Nothing,
}

impl View for ConnectAction {
    type V = ActionText;

    open spec fn view(&self) -> ActionText {
        match self {
            ConnectAction::OpenTunnel => ActionText::OpenTunnel,
            ConnectAction::StartJvm { default_bridge } => ActionText::StartJvm(*default_bridge),
            ConnectAction::OpenSession(spec) => ActionText::OpenSession(spec@),
            ConnectAction::ReadInfo => ActionText::ReadInfo,
            ConnectAction::Wait { undo, millis } => ActionText::Wait(undo@, *millis as nat),
            ConnectAction::Connected(info) => ActionText::Connected(*info),
            ConnectAction::Failed { undo, error } => ActionText::Failed(undo@, *error),
            ConnectAction::Nothing => ActionText::Nothing,
        }
    }
}

/// A connection nobody has asked for yet.
pub open spec fn not_asked() -> Connecting {
    Connecting { stage: Stage::Fresh, retried: false, local_port: None }
}

/// A first step: without a JAR nothing is opened at all; a tunnel comes before
/// the virtual machine.
pub open spec fn attempt(
    state: Connecting,
    profile: ProfileText,
    driver: DriverText,
    driver_name: String,
    default_bridge: bool,
) -> (Connecting, ActionText) {
    if driver.jars.len() == 0 {
        failing(state, ConnectError::NoDriverJar(driver_name))
    } else if profile.tunnel is Some {
        (Connecting { stage: Stage::Tunnel, ..state }, ActionText::OpenTunnel)
    } else {
        (Connecting { stage: Stage::Jvm, ..state }, ActionText::StartJvm(default_bridge))
    }
}

/// A failure: the attempt is made once more where the host had no route and it
/// was the first, and given up otherwise. Either way nothing stays open: a session
/// that would not say what it is is closed, and a tunnel is given back.
pub open spec fn failing(state: Connecting, error: ConnectError) -> (Connecting, ActionText) {
    let undo = undoing(state.stage == Stage::Info, state.local_port is Some);
    if !state.retried && no_route(error) {
        (
            Connecting { stage: Stage::Waiting, retried: true, local_port: None },
            ActionText::Wait(undo, NO_ROUTE_RETRY_DELAY as nat),
        )
    } else {
        (
            Connecting { stage: Stage::Over, retried: state.retried, local_port: None },
            ActionText::Failed(undo, error),
        )
    }
}

/// The address the session is opened at: the near end of the tunnel where one is
/// held.
pub open spec fn session_url(url: Seq<char>, local_port: Option<u16>) -> Seq<char> {
    match local_port {
        Some(port) => redirected(url, "127.0.0.1"@, port as nat),
        None => url,
    }
}

/// What follows an event.
pub open spec fn stepped(
    state: Connecting,
    event: ConnectEvent,
    profile: ProfileText,
    driver: DriverText,
    driver_name: String,
    password: Option<Seq<char>>,
    default_bridge: bool,
) -> (Connecting, ActionText) {
    match (state.stage, event) {
        (Stage::Fresh, ConnectEvent::Asked) => attempt(
            state,
            profile,
            driver,
            driver_name,
            default_bridge,
        ),
        (Stage::Waiting, ConnectEvent::Waited) => attempt(
            state,
            profile,
            driver,
            driver_name,
            default_bridge,
        ),
        (Stage::Tunnel, ConnectEvent::TunnelReady { local_port }) => (
            Connecting { stage: Stage::Jvm, local_port: Some(local_port), ..state },
            ActionText::StartJvm(default_bridge),
        ),
        (Stage::Tunnel, ConnectEvent::TunnelFailed(error)) => failing(state, error),
        (Stage::Jvm, ConnectEvent::JvmReady) => (
            Connecting { stage: Stage::Session, ..state },
            ActionText::OpenSession(
                spec_of(profile, driver, password, session_url(profile.url, state.local_port)),
            ),
        ),
        (Stage::Jvm, ConnectEvent::JvmFailed(error)) => failing(state, named_error(error)),
        (Stage::Session, ConnectEvent::SessionOpened) => (
            Connecting { stage: Stage::Info, ..state },
            ActionText::ReadInfo,
        ),
        (Stage::Session, ConnectEvent::SessionFailed(error)) => failing(state, named_error(error)),
        (Stage::Info, ConnectEvent::InfoRead(info)) => (
            Connecting { stage: Stage::Over, ..state },
            ActionText::Connected(info),
        ),
        (Stage::Info, ConnectEvent::InfoFailed(error)) => failing(state, named_error(error)),
        _ => (state, ActionText::Nothing),
    }
}

impl Connecting {
    /// A connection nobody has asked for yet.
    pub fn new() -> (r: Self)
        ensures
            r == not_asked(),
    {
        Connecting { stage: Stage::Fresh, retried: false, local_port: None }
    }

    fn attempt(
        self,
        profile: &ConnectionProfile,
        driver: &DriverDef,
        default_bridge: bool,
    ) -> (r: (Connecting, ConnectAction))
        ensures
            (r.0, r.1@) == attempt(self, profile@, driver@, driver.name, default_bridge),
    {
        if driver.jars.len() == 0 {
            self.fail(ConnectError::NoDriverJar(driver.name.clone()))
        } else if profile.tunnel.is_some() {
            (Connecting { stage: Stage::Tunnel, ..self }, ConnectAction::OpenTunnel)
        } else {
            (Connecting { stage: Stage::Jvm, ..self }, ConnectAction::StartJvm { default_bridge })
        }
    }

    fn fail(self, error: ConnectError) -> (r: (Connecting, ConnectAction))
        ensures
            (r.0, r.1@) == failing(self, error),
    {
        let undo = undo(self.stage == Stage::Info, self.local_port.is_some());
        if !self.retried && is_no_route(&error) {
            (
                Connecting { stage: Stage::Waiting, retried: true, local_port: None },
                ConnectAction::Wait { undo, millis: NO_ROUTE_RETRY_DELAY },
            )
        } else {
            (
                Connecting { stage: Stage::Over, retried: self.retried, local_port: None },
                ConnectAction::Failed { undo, error },
            )
        }
    }
}

/// Opens a session for `profile`, one step at a time: what to do next, after what
/// came of the last step. `bridge_jar` is the bridge the settings name, or
/// nothing.
pub fn connect(
    state: Connecting,
    event: ConnectEvent,
    profile: &ConnectionProfile,
    driver: &DriverDef,
    credentials: &Credentials,
    bridge_jar: &str,
) -> (r: (Connecting, ConnectAction))
    ensures
        (r.0, r.1@) == stepped(
            state,
            event,
            profile@,
            driver@,
            driver.name,
            maybe_text(credentials.password),
            bridge_jar@.len() == 0,
        ),
{
    let default_bridge = bridge_jar.unicode_len() == 0;
    match (state.stage, event) {
        (Stage::Fresh, ConnectEvent::Asked) => state.attempt(profile, driver, default_bridge),
        (Stage::Waiting, ConnectEvent::Waited) => state.attempt(profile, driver, default_bridge),
        (Stage::Tunnel, ConnectEvent::TunnelReady { local_port }) => (
            Connecting { stage: Stage::Jvm, local_port: Some(local_port), ..state },
            ConnectAction::StartJvm { default_bridge },
        ),
        (Stage::Tunnel, ConnectEvent::TunnelFailed(error)) => state.fail(error),
        (Stage::Jvm, ConnectEvent::JvmReady) => {
            let url = match state.local_port {
                Some(port) => redirect_authority(profile.url.as_str(), "127.0.0.1", port),
                None => profile.url.clone(),
            };
            (
                Connecting { stage: Stage::Session, ..state },
                ConnectAction::OpenSession(build_spec(profile, driver, credentials, url.as_str())),
            )
        },
        (Stage::Jvm, ConnectEvent::JvmFailed(error)) => state.fail(ConnectError::from(error)),
        (Stage::Session, ConnectEvent::SessionOpened) => (
            Connecting { stage: Stage::Info, ..state },
            ConnectAction::ReadInfo,
        ),
        (Stage::Session, ConnectEvent::SessionFailed(error)) => state.fail(
            ConnectError::from(error),
        ),
        (Stage::Info, ConnectEvent::InfoRead(info)) => (
            Connecting { stage: Stage::Over, ..state },
            ConnectAction::Connected(info),
        ),
        (Stage::Info, ConnectEvent::InfoFailed(error)) => state.fail(ConnectError::from(error)),
        _ => (state, ConnectAction::Nothing),
    }
}

/// What is true of an attempt for a profile: a tunnel is held exactly where one
/// is needed, and none while nothing has been opened.
pub open spec fn in_order(state: Connecting, tunnelled: bool) -> bool {
    match state.stage {
        Stage::Fresh => !state.retried && state.local_port is None,
        Stage::Tunnel => tunnelled && state.local_port is None,
        Stage::Jvm => state.local_port is Some == tunnelled,
        Stage::Session => state.local_port is Some == tunnelled,
        Stage::Info => state.local_port is Some == tunnelled,
        Stage::Waiting => state.retried && state.local_port is None,
        Stage::Over => true,
    }
}

/// The tunnel stands up first. Whatever happens, a session is opened only over
/// the tunnel its profile asks for, at the near end of it, and a session of a
/// profile without a tunnel is opened at the profile's own address.
pub proof fn the_tunnel_stands_up_first(
    state: Connecting,
    event: ConnectEvent,
    profile: ProfileText,
    driver: DriverText,
    driver_name: String,
    password: Option<Seq<char>>,
    default_bridge: bool,
)
    requires
        in_order(state, profile.tunnel is Some),
    ensures
        ({
            let (next, action) = stepped(
                state,
                event,
                profile,
                driver,
                driver_name,
                password,
                default_bridge,
            );
            &&& in_order(next, profile.tunnel is Some)
            &&& action matches ActionText::OpenSession(spec) ==> match state.local_port {
                Some(port) => profile.tunnel is Some && spec.url == redirected(
                    profile.url,
                    "127.0.0.1"@,
                    port as nat,
                ),
                None => profile.tunnel is None && spec.url == profile.url,
            }
        }),
{
}

/// An attempt that fails leaves nothing behind, whether it is made once more or
/// not: a session that is open when it fails is closed, and after it a tunnel that
/// is held is given back.
pub proof fn a_failure_leaves_nothing_open(
    state: Connecting,
    event: ConnectEvent,
    profile: ProfileText,
    driver: DriverText,
    driver_name: String,
    password: Option<Seq<char>>,
    default_bridge: bool,
)
    requires
        in_order(state, profile.tunnel is Some),
    ensures
        ({
            let (next, action) = stepped(
                state,
                event,
                profile,
                driver,
                driver_name,
                password,
                default_bridge,
            );
            &&& action matches ActionText::Failed(undo, _) ==> undo == undoing(
                state.stage == Stage::Info,
                state.local_port is Some,
            ) && next.local_port is None
            &&& action matches ActionText::Wait(undo, _) ==> undo == undoing(
                state.stage == Stage::Info,
                state.local_port is Some,
            ) && next.local_port is None
            &&& (state.local_port is Some && next.local_port is None) ==> action is Failed
                || action is Wait
        }),
{
}

/// The attempt is made once more at most, and only where there was no route to
/// the host: after the wait there is no other, and a failure is reported as it is.
pub proof fn there_is_one_second_attempt(
    state: Connecting,
    event: ConnectEvent,
    profile: ProfileText,
    driver: DriverText,
    driver_name: String,
    password: Option<Seq<char>>,
    default_bridge: bool,
)
    ensures
        ({
            let (next, action) = stepped(
                state,
                event,
                profile,
                driver,
                driver_name,
                password,
                default_bridge,
            );
            &&& state.retried ==> next.retried && !(action is Wait)
            &&& action is Wait <==> !state.retried && next.retried
        }),
{
}

/// Whatever way a session goes, it is opened as the profile, the driver and the
/// password say: with or without a tunnel, only the address differs.
pub proof fn a_session_is_opened_as_the_profile_says(
    state: Connecting,
    event: ConnectEvent,
    profile: ProfileText,
    driver: DriverText,
    driver_name: String,
    password: Option<Seq<char>>,
    default_bridge: bool,
)
    ensures
        stepped(state, event, profile, driver, driver_name, password, default_bridge).1 matches
            ActionText::OpenSession(spec) ==> {
            &&& spec.driver_class == driver.class
            &&& spec.jars == driver.jars
            &&& profile.username.len() > 0 ==> spec.username == Some(profile.username)
            &&& profile.username.len() == 0 ==> spec.username is None
            &&& spec.password == password
            &&& spec.props == profile.props
            &&& spec.read_only == profile.read_only
            &&& spec.auto_commit == profile.auto_commit
            &&& profile.keep_alive is None ==> spec.keep_alive is None
            &&& profile.keep_alive matches Some(keep) ==> spec.keep_alive == Some((true, keep))
            &&& state.local_port is None ==> spec.url == profile.url
            &&& state.local_port matches Some(port) ==> spec.url == redirected(
                profile.url,
                "127.0.0.1"@,
                port as nat,
            )
        },
{
}

/// What a profile's session is opened with, each setting for itself.
pub proof fn a_specification_keeps_every_setting(
    profile: ProfileText,
    driver: DriverText,
    password: Option<Seq<char>>,
    url: Seq<char>,
)
    ensures
        ({
            let spec = spec_of(profile, driver, password, url);
            &&& spec.url == url
            &&& spec.driver_class == driver.class
            &&& spec.jars == driver.jars
            &&& spec.username == (if profile.username.len() == 0 {
                None
            } else {
                Some(profile.username)
            })
            &&& spec.password == password
            &&& spec.props == profile.props
            &&& spec.read_only == profile.read_only
            &&& spec.auto_commit == profile.auto_commit
            &&& spec.keep_alive is Some <==> profile.keep_alive is Some
            &&& spec.keep_alive is Some ==> spec.keep_alive.unwrap().0
                && spec.keep_alive.unwrap().1 == profile.keep_alive.unwrap()
        }),
{
}

/// The steps of an attempt, one after the other: the tunnel where the profile has
/// one, the virtual machine, the session, and what the session says of the server,
/// which is handed on as it came. Nothing is opened for a driver without an
/// archive, and an event that does not belong changes nothing.
pub proof fn one_step_leads_to_the_next(
    state: Connecting,
    event: ConnectEvent,
    profile: ProfileText,
    driver: DriverText,
    driver_name: String,
    password: Option<Seq<char>>,
    default_bridge: bool,
)
    ensures
        ({
            let (next, action) = stepped(
                state,
                event,
                profile,
                driver,
                driver_name,
                password,
                default_bridge,
            );
            let begins = (state.stage == Stage::Fresh && event is Asked) || (state.stage
                == Stage::Waiting && event is Waited);
            &&& begins && driver.jars.len() > 0 && profile.tunnel is Some ==> action is OpenTunnel
                && next.stage == Stage::Tunnel
            &&& begins && driver.jars.len() > 0 && profile.tunnel is None ==> action
                == ActionText::StartJvm(default_bridge) && next.stage == Stage::Jvm
            &&& begins && driver.jars.len() == 0 ==> (action matches ActionText::Failed(_, error)
                && error == ConnectError::NoDriverJar(driver_name))
            &&& state.stage == Stage::Tunnel && event is TunnelReady ==> action
                == ActionText::StartJvm(default_bridge) && next.stage == Stage::Jvm
                && next.local_port == Some(event->local_port)
            &&& state.stage == Stage::Jvm && event is JvmReady ==> action is OpenSession
                && next.stage == Stage::Session && next.local_port == state.local_port
            &&& state.stage == Stage::Session && event is SessionOpened ==> action is ReadInfo
                && next.stage == Stage::Info && next.local_port == state.local_port
            &&& state.stage == Stage::Info ==> (event matches ConnectEvent::InfoRead(info) ==> action
                == ActionText::Connected(info) && next.stage == Stage::Over && next.local_port
                == state.local_port)
            &&& action is Connected ==> state.stage == Stage::Info && event is InfoRead
            &&& action is OpenSession ==> state.stage == Stage::Jvm && event is JvmReady
            &&& action is Nothing ==> next == state
        }),
{
}

/// A failure is reported as it came: the tunnel's as it is, and the others under
/// the name of the layer they came from. Only where there was no route to the host,
/// and only the first time, is there a wait instead, of a second and a half.
pub proof fn a_failure_is_reported_as_it_came(
    state: Connecting,
    event: ConnectEvent,
    profile: ProfileText,
    driver: DriverText,
    driver_name: String,
    password: Option<Seq<char>>,
    default_bridge: bool,
)
    ensures
        ({
            let (next, action) = stepped(
                state,
                event,
                profile,
                driver,
                driver_name,
                password,
                default_bridge,
            );
            let came = match (state.stage, event) {
                (Stage::Tunnel, ConnectEvent::TunnelFailed(error)) => Some(error),
                (Stage::Jvm, ConnectEvent::JvmFailed(error)) => Some(layer_of(error)),
                (Stage::Session, ConnectEvent::SessionFailed(error)) => Some(layer_of(error)),
                (Stage::Info, ConnectEvent::InfoFailed(error)) => Some(layer_of(error)),
                _ => None,
            };
            came matches Some(error) ==> {
                let again = !state.retried && !(error is JvmStart) && !(error is NoDriverJar)
                    && occurs(lowered(error_message(error)), "no route to host"@);
                &&& again ==> (action matches ActionText::Wait(_, millis) && millis == 1500)
                    && next.stage == Stage::Waiting && next.retried
                &&& !again ==> (action matches ActionText::Failed(_, told) && told == error)
                    && next.stage == Stage::Over
            }
        }),
{
}

/// The layer a failure came from: the virtual machine, the database, or what lies
/// between.
pub open spec fn layer_of(error: JdbcError) -> ConnectError {
    match error {
        JdbcError::JvmStart(message) => ConnectError::JvmStart(message),
        JdbcError::Bridge(bridge) => ConnectError::Database(bridge),
        JdbcError::Other(shown) => ConnectError::Bridge(shown),
    }
}

/// Undoing a connection undoes what there is of it, each once: a session is closed
/// where one is open, a tunnel is given back where one is held, and the session
/// goes first.
pub proof fn undoing_undoes_what_there_is(session: bool, tunnel: bool)
    ensures
        undoing(session, tunnel).contains(CloseStep::CloseSession) <==> session,
        undoing(session, tunnel).contains(CloseStep::ReleaseTunnel) <==> tunnel,
        undoing(session, tunnel).no_duplicates(),
        session ==> undoing(session, tunnel)[0] == CloseStep::CloseSession,
        tunnel ==> undoing(session, tunnel).last() == CloseStep::ReleaseTunnel,
{
    let steps = undoing(session, tunnel);
    assert(session ==> steps[0] == CloseStep::CloseSession);
    assert(tunnel ==> steps[steps.len() - 1] == CloseStep::ReleaseTunnel);
}

/// What a failure says names what it is about: the driver, the host and its keys,
/// and of a database's error its own line and the first cause.
pub proof fn a_failure_names_what_it_is_about(error: ConnectError)
    ensures
        match error {
            ConnectError::NoDriverJar(name) => occurs(error_message(error), name@),
            ConnectError::JvmStart(message) => error_message(error) == message@,
            ConnectError::Tunnel(message) => error_message(error) == message@,
            ConnectError::Bridge(message) => error_message(error) == message@,
            ConnectError::HostKeyMismatch { host, presented, stored } => occurs(
                error_message(error),
                host@,
            ) && occurs(error_message(error), presented@) && occurs(error_message(error), stored@),
            ConnectError::HostKeyUnknown { host, fingerprint, algorithm } => occurs(
                error_message(error),
                host@,
            ) && occurs(error_message(error), fingerprint@) && occurs(
                error_message(error),
                algorithm@,
            ),
            ConnectError::Database(bridge) => if bridge.causes@.len() == 0 {
                error_message(error) == bridge.shown@
            } else {
                error_message(error) == bridge.shown@ + " — "@ + bridge.causes@[0]@
            },
        },
{
    let said = error_message(error);
    match error {
        ConnectError::NoDriverJar(name) => {
            let at = "the driver “"@.len() as int;
            assert(said.subrange(at, at + name@.len()) =~= name@);
            assert(occurs_at(said, name@, at));
        },
        ConnectError::HostKeyMismatch { host, presented, stored } => {
            let a = "the host key of "@.len() as int;
            assert(said.subrange(a, a + host@.len()) =~= host@);
            assert(occurs_at(said, host@, a));
            let b = a + host@.len() + " has changed: "@.len();
            assert(said.subrange(b, b + presented@.len()) =~= presented@);
            assert(occurs_at(said, presented@, b));
            let c = b + presented@.len() + " was presented, "@.len();
            assert(said.subrange(c, c + stored@.len()) =~= stored@);
            assert(occurs_at(said, stored@, c));
        },
        ConnectError::HostKeyUnknown { host, fingerprint, algorithm } => {
            assert(said.subrange(0, host@.len() as int) =~= host@);
            assert(occurs_at(said, host@, 0));
            let b = (host@.len() + " presented an unknown "@.len()) as int;
            assert(said.subrange(b, b + algorithm@.len()) =~= algorithm@);
            assert(occurs_at(said, algorithm@, b));
            let c = b + algorithm@.len() + " host key: "@.len();
            assert(said.subrange(c, c + fingerprint@.len()) =~= fingerprint@);
            assert(occurs_at(said, fingerprint@, c));
        },
        _ => {},
    }
}

/// What the state of a database's error is read as: its first two characters say
/// whether the credentials were refused, and nothing else has a class.
pub proof fn a_class_is_the_start_of_a_state(error: ConnectError)
    ensures
        error_class(error) matches Some(class) ==> class.len() == 2 && (error matches
            ConnectError::Database(bridge) && bridge.sql_state is Some && bridge.sql_state.unwrap()@
            == class + bridge.sql_state.unwrap()@.skip(2)),
        error_class(error) is None ==> !(error is Database) || (error matches
            ConnectError::Database(bridge) && (bridge.sql_state is None
            || bridge.sql_state.unwrap()@.len() < 2)),
        refused_credentials(error) <==> error_class(error) == Some("28"@),
{
    match error {
        ConnectError::Database(bridge) => {
            if bridge.sql_state is Some && bridge.sql_state.unwrap()@.len() >= 2 {
                let state = bridge.sql_state.unwrap()@;
                assert(state =~= state.take(2) + state.skip(2));
            }
        },
        _ => {},
    }
}

/// A server is described by its name, and by its version behind it where it has
/// one; without a name there is nothing to say.
pub proof fn a_server_is_named_before_its_version(info: SessionInfo)
    ensures
        product_line(info) is Some <==> info.product_name is Some && trim(
            info.product_name.unwrap()@,
        ).len() > 0,
        product_line(info) matches Some(line) ==> line == trim(info.product_name.unwrap()@) + (
        if info.product_version is Some && trim(info.product_version.unwrap()@).len() > 0 {
            " "@ + trim(info.product_version.unwrap()@)
        } else {
            Seq::empty()
        }),
{
    if product_line(info) is Some {
        let name = trim(info.product_name.unwrap()@);
        assert(name + Seq::<char>::empty() =~= name);
        if info.product_version is Some {
            let version = trim(info.product_version.unwrap()@);
            assert(name + " "@ + version =~= name + (" "@ + version));
        }
    }
}

/// A failure is told in full: a driver without an archive by its name, a key that has
/// changed as the one that was shown against the one on record, and a key nobody has
/// trusted by its algorithm and fingerprint, each with the host it is of.
pub proof fn a_failure_is_told_in_full(error: ConnectError)
    ensures
        error matches ConnectError::NoDriverJar(name) ==> error_message(error) == "the driver “"@
            + name@ + "” has no JAR; add one in the driver manager"@,
        error matches ConnectError::HostKeyMismatch { host, presented, stored } ==> error_message(
            error,
        ) == "the host key of "@ + host@ + " has changed: "@ + presented@ + " was presented, "@
            + stored@ + " is on record"@,
        error matches ConnectError::HostKeyUnknown { host, fingerprint, algorithm }
            ==> error_message(error) == host@ + " presented an unknown "@ + algorithm@
            + " host key: "@ + fingerprint@,
{
}

/// The driver is at fault where it has no archive or where the bridge says so. A way to
/// the host that is missing is told by the words of the failure, and never by one of the
/// virtual machine or of the driver. What the bridge reports is named after the layer it
/// came from.
pub proof fn a_failure_is_of_one_layer(error: ConnectError, raw: JdbcError)
    ensures
        driver_at_fault(error) <==> error is NoDriverJar || (error matches ConnectError::Database(
            bridge,
        ) && bridge.kind == BridgeErrorKind::Driver),
        no_route(error) <==> !(error is NoDriverJar) && !(error is JvmStart) && occurs(
            lowered(error_message(error)),
            "no route to host"@,
        ),
        named_error(raw) == layer_of(raw),
{
}

/// A step that goes well leaves the count of attempts alone, and until the tunnel is up
/// there is no port; a connection that was given up is not gone on with.
pub proof fn a_step_that_goes_well_counts_no_attempt(
    state: Connecting,
    event: ConnectEvent,
    profile: ProfileText,
    driver: DriverText,
    driver_name: String,
    password: Option<Seq<char>>,
    default_bridge: bool,
)
    ensures
        ({
            let (next, action) = stepped(
                state,
                event,
                profile,
                driver,
                driver_name,
                password,
                default_bridge,
            );
            &&& !(action is Wait) ==> next.retried == state.retried
            &&& action is OpenTunnel ==> next.local_port == state.local_port
            &&& action is StartJvm && !(event is TunnelReady) ==> next.local_port
                == state.local_port
            &&& action is Failed || action is Wait ==> next.local_port is None
            &&& state.stage == Stage::Over ==> next == state && action is Nothing
            &&& not_asked().stage == Stage::Fresh
            &&& !not_asked().retried
            &&& not_asked().local_port is None
        }),
{
}

/// What is asked of the driver and of the world reads as it is.
pub proof fn a_request_reads_as_it_is(spec: ConnectionSpec, action: ConnectAction)
    ensures
        spec@.url == spec.url@,
        spec@.driver_class == spec.driver_class@,
        spec@.jars == texts(spec.jars@),
        spec@.username == maybe_text(spec.username),
        spec@.password == maybe_text(spec.password),
        spec@.props == map_texts(spec.props@),
        spec@.read_only == spec.read_only,
        spec@.auto_commit == spec.auto_commit,
        spec@.keep_alive is Some <==> spec.keep_alive is Some,
        spec.keep_alive matches Some(keep) ==> spec@.keep_alive.unwrap().0 == keep.enabled
            && spec@.keep_alive.unwrap().1.interval_s == keep.interval_s
            && spec@.keep_alive.unwrap().1.query == keep.query@,
        match action {
            ConnectAction::OpenTunnel => action@ is OpenTunnel,
            ConnectAction::StartJvm { default_bridge } => action@ == ActionText::StartJvm(
                default_bridge,
            ),
            ConnectAction::OpenSession(asked) => action@ == ActionText::OpenSession(asked@),
            ConnectAction::ReadInfo => action@ is ReadInfo,
            ConnectAction::Wait { undo, millis } => action@ == ActionText::Wait(
                undo@,
                millis as nat,
            ),
            ConnectAction::Connected(info) => action@ == ActionText::Connected(info),
            ConnectAction::Failed { undo, error } => action@ == ActionText::Failed(undo@, error),
            ConnectAction::Nothing => action@ is Nothing,
        },
{
}

} // verus!
