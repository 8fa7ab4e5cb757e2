use vstd::prelude::*;

use crate::actix::{
    ActixSettings, ActixSettingsView, Address, AddressView, Backlog, KeepAlive, MaxConnectionRate,
    MaxConnections, Mode, NumWorkers, Ssl, SslView, Timeout,
};
use crate::document::{
    TomlContents, TomlNode, TomlStep, bool_of, bool_value, child, contents_of, node_of,
    setting_of, setting_value, string_value, struct_field, struct_field_exec, toml_as_array,
    toml_as_integer, toml_as_str, toml_contents,
};
use crate::document::{toml_document, toml_from_str, toml_is_table};
use crate::error::{AtError, AtErrorView, AtResult};
use crate::parse::Parse;
use crate::template::DEFAULT_TOML_TEMPLATE;

verus! {

/// The port that a present value gives: an integer within the range of `u16`.
pub open spec fn port_value(f: Option<TomlContents>) -> Option<u16> {
    match f {
        Some(c) => match node_of(c) {
            TomlNode::Integer(i) => if 0 <= i <= u16::MAX {
                Some(i as u16)
            } else {
                None
            },
            _ => None,
        },
        None => None,
    }
}

/// The address that a present value gives, read as a struct of a `host`
/// string and a `port` (as `["host", port]` or `{ host = .., port = .. }`).
pub open spec fn address_value(f: Option<TomlContents>) -> Option<AddressView> {
    match f {
        Some(e) => {
            let host = string_value(struct_field(e, 2, 0, "host"@));
            let port = port_value(struct_field(e, 2, 1, "port"@));
            if host is Some && port is Some {
                Some(AddressView { host: host->0, port: port->0 })
            } else {
                None
            }
        },
        None => None,
    }
}

/// The addresses that a present value gives: an array of addresses.
pub open spec fn hosts_value(f: Option<TomlContents>) -> Option<Seq<AddressView>> {
    match f {
        Some(h) => match node_of(h) {
            TomlNode::Array(n) => if forall|i: int|
                0 <= i < n ==> (#[trigger] address_value(Some(child(h, TomlStep::Index(i))))) is Some {
                Some(Seq::new(n, |i: int| address_value(Some(child(h, TomlStep::Index(i)))).unwrap()))
            } else {
                None
            },
            _ => None,
        },
        None => None,
    }
}

/// The SSL settings that a present value gives, read as a struct of
/// `enabled`, `certificate` and `private-key`.
pub open spec fn ssl_value(f: Option<TomlContents>) -> Option<SslView> {
    match f {
        Some(t) => {
            let enabled = bool_value(struct_field(t, 3, 0, "enabled"@));
            let certificate = string_value(struct_field(t, 3, 1, "certificate"@));
            let private_key = string_value(struct_field(t, 3, 2, "private-key"@));
            if enabled is Some && certificate is Some && private_key is Some {
                Some(SslView { enabled: enabled->0, certificate: certificate->0, private_key: private_key->0 })
            } else {
                None
            }
        },
        None => None,
    }
}

/// The `[actix]` settings that the value with contents `m` gives, read as a
/// struct of the thirteen settings under their kebab-case names.
pub open spec fn actix_spec(m: TomlContents) -> Option<ActixSettingsView> {
    let hosts = hosts_value(struct_field(m, 13, 0, "hosts"@));
    let mode = setting_value::<Mode>(struct_field(m, 13, 1, "mode"@));
    let enable_compression = bool_value(struct_field(m, 13, 2, "enable-compression"@));
    let enable_log = bool_value(struct_field(m, 13, 3, "enable-log"@));
    let num_workers = setting_value::<NumWorkers>(struct_field(m, 13, 4, "num-workers"@));
    let backlog = setting_value::<Backlog>(struct_field(m, 13, 5, "backlog"@));
    let max_connections = setting_value::<MaxConnections>(struct_field(m, 13, 6, "max-connections"@));
    let max_connection_rate = setting_value::<MaxConnectionRate>(
        struct_field(m, 13, 7, "max-connection-rate"@),
    );
    let keep_alive = setting_value::<KeepAlive>(struct_field(m, 13, 8, "keep-alive"@));
    let client_timeout = setting_value::<Timeout>(struct_field(m, 13, 9, "client-timeout"@));
    let client_shutdown = setting_value::<Timeout>(struct_field(m, 13, 10, "client-shutdown"@));
    let shutdown_timeout = setting_value::<Timeout>(struct_field(m, 13, 11, "shutdown-timeout"@));
    let ssl = ssl_value(struct_field(m, 13, 12, "ssl"@));
    if hosts is Some && mode is Some && enable_compression is Some && enable_log is Some
        && num_workers is Some && backlog is Some && max_connections is Some
        && max_connection_rate is Some && keep_alive is Some && client_timeout is Some
        && client_shutdown is Some && shutdown_timeout is Some && ssl is Some {
        Some(ActixSettingsView {
            hosts: hosts->0,
            mode: mode->0,
            enable_compression: enable_compression->0,
            enable_log: enable_log->0,
            num_workers: num_workers->0,
            backlog: backlog->0,
            max_connections: max_connections->0,
            max_connection_rate: max_connection_rate->0,
            keep_alive: keep_alive->0,
            client_timeout: client_timeout->0,
            client_shutdown: client_shutdown->0,
            shutdown_timeout: shutdown_timeout->0,
            ssl: ssl->0,
        })
    } else {
        None
    }
}

/// Reads a port; see `port_value`.
fn port_of(f: Option<&toml::Value>) -> (res: Option<u16>)
    ensures
        res == port_value(contents_of(f)),
{
    match f {
        Some(v) => match toml_as_integer(v) {
            Some(i) => if 0 <= i && i <= 0xffff {
                Some(i as u16)
            } else {
                None
            },
            None => None,
        },
        None => None,
    }
}

/// Reads a string; see `string_value`.
fn string_of(f: Option<&toml::Value>) -> (res: Option<String>)
    ensures
        res is Some <==> string_value(contents_of(f)) is Some,
        res matches Some(s) ==> Some(s@) == string_value(contents_of(f)),
{
    match f {
        Some(v) => match toml_as_str(v) {
            Some(s) => Some(s.to_owned()),
            None => None,
        },
        None => None,
    }
}

/// Reads an address; see `address_value`.
fn address_of(f: Option<&toml::Value>) -> (res: Option<Address>)
    ensures
        res is Some <==> address_value(contents_of(f)) is Some,
        res matches Some(a) ==> Some(a.deep_view()) == address_value(contents_of(f)),
{
    let e = match f {
        Some(e) => e,
        None => return None,
    };
    let host = string_of(struct_field_exec(e, 2, 0, "host"));
    let port = port_of(struct_field_exec(e, 2, 1, "port"));
    match (host, port) {
        (Some(host), Some(port)) => Some(Address { host, port }),
        _ => None,
    }
}

/// Reads the addresses; see `hosts_value`.
fn hosts_of(f: Option<&toml::Value>) -> (res: Option<Vec<Address>>)
    ensures
        res is Some <==> hosts_value(contents_of(f)) is Some,
        res matches Some(v) ==> Some(v.deep_view()) == hosts_value(contents_of(f)),
{
    let h = match f {
        Some(h) => h,
        None => return None,
    };
    let a = match toml_as_array(h) {
        Some(a) => a,
        None => return None,
    };
    let ghost m = toml_contents(*h);
    let n = a.len();
    let mut out: Vec<Address> = Vec::new();
    let mut i: usize = 0;
    while i < n
        invariant
            f == Some(h),
            m == toml_contents(*h),
            n == a@.len(),
            node_of(m) == TomlNode::Array(n as nat),
            forall|j: int| 0 <= j < n ==> toml_contents(#[trigger] a@[j]) == child(m, TomlStep::Index(j)),
            i <= n,
            out@.len() == i,
            forall|j: int| 0 <= j < i ==> Some((#[trigger] out@[j]).deep_view()) == address_value(Some(child(m, TomlStep::Index(j)))),
        decreases n - i,
    {
        let x = match address_of(Some(&a[i])) {
            Some(x) => x,
            None => {
                assert(toml_contents(a@[i as int]) == child(m, TomlStep::Index(i as int)));
                assert(address_value(Some(child(m, TomlStep::Index(i as int)))) is None);
                assert(hosts_value(Some(m)) is None);
                return None;
            },
        };
        out.push(x);
        i = i + 1;
    }
    assert forall|j: int| 0 <= j < n implies (#[trigger] address_value(Some(child(m, TomlStep::Index(j))))) is Some by {
        assert(Some(out@[j].deep_view()) == address_value(Some(child(m, TomlStep::Index(j)))));
    }
    assert(out.deep_view() =~= Seq::new(n as nat, |j: int| address_value(Some(child(m, TomlStep::Index(j)))).unwrap()));
    Some(out)
}

/// Reads the SSL settings; see `ssl_value`.
fn ssl_of(f: Option<&toml::Value>) -> (res: Option<Ssl>)
    ensures
        res is Some <==> ssl_value(contents_of(f)) is Some,
        res matches Some(s) ==> Some(s.deep_view()) == ssl_value(contents_of(f)),
{
    let t = match f {
        Some(t) => t,
        None => return None,
    };
    let enabled = bool_of(struct_field_exec(t, 3, 0, "enabled"));
    let certificate = string_of(struct_field_exec(t, 3, 1, "certificate"));
    let private_key = string_of(struct_field_exec(t, 3, 2, "private-key"));
    match (enabled, certificate, private_key) {
        (Some(enabled), Some(certificate), Some(private_key)) => Some(Ssl { enabled, certificate, private_key }),
        _ => None,
    }
}

/// The first setting of `[actix]`, in the table's order, that the value with
/// contents `m` lacks or gives no valid value for; `None` where there is none.
pub open spec fn actix_bad_key(m: TomlContents) -> Option<Seq<char>> {
    if hosts_value(struct_field(m, 13, 0, "hosts"@)) is None {
        Some("hosts"@)
    } else if setting_value::<Mode>(struct_field(m, 13, 1, "mode"@)) is None {
        Some("mode"@)
    } else if bool_value(struct_field(m, 13, 2, "enable-compression"@)) is None {
        Some("enable-compression"@)
    } else if bool_value(struct_field(m, 13, 3, "enable-log"@)) is None {
        Some("enable-log"@)
    } else if setting_value::<NumWorkers>(struct_field(m, 13, 4, "num-workers"@)) is None {
        Some("num-workers"@)
    } else if setting_value::<Backlog>(struct_field(m, 13, 5, "backlog"@)) is None {
        Some("backlog"@)
    } else if setting_value::<MaxConnections>(struct_field(m, 13, 6, "max-connections"@)) is None {
        Some("max-connections"@)
    } else if setting_value::<MaxConnectionRate>(struct_field(m, 13, 7, "max-connection-rate"@)) is None {
        Some("max-connection-rate"@)
    } else if setting_value::<KeepAlive>(struct_field(m, 13, 8, "keep-alive"@)) is None {
        Some("keep-alive"@)
    } else if setting_value::<Timeout>(struct_field(m, 13, 9, "client-timeout"@)) is None {
        Some("client-timeout"@)
    } else if setting_value::<Timeout>(struct_field(m, 13, 10, "client-shutdown"@)) is None {
        Some("client-shutdown"@)
    } else if setting_value::<Timeout>(struct_field(m, 13, 11, "shutdown-timeout"@)) is None {
        Some("shutdown-timeout"@)
    } else if ssl_value(struct_field(m, 13, 12, "ssl"@)) is None {
        Some("ssl"@)
    } else {
        None
    }
}

/// The start of the message of an error in a setting of `[actix]`.
pub const SETTING_ERROR: &'static str = "invalid or missing setting in the actix table: ";

/// The error for the setting `key` of `[actix]`.
pub open spec fn setting_error_view(key: Seq<char>) -> AtErrorView {
    AtErrorView::TomlError(SETTING_ERROR@ + key)
}

/// The error for a setting of `[actix]` that is missing or has no valid value.
fn setting_error(key: &str) -> (e: AtError)
    ensures
        e.deep_view() == setting_error_view(key@),
{
    let mut message = SETTING_ERROR.to_owned();
    message.append(key);
    AtError::TomlError(message)
}

impl ActixSettings {
    /// Reads the `[actix]` settings from the TOML value `v`.
    pub fn from_toml_value(v: &toml::Value) -> (res: AtResult<ActixSettings>)
        ensures
            res is Ok <==> actix_spec(toml_contents(*v)) is Some,
            res matches Ok(s) ==> Some(s.deep_view()) == actix_spec(toml_contents(*v)),
            res matches Err(e) ==> (actix_bad_key(toml_contents(*v)) matches Some(k) && e.deep_view() == setting_error_view(k)),
    {
        let hosts = match hosts_of(struct_field_exec(v, 13, 0, "hosts")) {
            Some(x) => x,
            None => return Err(setting_error("hosts")),
        };
        let mode = match setting_of::<Mode>(struct_field_exec(v, 13, 1, "mode")) {
            Some(x) => x,
            None => return Err(setting_error("mode")),
        };
        let enable_compression = match bool_of(struct_field_exec(v, 13, 2, "enable-compression")) {
            Some(x) => x,
            None => return Err(setting_error("enable-compression")),
        };
        let enable_log = match bool_of(struct_field_exec(v, 13, 3, "enable-log")) {
            Some(x) => x,
            None => return Err(setting_error("enable-log")),
        };
        let num_workers = match setting_of::<NumWorkers>(struct_field_exec(v, 13, 4, "num-workers")) {
            Some(x) => x,
            None => return Err(setting_error("num-workers")),
        };
        let backlog = match setting_of::<Backlog>(struct_field_exec(v, 13, 5, "backlog")) {
            Some(x) => x,
            None => return Err(setting_error("backlog")),
        };
        let max_connections = match setting_of::<MaxConnections>(struct_field_exec(v, 13, 6, "max-connections")) {
            Some(x) => x,
            None => return Err(setting_error("max-connections")),
        };
        let max_connection_rate = match setting_of::<MaxConnectionRate>(
            struct_field_exec(v, 13, 7, "max-connection-rate"),
        ) {
            Some(x) => x,
            None => return Err(setting_error("max-connection-rate")),
        };
        let keep_alive = match setting_of::<KeepAlive>(struct_field_exec(v, 13, 8, "keep-alive")) {
            Some(x) => x,
            None => return Err(setting_error("keep-alive")),
        };
        let client_timeout = match setting_of::<Timeout>(struct_field_exec(v, 13, 9, "client-timeout")) {
            Some(x) => x,
            None => return Err(setting_error("client-timeout")),
        };
        let client_shutdown = match setting_of::<Timeout>(struct_field_exec(v, 13, 10, "client-shutdown")) {
            Some(x) => x,
            None => return Err(setting_error("client-shutdown")),
        };
        let shutdown_timeout = match setting_of::<Timeout>(struct_field_exec(v, 13, 11, "shutdown-timeout")) {
            Some(x) => x,
            None => return Err(setting_error("shutdown-timeout")),
        };
        let ssl = match ssl_of(struct_field_exec(v, 13, 12, "ssl")) {
            Some(x) => x,
            None => return Err(setting_error("ssl")),
        };
        Ok(ActixSettings {
            hosts,
            mode,
            enable_compression,
            enable_log,
            num_workers,
            backlog,
            max_connections,
            max_connection_rate,
            keep_alive,
            client_timeout,
            client_shutdown,
            shutdown_timeout,
            ssl,
        })
    }
}

/// A value that can be read from the TOML value of a table of settings.
pub trait FromToml: Sized + DeepView {
    /// The value, taken by its deep view, that a TOML value with contents
    /// `contents` gives; `None` where it gives none.
    spec fn from_toml_spec(contents: TomlContents) -> Option<<Self as DeepView>::V>;

    /// The error, taken by its deep view, of reading a TOML value with
    /// contents `contents` that gives no value.
    spec fn from_toml_error_spec(contents: TomlContents) -> AtErrorView;

    /// Reads a value from the TOML value `value`.
    fn from_toml(value: &toml::Value) -> (res: AtResult<Self>)
        ensures
            res is Ok <==> Self::from_toml_spec(toml_contents(*value)) is Some,
            res matches Ok(a) ==> Some(a.deep_view()) == Self::from_toml_spec(toml_contents(*value)),
            res matches Err(e) ==> e is TomlError && e.deep_view() == Self::from_toml_error_spec(toml_contents(*value)),
    ;
}

/// The message of the error for application settings that are no table.
pub const NOT_A_TABLE: &'static str = "the application settings are not a table";

/// The message of the error for a document without an `actix` table.
pub const NO_ACTIX_TABLE: &'static str = "missing table: actix";

/// The message of the error for a document without an `application` table.
pub const NO_APPLICATION_TABLE: &'static str = "missing table: application";

/// The application settings of a server that has none of its own.
#[derive(Debug, Clone, Copy, PartialEq, Eq, Hash)]
pub struct NoSettings {}

impl DeepView for NoSettings {
    type V = NoSettings;

    open spec fn deep_view(&self) -> NoSettings {
        *self
    }
}

impl FromToml for NoSettings {
    /// Any table, or an empty array.
    open spec fn from_toml_spec(contents: TomlContents) -> Option<NoSettings> {
        if node_of(contents) == TomlNode::Table || node_of(contents) == TomlNode::Array(0) {
            Some(NoSettings {})
        } else {
            None
        }
    }

    open spec fn from_toml_error_spec(contents: TomlContents) -> AtErrorView {
        AtErrorView::TomlError(NOT_A_TABLE@)
    }

    fn from_toml(value: &toml::Value) -> (res: AtResult<NoSettings>) {
        if toml_is_table(value) {
            return Ok(NoSettings {});
        }
        match toml_as_array(value) {
            Some(a) => if a.len() == 0 {
                Ok(NoSettings {})
            } else {
                Err(AtError::TomlError(NOT_A_TABLE.to_owned()))
            },
            None => Err(AtError::TomlError(NOT_A_TABLE.to_owned())),
        }
    }
}

/// The settings of a server: those of actix, and those of the application.
#[derive(Debug, Clone, PartialEq, Eq, Hash)]
pub struct BasicSettings<A> {
    pub actix: ActixSettings,
    pub application: A,
}

/// The settings of a server without application settings.
pub type Settings = BasicSettings<NoSettings>;

/// The settings of a server, with text as sequences of characters.
pub struct BasicSettingsView<V> {
    pub actix: ActixSettingsView,
    pub application: V,
}

impl<A: DeepView> DeepView for BasicSettings<A> {
    type V = BasicSettingsView<<A as DeepView>::V>;

    open spec fn deep_view(&self) -> BasicSettingsView<<A as DeepView>::V> {
        BasicSettingsView { actix: self.actix.deep_view(), application: self.application.deep_view() }
    }
}

/// The settings that a TOML document with contents `m` gives: its `actix`
/// table (see `actix_spec`) and its `application` table (as `A` reads it).
pub open spec fn settings_spec<A: FromToml>(m: TomlContents) -> Option<BasicSettingsView<<A as DeepView>::V>> {
    let actix = match struct_field(m, 2, 0, "actix"@) {
        Some(c) => actix_spec(c),
        None => None,
    };
    let application = match struct_field(m, 2, 1, "application"@) {
        Some(c) => A::from_toml_spec(c),
        None => None,
    };
    if actix is Some && application is Some {
        Some(BasicSettingsView { actix: actix->0, application: application->0 })
    } else {
        None
    }
}

/// The error of reading settings from a TOML document with contents `m`
/// that gives none: the first of a missing `actix` table, an invalid setting
/// in it, a missing `application` table, or the error of reading the
/// application settings.
pub open spec fn settings_error_view<A: FromToml>(m: TomlContents) -> AtErrorView {
    match struct_field(m, 2, 0, "actix"@) {
        None => AtErrorView::TomlError(NO_ACTIX_TABLE@),
        Some(c) => match actix_bad_key(c) {
            Some(k) => setting_error_view(k),
            None => match struct_field(m, 2, 1, "application"@) {
                None => AtErrorView::TomlError(NO_APPLICATION_TABLE@),
                Some(d) => A::from_toml_error_spec(d),
            },
        },
    }
}

/// The error of reading settings from the TOML text `text` that gives none:
/// the text of the TOML error where the text does not parse, and otherwise
/// as `settings_error_view` says.
pub open spec fn template_error_view<A: FromToml>(text: Seq<char>) -> AtErrorView {
    match toml_document(text) {
        Err(t) => AtErrorView::TomlError(t),
        Ok(m) => settings_error_view::<A>(m),
    }
}

/// The settings that the TOML text `text` gives, where it parses.
pub open spec fn template_spec<A: FromToml>(text: Seq<char>) -> Option<BasicSettingsView<<A as DeepView>::V>> {
    match toml_document(text) {
        Ok(m) => settings_spec::<A>(m),
        Err(_) => None,
    }
}

impl<A: FromToml> BasicSettings<A> {
    /// Reads the settings from a parsed TOML document.
    pub fn from_toml_value(doc: &toml::Value) -> (res: AtResult<Self>)
        ensures
            res is Ok <==> settings_spec::<A>(toml_contents(*doc)) is Some,
            res matches Ok(s) ==> Some(s.deep_view()) == settings_spec::<A>(toml_contents(*doc)),
            res matches Err(e) ==> e.deep_view() == settings_error_view::<A>(toml_contents(*doc)),
    {
        let actix = match struct_field_exec(doc, 2, 0, "actix") {
            Some(v) => ActixSettings::from_toml_value(v)?,
            None => return Err(AtError::TomlError(NO_ACTIX_TABLE.to_owned())),
        };
        let application = match struct_field_exec(doc, 2, 1, "application") {
            Some(v) => A::from_toml(v)?,
            None => return Err(AtError::TomlError(NO_APPLICATION_TABLE.to_owned())),
        };
        Ok(BasicSettings { actix, application })
    }

    /// Parses the settings from a TOML text.
    pub fn from_template(template: &str) -> (res: AtResult<Self>)
        ensures
            res is Ok <==> template_spec::<A>(template@) is Some,
            res matches Ok(s) ==> Some(s.deep_view()) == template_spec::<A>(template@),
            res matches Err(e) ==> e.deep_view() == template_error_view::<A>(template@),
    {
        match toml_from_str(template) {
            Ok(doc) => Self::from_toml_value(&doc),
            Err(message) => Err(AtError::TomlError(message)),
        }
    }

    /// Parses the settings from the default TOML template.
    pub fn from_default_template() -> (res: AtResult<Self>)
        ensures
            res is Ok <==> template_spec::<A>(DEFAULT_TOML_TEMPLATE@) is Some,
            res matches Ok(s) ==> Some(s.deep_view()) == template_spec::<A>(DEFAULT_TOML_TEMPLATE@),
            res matches Err(e) ==> e.deep_view() == template_error_view::<A>(DEFAULT_TOML_TEMPLATE@),
    {
        Self::from_template(DEFAULT_TOML_TEMPLATE)
    }

    /// Sets `field` to the value that `value` gives; where `value` gives
    /// none, leaves `field` as it is and returns the error.
    pub fn override_field<F: Parse>(field: &mut F, value: &str) -> (res: AtResult<()>)
        ensures
            res is Ok <==> F::parse_spec(value@) is Some,
            res is Ok ==> Some(final(field).deep_view()) == F::parse_spec(value@),
            res is Ok ==> call_ensures(F::parse, (value,), Ok::<F, AtError>(*final(field))),
            res matches Err(e) ==> e.deep_view() == F::parse_error_spec(value@),
            res matches Err(e) ==> call_ensures(F::parse, (value,), Err::<F, AtError>(e)),
            res is Err ==> *final(field) == *old(field),
    {
        *field = F::parse(value)?;
        Ok(())
    }
}

/// What reading an environment variable gave.
#[derive(Debug, Clone, PartialEq, Eq)]
pub enum EnvVar {
    /// The variable is not set.
    NotPresent,
    /// The variable is set, but not to valid Unicode; with its value, lossily decoded.
    NotUnicode(String),
    /// The variable is set to this value.
    Present(String),
}

impl<A: FromToml> BasicSettings<A> {
    /// Overrides `field` with what an environment variable gave: nothing
    /// where it is not set, an error where it is not Unicode, and otherwise as
    /// `override_field` does with its value.
    pub fn override_field_with_env_value<F: Parse>(field: &mut F, var: &EnvVar) -> (res: AtResult<()>)
        ensures
            match var {
                EnvVar::NotPresent => res is Ok && *final(field) == *old(field),
                EnvVar::NotUnicode(s) => (res matches Err(AtError::EnvVarError(m)) && m@ == s@)
                    && *final(field) == *old(field),
                EnvVar::Present(v) => (res is Ok <==> F::parse_spec(v@) is Some)
                    && (res is Ok ==> Some(final(field).deep_view()) == F::parse_spec(v@))
                    && (res is Ok ==> exists|s: &str| s@ == v@ && call_ensures(F::parse, (s,), Ok::<F, AtError>(*final(field))))
                    && (res matches Err(e) ==> e.deep_view() == F::parse_error_spec(v@))
                    && (res matches Err(e) ==> exists|s: &str| s@ == v@ && call_ensures(F::parse, (s,), Err::<F, AtError>(e)))
                    && (res is Err ==> *final(field) == *old(field)),
            },
    {
        match var {
            EnvVar::NotPresent => Ok(()),
            EnvVar::NotUnicode(s) => Err(AtError::EnvVarError(s.clone())),
            EnvVar::Present(v) => Self::override_field(field, v.as_str()),
        }
    }
}

/// Each setting of `[actix]` is read from the key of its own kebab-case
/// name (or, where the table is written as an array of its thirteen values,
/// from its place in the table's order), and the settings are read exactly
/// where every one of them is.
pub proof fn lemma_actix_settings_read_their_keys(m: TomlContents)
    ensures
        actix_spec(m) is Some <==> (
            hosts_value(struct_field(m, 13, 0, "hosts"@)) is Some
            && setting_value::<Mode>(struct_field(m, 13, 1, "mode"@)) is Some
            && bool_value(struct_field(m, 13, 2, "enable-compression"@)) is Some
            && bool_value(struct_field(m, 13, 3, "enable-log"@)) is Some
            && setting_value::<NumWorkers>(struct_field(m, 13, 4, "num-workers"@)) is Some
            && setting_value::<Backlog>(struct_field(m, 13, 5, "backlog"@)) is Some
            && setting_value::<MaxConnections>(struct_field(m, 13, 6, "max-connections"@)) is Some
            && setting_value::<MaxConnectionRate>(struct_field(m, 13, 7, "max-connection-rate"@)) is Some
            && setting_value::<KeepAlive>(struct_field(m, 13, 8, "keep-alive"@)) is Some
            && setting_value::<Timeout>(struct_field(m, 13, 9, "client-timeout"@)) is Some
            && setting_value::<Timeout>(struct_field(m, 13, 10, "client-shutdown"@)) is Some
            && setting_value::<Timeout>(struct_field(m, 13, 11, "shutdown-timeout"@)) is Some
            && ssl_value(struct_field(m, 13, 12, "ssl"@)) is Some),
        actix_spec(m) matches Some(a) ==> {
            &&& Some(a.hosts) == hosts_value(struct_field(m, 13, 0, "hosts"@))
            &&& Some(a.mode) == setting_value::<Mode>(struct_field(m, 13, 1, "mode"@))
            &&& Some(a.enable_compression) == bool_value(struct_field(m, 13, 2, "enable-compression"@))
            &&& Some(a.enable_log) == bool_value(struct_field(m, 13, 3, "enable-log"@))
            &&& Some(a.num_workers) == setting_value::<NumWorkers>(struct_field(m, 13, 4, "num-workers"@))
            &&& Some(a.backlog) == setting_value::<Backlog>(struct_field(m, 13, 5, "backlog"@))
            &&& Some(a.max_connections)
                == setting_value::<MaxConnections>(struct_field(m, 13, 6, "max-connections"@))
            &&& Some(a.max_connection_rate)
                == setting_value::<MaxConnectionRate>(struct_field(m, 13, 7, "max-connection-rate"@))
            &&& Some(a.keep_alive) == setting_value::<KeepAlive>(struct_field(m, 13, 8, "keep-alive"@))
            &&& Some(a.client_timeout) == setting_value::<Timeout>(struct_field(m, 13, 9, "client-timeout"@))
            &&& Some(a.client_shutdown)
                == setting_value::<Timeout>(struct_field(m, 13, 10, "client-shutdown"@))
            &&& Some(a.shutdown_timeout)
                == setting_value::<Timeout>(struct_field(m, 13, 11, "shutdown-timeout"@))
            &&& Some(a.ssl) == ssl_value(struct_field(m, 13, 12, "ssl"@))
        },
{
}

/// The SSL settings are read from the keys `enabled`, `certificate` and
/// `private-key` (or the three values of an array, in that order).
pub proof fn lemma_ssl_reads_its_keys(t: TomlContents)
    ensures
        ssl_value(Some(t)) matches Some(v) ==> {
            &&& Some(v.enabled) == bool_value(struct_field(t, 3, 0, "enabled"@))
            &&& Some(v.certificate) == string_value(struct_field(t, 3, 1, "certificate"@))
            &&& Some(v.private_key) == string_value(struct_field(t, 3, 2, "private-key"@))
        },
{
}

/// An address is read from its `host` string and its `port` integer (or the
/// two values of an array, in that order); a list of hosts is an array whose
/// elements are read, in order, as addresses.
pub proof fn lemma_hosts_read_their_keys(e: TomlContents)
    ensures
        address_value(Some(e)) matches Some(a) ==> {
            &&& Some(a.host) == string_value(struct_field(e, 2, 0, "host"@))
            &&& struct_field(e, 2, 1, "port"@) matches Some(p)
            &&& node_of(p) == TomlNode::Integer(a.port as i64)
        },
        hosts_value(Some(e)) matches Some(xs) ==> {
            &&& node_of(e) == TomlNode::Array(xs.len())
            &&& forall|i: int| 0 <= i < xs.len() ==> Some(#[trigger] xs[i]) == address_value(Some(child(e, TomlStep::Index(i))))
        },
{
}

/// The settings of a document are its `actix` table, read as the settings of
/// `[actix]`, and its `application` table, read as the application settings
/// (or the two values of an array, in that order).
pub proof fn lemma_settings_read_their_tables<A: FromToml>(m: TomlContents)
    ensures
        settings_spec::<A>(m) matches Some(v) ==> {
            &&& struct_field(m, 2, 0, "actix"@) matches Some(c)
            &&& actix_spec(c) == Some(v.actix)
            &&& struct_field(m, 2, 1, "application"@) matches Some(d)
            &&& A::from_toml_spec(d) == Some(v.application)
        },
{
}

/// A setting read from the settings file and the same text given to
/// `override_field` give the same value.
pub proof fn lemma_file_and_override_agree<T: Parse>(f: Option<TomlContents>, text: Seq<char>)
    requires
        string_value(f) == Some(text),
    ensures
        setting_value::<T>(f) == T::parse_spec(text),
{
}

} // verus!
