use vstd::prelude::*;
use vstd::string::*;

use crate::error::{AtError, AtErrorView, AtResult};
use crate::parse::{int_value_spec, Parse};
use crate::text::{
    all_digits, chars_eq_str, chars_of, digits_prefix, ends_with_str, parse_int_chars, sub_chars,
};

verus! {

/// Whether the server runs for development or in production.
#[derive(Debug, Clone, Copy, PartialEq, Eq, Hash, Structural)]
pub enum Mode {
    Development,
    Production,
}

/// The number of workers that the server starts.
#[derive(Debug, Clone, Copy, PartialEq, Eq, Hash, Structural)]
pub enum NumWorkers {
    /// One worker per logical CPU core.
    Default,
    Manual(usize),
}

/// The maximum number of pending connections.
#[derive(Debug, Clone, Copy, PartialEq, Eq, Hash, Structural)]
pub enum Backlog {
    Default,
    Manual(usize),
}

/// The maximum per-worker number of concurrent connections.
#[derive(Debug, Clone, Copy, PartialEq, Eq, Hash, Structural)]
pub enum MaxConnections {
    Default,
    Manual(usize),
}

/// The maximum per-worker number of concurrent connection establishments.
#[derive(Debug, Clone, Copy, PartialEq, Eq, Hash, Structural)]
pub enum MaxConnectionRate {
    Default,
    Manual(usize),
}

/// The server's keep-alive setting.
#[derive(Debug, Clone, Copy, PartialEq, Eq, Hash, Structural)]
pub enum KeepAlive {
    Default,
    Disabled,
    Os,
    Seconds(usize),
}

/// A timeout.
#[derive(Debug, Clone, Copy, PartialEq, Eq, Hash, Structural)]
pub enum Timeout {
    Default,
    Milliseconds(usize),
    Seconds(usize),
}

/// A host name and a port that the server binds to.
#[derive(Debug, Clone, PartialEq, Eq, Hash)]
pub struct Address {
    pub host: String,
    pub port: u16,
}

/// The SSL settings.
#[derive(Debug, Clone, PartialEq, Eq, Hash)]
pub struct Ssl {
    pub enabled: bool,
    pub certificate: String,
    pub private_key: String,
}

/// The settings of the `[actix]` table.
#[derive(Debug, Clone, PartialEq, Eq, Hash)]
pub struct ActixSettings {
    pub hosts: Vec<Address>,
    pub mode: Mode,
    pub enable_compression: bool,
    pub enable_log: bool,
    pub num_workers: NumWorkers,
    pub backlog: Backlog,
    pub max_connections: MaxConnections,
    pub max_connection_rate: MaxConnectionRate,
    pub keep_alive: KeepAlive,
    pub client_timeout: Timeout,
    pub client_shutdown: Timeout,
    pub shutdown_timeout: Timeout,
    pub ssl: Ssl,
}

/// An address, with its host name as a sequence of characters.
pub struct AddressView {
    pub host: Seq<char>,
    pub port: u16,
}

/// The SSL settings, with their paths as sequences of characters.
pub struct SslView {
    pub enabled: bool,
    pub certificate: Seq<char>,
    pub private_key: Seq<char>,
}

/// The settings of the `[actix]` table, with text as sequences of characters.
pub struct ActixSettingsView {
    pub hosts: Seq<AddressView>,
    pub mode: Mode,
    pub enable_compression: bool,
    pub enable_log: bool,
    pub num_workers: NumWorkers,
    pub backlog: Backlog,
    pub max_connections: MaxConnections,
    pub max_connection_rate: MaxConnectionRate,
    pub keep_alive: KeepAlive,
    pub client_timeout: Timeout,
    pub client_shutdown: Timeout,
    pub shutdown_timeout: Timeout,
    pub ssl: SslView,
}

impl DeepView for Mode {
    type V = Mode;

    open spec fn deep_view(&self) -> Mode {
        *self
    }
}

impl DeepView for NumWorkers {
    type V = NumWorkers;

    open spec fn deep_view(&self) -> NumWorkers {
        *self
    }
}

impl DeepView for Backlog {
    type V = Backlog;

    open spec fn deep_view(&self) -> Backlog {
        *self
    }
}

impl DeepView for MaxConnections {
    type V = MaxConnections;

    open spec fn deep_view(&self) -> MaxConnections {
        *self
    }
}

impl DeepView for MaxConnectionRate {
    type V = MaxConnectionRate;

    open spec fn deep_view(&self) -> MaxConnectionRate {
        *self
    }
}

impl DeepView for KeepAlive {
    type V = KeepAlive;

    open spec fn deep_view(&self) -> KeepAlive {
        *self
    }
}

impl DeepView for Timeout {
    type V = Timeout;

    open spec fn deep_view(&self) -> Timeout {
        *self
    }
}

impl DeepView for Address {
    type V = AddressView;

    open spec fn deep_view(&self) -> AddressView {
        AddressView { host: self.host@, port: self.port }
    }
}

impl DeepView for Ssl {
    type V = SslView;

    open spec fn deep_view(&self) -> SslView {
        SslView { enabled: self.enabled, certificate: self.certificate@, private_key: self.private_key@ }
    }
}

impl DeepView for ActixSettings {
    type V = ActixSettingsView;

    open spec fn deep_view(&self) -> ActixSettingsView {
        ActixSettingsView {
            hosts: self.hosts.deep_view(),
            mode: self.mode,
            enable_compression: self.enable_compression,
            enable_log: self.enable_log,
            num_workers: self.num_workers,
            backlog: self.backlog,
            max_connections: self.max_connections,
            max_connection_rate: self.max_connection_rate,
            keep_alive: self.keep_alive,
            client_timeout: self.client_timeout,
            client_shutdown: self.client_shutdown,
            shutdown_timeout: self.shutdown_timeout,
            ssl: self.ssl.deep_view(),
        }
    }
}

/// The error for a setting whose text `got` is not one of its values.
pub open spec fn is_invalid_value(e: AtError, expected: Seq<char>, got: Seq<char>) -> bool {
    e.deep_view() == AtErrorView::InvalidValue { expected, got }
}

/// What a mode takes.
pub const MODE_VALUES: &'static str = "\"development\" or \"production\"";

/// What a count setting takes.
pub const COUNT_VALUES: &'static str = "\"default\" or a positive integer";

/// What the keep-alive setting takes.
pub const KEEP_ALIVE_VALUES: &'static str = "\"default\", \"disabled\", \"os\" or \"N seconds\"";

/// What a timeout takes.
pub const TIMEOUT_VALUES: &'static str = "\"default\", \"N milliseconds\" or \"N seconds\"";

/// An `InvalidValue` error for the text `got`.
fn invalid_value(expected: &str, got: &str) -> (e: AtError)
    ensures
        is_invalid_value(e, expected@, got@),
{
    AtError::InvalidValue { expected: expected.to_owned(), got: got.to_owned() }
}

/// The mode that `text` names: `development` or `production`.
pub open spec fn mode_spec(text: Seq<char>) -> Option<Mode> {
    if text == "development"@ {
        Some(Mode::Development)
    } else if text == "production"@ {
        Some(Mode::Production)
    } else {
        None
    }
}

impl Parse for Mode {
    open spec fn parse_spec(text: Seq<char>) -> Option<Mode> {
        mode_spec(text)
    }

    open spec fn parse_error_spec(text: Seq<char>) -> AtErrorView {
        AtErrorView::InvalidValue { expected: MODE_VALUES@, got: text }
    }

    fn parse(string: &str) -> (res: AtResult<Mode>) {
        let cs = chars_of(string);
        if chars_eq_str(&cs, "development") {
            Ok(Mode::Development)
        } else if chars_eq_str(&cs, "production") {
            Ok(Mode::Production)
        } else {
            Err(invalid_value(MODE_VALUES, string))
        }
    }
}

/// A positive count written in decimal, as `usize::from_str` reads it.
pub open spec fn positive_count_spec(text: Seq<char>) -> Option<usize> {
    match int_value_spec(text, 0, usize::MAX as int) {
        Some(n) => if n > 0 { Some(n as usize) } else { None },
        None => None,
    }
}

/// The count that `text` gives: `default`, or a positive count.
pub open spec fn count_setting_spec(text: Seq<char>) -> Option<Option<usize>> {
    if text == "default"@ {
        Some(None)
    } else {
        match positive_count_spec(text) {
            Some(n) => Some(Some(n)),
            None => None,
        }
    }
}

/// Reads `default` (as `None`) or a positive count (as `Some`).
fn parse_count_setting(string: &str) -> (res: AtResult<Option<usize>>)
    ensures
        res is Ok <==> count_setting_spec(string@) is Some,
        res matches Ok(v) ==> Some(v) == count_setting_spec(string@),
        res matches Err(e) ==> is_invalid_value(e, COUNT_VALUES@, string@),
{
    let cs = chars_of(string);
    if chars_eq_str(&cs, "default") {
        return Ok(None);
    }
    proof {
        crate::text::lemma_parse_int_bounded(cs@, 0, usize::MAX as int);
    }
    match parse_int_chars(&cs, 0, usize::MAX as i128) {
        Ok(n) => {
            if n > 0 {
                Ok(Some(n as usize))
            } else {
                Err(invalid_value(COUNT_VALUES, string))
            }
        },
        Err(_) => Err(invalid_value(COUNT_VALUES, string)),
    }
}

impl Parse for NumWorkers {
    open spec fn parse_spec(text: Seq<char>) -> Option<NumWorkers> {
        match count_setting_spec(text) {
            Some(None) => Some(NumWorkers::Default),
            Some(Some(n)) => Some(NumWorkers::Manual(n)),
            None => None,
        }
    }

    open spec fn parse_error_spec(text: Seq<char>) -> AtErrorView {
        AtErrorView::InvalidValue { expected: COUNT_VALUES@, got: text }
    }

    fn parse(string: &str) -> (res: AtResult<NumWorkers>) {
        match parse_count_setting(string) {
            Ok(None) => Ok(NumWorkers::Default),
            Ok(Some(n)) => Ok(NumWorkers::Manual(n)),
            Err(e) => Err(e),
        }
    }
}

impl Parse for Backlog {
    open spec fn parse_spec(text: Seq<char>) -> Option<Backlog> {
        match count_setting_spec(text) {
            Some(None) => Some(Backlog::Default),
            Some(Some(n)) => Some(Backlog::Manual(n)),
            None => None,
        }
    }

    open spec fn parse_error_spec(text: Seq<char>) -> AtErrorView {
        AtErrorView::InvalidValue { expected: COUNT_VALUES@, got: text }
    }

    fn parse(string: &str) -> (res: AtResult<Backlog>) {
        match parse_count_setting(string) {
            Ok(None) => Ok(Backlog::Default),
            Ok(Some(n)) => Ok(Backlog::Manual(n)),
            Err(e) => Err(e),
        }
    }
}

impl Parse for MaxConnections {
    open spec fn parse_spec(text: Seq<char>) -> Option<MaxConnections> {
        match count_setting_spec(text) {
            Some(None) => Some(MaxConnections::Default),
            Some(Some(n)) => Some(MaxConnections::Manual(n)),
            None => None,
        }
    }

    open spec fn parse_error_spec(text: Seq<char>) -> AtErrorView {
        AtErrorView::InvalidValue { expected: COUNT_VALUES@, got: text }
    }

    fn parse(string: &str) -> (res: AtResult<MaxConnections>) {
        match parse_count_setting(string) {
            Ok(None) => Ok(MaxConnections::Default),
            Ok(Some(n)) => Ok(MaxConnections::Manual(n)),
            Err(e) => Err(e),
        }
    }
}

impl Parse for MaxConnectionRate {
    open spec fn parse_spec(text: Seq<char>) -> Option<MaxConnectionRate> {
        match count_setting_spec(text) {
            Some(None) => Some(MaxConnectionRate::Default),
            Some(Some(n)) => Some(MaxConnectionRate::Manual(n)),
            None => None,
        }
    }

    open spec fn parse_error_spec(text: Seq<char>) -> AtErrorView {
        AtErrorView::InvalidValue { expected: COUNT_VALUES@, got: text }
    }

    fn parse(string: &str) -> (res: AtResult<MaxConnectionRate>) {
        match parse_count_setting(string) {
            Ok(None) => Ok(MaxConnectionRate::Default),
            Ok(Some(n)) => Ok(MaxConnectionRate::Manual(n)),
            Err(e) => Err(e),
        }
    }
}

/// The amount that `text` gives as one or more ASCII digits followed by
/// `suffix`, where the digits write a `usize`.
pub open spec fn amount_with_suffix(text: Seq<char>, suffix: Seq<char>) -> Option<usize> {
    let k = text.len() - suffix.len();
    if suffix.len() < text.len() && text.skip(k) == suffix && all_digits(text.take(k)) {
        match int_value_spec(text.take(k), 0, usize::MAX as int) {
            Some(n) => Some(n as usize),
            None => None,
        }
    } else {
        None
    }
}

/// Reads one or more ASCII digits followed by `suffix`; see `amount_with_suffix`.
fn amount_with_suffix_exec(cs: &Vec<char>, suffix: &str) -> (res: Option<usize>)
    ensures
        res == amount_with_suffix(cs@, suffix@),
{
    let n = cs.len();
    let m = suffix.unicode_len();
    if !(m < n) || !ends_with_str(cs, suffix) {
        return None;
    }
    let k = n - m;
    if !digits_prefix(cs, k) {
        return None;
    }
    let ds = sub_chars(cs, 0, k);
    assert(ds@ =~= cs@.take(k as int));
    proof {
        crate::text::lemma_parse_int_bounded(ds@, 0, usize::MAX as int);
    }
    match parse_int_chars(&ds, 0, usize::MAX as i128) {
        Ok(v) => Some(v as usize),
        Err(_) => None,
    }
}

/// The keep-alive setting that `text` gives: `default`, `disabled`, `os`,
/// or `N seconds` with `N` a positive count.
pub open spec fn keep_alive_spec(text: Seq<char>) -> Option<KeepAlive> {
    if text == "default"@ {
        Some(KeepAlive::Default)
    } else if text == "disabled"@ {
        Some(KeepAlive::Disabled)
    } else if text == "os"@ {
        Some(KeepAlive::Os)
    } else {
        match amount_with_suffix(text, " seconds"@) {
            Some(n) => if n > 0 { Some(KeepAlive::Seconds(n)) } else { None },
            None => None,
        }
    }
}

impl Parse for KeepAlive {
    open spec fn parse_spec(text: Seq<char>) -> Option<KeepAlive> {
        keep_alive_spec(text)
    }

    open spec fn parse_error_spec(text: Seq<char>) -> AtErrorView {
        AtErrorView::InvalidValue { expected: KEEP_ALIVE_VALUES@, got: text }
    }

    fn parse(string: &str) -> (res: AtResult<KeepAlive>) {
        let cs = chars_of(string);
        if chars_eq_str(&cs, "default") {
            Ok(KeepAlive::Default)
        } else if chars_eq_str(&cs, "disabled") {
            Ok(KeepAlive::Disabled)
        } else if chars_eq_str(&cs, "os") {
            Ok(KeepAlive::Os)
        } else {
            match amount_with_suffix_exec(&cs, " seconds") {
                Some(n) => if n > 0 {
                    Ok(KeepAlive::Seconds(n))
                } else {
                    Err(invalid_value(KEEP_ALIVE_VALUES, string))
                },
                None => Err(invalid_value(KEEP_ALIVE_VALUES, string)),
            }
        }
    }
}

/// The timeout that `text` gives: `default`, `N milliseconds` or `N seconds`,
/// with `N` a positive count.
pub open spec fn timeout_spec(text: Seq<char>) -> Option<Timeout> {
    if text == "default"@ {
        Some(Timeout::Default)
    } else {
        match amount_with_suffix(text, " milliseconds"@) {
            Some(n) => if n > 0 { Some(Timeout::Milliseconds(n)) } else { None },
            None => match amount_with_suffix(text, " seconds"@) {
                Some(n) => if n > 0 { Some(Timeout::Seconds(n)) } else { None },
                None => None,
            },
        }
    }
}

impl Parse for Timeout {
    open spec fn parse_spec(text: Seq<char>) -> Option<Timeout> {
        timeout_spec(text)
    }

    open spec fn parse_error_spec(text: Seq<char>) -> AtErrorView {
        AtErrorView::InvalidValue { expected: TIMEOUT_VALUES@, got: text }
    }

    fn parse(string: &str) -> (res: AtResult<Timeout>) {
        let cs = chars_of(string);
        if chars_eq_str(&cs, "default") {
            return Ok(Timeout::Default);
        }
        match amount_with_suffix_exec(&cs, " milliseconds") {
            Some(n) => if n > 0 {
                Ok(Timeout::Milliseconds(n))
            } else {
                Err(invalid_value(TIMEOUT_VALUES, string))
            },
            None => match amount_with_suffix_exec(&cs, " seconds") {
                Some(n) => if n > 0 {
                    Ok(Timeout::Seconds(n))
                } else {
                    Err(invalid_value(TIMEOUT_VALUES, string))
                },
                None => Err(invalid_value(TIMEOUT_VALUES, string)),
            },
        }
    }
}

} // verus!
