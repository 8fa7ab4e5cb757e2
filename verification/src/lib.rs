//! Settings for an actix-web server, read from a `Server.toml` file.
//!
//! The `[actix]` table of the file holds the server's settings, the
//! `[application]` table those of the application. Each setting can also be
//! overridden from text, such as the value of an environment variable.

mod actix;
mod address;
mod document;
mod error;
mod laws;
mod parse;
mod server;
mod settings;
mod spaced;
mod template;
mod text;

pub use crate::actix::{
    ActixSettings, ActixSettingsView, Address, AddressView, Backlog, KeepAlive, MaxConnectionRate,
    MaxConnections, Mode, NumWorkers, Ssl, SslView, Timeout,
};
pub use crate::document::{TomlContents, TomlNode, TomlStep, toml_contents, toml_document};
pub use crate::error::{AtError, AtErrorView, AtResult, IntErrorKind};
pub use crate::laws::{
    address_list_text, address_text, elements_text, lemma_address_list_reads_back,
    lemma_address_reads_back, lemma_counts_read_decimal, lemma_decimal_digits,
    lemma_keep_alive_reads_seconds, lemma_parse_decimal, lemma_scan_decimal,
    lemma_integers_read_their_decimal_writing, lemma_setting_names_and_amounts, lemma_timeout_reads_units,
    writable_host,
};
pub use crate::parse::Parse;
pub use crate::server::{
    KeepAliveChoice, ServerCall, ServerCallView, TimeoutChoice, call_rank, calls_in_order, calls_spec,
    lemma_calls_depend_on_server_settings, lemma_server_calls_carry_settings,
    lemma_server_calls_in_order, lemma_timeout_choice_millis, millis_spec,
};
pub use crate::settings::{
    BasicSettings, BasicSettingsView, EnvVar, FromToml, NoSettings, Settings,
    lemma_actix_settings_read_their_keys, lemma_file_and_override_agree, lemma_hosts_read_their_keys,
    lemma_settings_read_their_tables, lemma_ssl_reads_its_keys,
};
pub use crate::spaced::{
    blank, lemma_spaced_address_reads_back, lemma_spaced_list_reads_back, spaced_address_text,
    spaced_elements_text, spaced_list_text,
};
pub use crate::template::{DEFAULT_TOML_TEMPLATE, default_file_contents};
pub use vstd::view::DeepView;
