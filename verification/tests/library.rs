use actix_settings::{
    default_file_contents, Address, AtError, AtErrorView, AtResult, Backlog, BasicSettings, DeepView,
    EnvVar, FromToml, IntErrorKind, KeepAlive, KeepAliveChoice, MaxConnectionRate, MaxConnections,
    Mode, NoSettings, NumWorkers, Parse, ServerCall, Settings, Ssl, Timeout, TimeoutChoice,
    TomlContents, DEFAULT_TOML_TEMPLATE,
};

#[derive(Debug, Clone, PartialEq, Eq)]
struct NestedSetting {
    foo: String,
    bar: bool,
}

#[derive(Debug, Clone, PartialEq, Eq)]
struct AppSettings {
    example_name: String,
    nested_field: NestedSetting,
}

// The specification items below belong to verification and never run: a
// type outside the verified library states them in Verus, not here.
impl DeepView for AppSettings {
    type V = ();

    fn deep_view(&self) {
        unreachable!("a specification item")
    }
}

fn toml_error(message: &str) -> AtError {
    AtError::TomlError(message.to_string())
}

impl FromToml for AppSettings {
    fn from_toml_spec(_contents: TomlContents) -> Option<()> {
        unreachable!("a specification item")
    }

    fn from_toml_error_spec(_contents: TomlContents) -> AtErrorView {
        unreachable!("a specification item")
    }

    fn from_toml(value: &toml::Value) -> AtResult<Self> {
        let example_name = value
            .get("example-name")
            .and_then(|v| v.as_str())
            .ok_or_else(|| toml_error("example-name"))?;
        let nested = value.get("nested-field").ok_or_else(|| toml_error("nested-field"))?;
        let foo = nested.get("foo").and_then(|v| v.as_str()).ok_or_else(|| toml_error("foo"))?;
        let bar = nested.get("bar").and_then(|v| v.as_bool()).ok_or_else(|| toml_error("bar"))?;
        Ok(AppSettings {
            example_name: example_name.to_string(),
            nested_field: NestedSetting { foo: foo.to_string(), bar },
        })
    }
}

type CustomSettings = BasicSettings<AppSettings>;

#[test]
fn override_extended_field_with_custom_type() -> AtResult<()> {
    let mut settings = CustomSettings::from_template(&(
        DEFAULT_TOML_TEMPLATE.to_string()
            + "\nexample-name = \"example value\""
            + "\nnested-field = { foo = \"foo\", bar = false }"
    ))?;
    assert_eq!(settings.application, AppSettings {
        example_name: "example value".into(),
        nested_field: NestedSetting { foo: "foo".into(), bar: false },
    });
    CustomSettings::override_field(
        &mut settings.application.example_name,
        &"/overridden/path/to/cert/key.pem".to_string(),
    )?;
    assert_eq!(settings.application, AppSettings {
        example_name: "/overridden/path/to/cert/key.pem".into(),
        nested_field: NestedSetting { foo: "foo".into(), bar: false },
    });
    Ok(())
}

#[test]
fn default_template_gives_documented_defaults() -> AtResult<()> {
    let settings = Settings::from_default_template()?;
    let actix = &settings.actix;
    assert_eq!(actix.hosts, vec![Address { host: "0.0.0.0".into(), port: 9000 }]);
    assert_eq!(actix.mode, Mode::Development);
    assert!(actix.enable_compression);
    assert!(actix.enable_log);
    assert_eq!(actix.num_workers, NumWorkers::Default);
    assert_eq!(actix.backlog, Backlog::Default);
    assert_eq!(actix.max_connections, MaxConnections::Default);
    assert_eq!(actix.max_connection_rate, MaxConnectionRate::Default);
    assert_eq!(actix.keep_alive, KeepAlive::Default);
    assert_eq!(actix.client_timeout, Timeout::Default);
    assert_eq!(actix.client_shutdown, Timeout::Default);
    assert_eq!(actix.shutdown_timeout, Timeout::Default);
    assert_eq!(actix.ssl, Ssl {
        enabled: false,
        certificate: "path/to/cert/cert.pem".into(),
        private_key: "path/to/cert/key.pem".into(),
    });
    assert_eq!(settings.application, NoSettings {});
    Ok(())
}

#[test]
fn from_template_refuses_bad_toml() {
    let text = "[actix\nhosts = ";
    let message = toml::from_str::<toml::Value>(text).unwrap_err().to_string();
    assert_eq!(Settings::from_template(text), Err(AtError::TomlError(message)));
}

#[test]
fn from_template_refuses_missing_table() {
    let res = Settings::from_template("[application]\n");
    assert_eq!(res, Err(toml_error("missing table: actix")));
}

fn setting_error(key: &str) -> AtError {
    AtError::TomlError(format!("invalid or missing setting in the actix table: {}", key))
}

#[test]
fn from_template_refuses_bad_setting() {
    let text = DEFAULT_TOML_TEMPLATE.replace("num-workers = \"default\"", "num-workers = \"none\"");
    assert_eq!(Settings::from_template(&text), Err(setting_error("num-workers")));
    let text = DEFAULT_TOML_TEMPLATE.replace("num-workers = \"default\"", "num-workers = 4");
    assert_eq!(Settings::from_template(&text), Err(setting_error("num-workers")));
    let text = DEFAULT_TOML_TEMPLATE.replace("enable-log = true", "enable-log = \"true\"");
    assert_eq!(Settings::from_template(&text), Err(setting_error("enable-log")));
    let text = DEFAULT_TOML_TEMPLATE.replace("9000", "70000");
    assert_eq!(Settings::from_template(&text), Err(setting_error("hosts")));
    let text = DEFAULT_TOML_TEMPLATE.replace("9000", "70000").replace("enable-log = true", "enable-log = 1");
    assert_eq!(Settings::from_template(&text), Err(setting_error("hosts")));
}

#[test]
fn from_template_reads_settings_and_addresses_as_tables() -> AtResult<()> {
    let text = DEFAULT_TOML_TEMPLATE
        .replace("num-workers = \"default\"", "num-workers = \"6\"")
        .replace("keep-alive = \"default\"", "keep-alive = \"15 seconds\"")
        .replace("client-timeout = \"default\"", "client-timeout = \"250 milliseconds\"")
        .replace("[\"0.0.0.0\", 9000]", "{ host = \"example.org\", port = 80 }, [\"localhost\", 8080]");
    let settings = Settings::from_template(&text)?;
    assert_eq!(settings.actix.num_workers, NumWorkers::Manual(6));
    assert_eq!(settings.actix.keep_alive, KeepAlive::Seconds(15));
    assert_eq!(settings.actix.client_timeout, Timeout::Milliseconds(250));
    assert_eq!(settings.actix.hosts, vec![
        Address { host: "example.org".into(), port: 80 },
        Address { host: "localhost".into(), port: 8080 },
    ]);
    Ok(())
}

#[test]
fn from_toml_value_reads_a_parsed_document() -> AtResult<()> {
    let doc: toml::Value = toml::from_str(DEFAULT_TOML_TEMPLATE).unwrap();
    let settings = Settings::from_toml_value(&doc)?;
    assert_eq!(settings, Settings::from_default_template()?);
    Ok(())
}

#[test]
fn application_table_must_be_a_table() {
    let text = DEFAULT_TOML_TEMPLATE.replace("[application]", "[other]") + "\n[extra]\napplication = 5\n";
    assert_eq!(Settings::from_template(&text), Err(toml_error("missing table: application")));
    let text = "application = 5\n".to_string() + &DEFAULT_TOML_TEMPLATE.replace("[application]", "[other]");
    assert_eq!(Settings::from_template(&text), Err(toml_error("the application settings are not a table")));
}

#[test]
fn bool_parse() {
    assert_eq!(bool::parse("true"), Ok(true));
    assert_eq!(bool::parse("false"), Ok(false));
    assert_eq!(bool::parse("True"), Err(AtError::ParseBoolError));
    assert_eq!(bool::parse(""), Err(AtError::ParseBoolError));
}

#[test]
fn integer_parse_follows_std() {
    assert_eq!(u16::parse("65535"), Ok(65535));
    assert_eq!(u16::parse("+42"), Ok(42));
    assert_eq!(u16::parse("0042"), Ok(42));
    assert_eq!(u16::parse("65536"), Err(AtError::ParseIntError(IntErrorKind::PosOverflow)));
    assert_eq!(u16::parse(""), Err(AtError::ParseIntError(IntErrorKind::Empty)));
    assert_eq!(u16::parse("+"), Err(AtError::ParseIntError(IntErrorKind::InvalidDigit)));
    assert_eq!(u16::parse("-1"), Err(AtError::ParseIntError(IntErrorKind::InvalidDigit)));
    assert_eq!(u16::parse("4 2"), Err(AtError::ParseIntError(IntErrorKind::InvalidDigit)));
    assert_eq!(u8::parse("999x"), Err(AtError::ParseIntError(IntErrorKind::PosOverflow)));
    assert_eq!(u8::parse("26x"), Err(AtError::ParseIntError(IntErrorKind::InvalidDigit)));
    assert_eq!(i8::parse("-128"), Ok(-128));
    assert_eq!(i8::parse("-129"), Err(AtError::ParseIntError(IntErrorKind::NegOverflow)));
    assert_eq!(i8::parse("127"), Ok(127));
    assert_eq!(i64::parse("-9223372036854775808"), Ok(i64::MIN));
    assert_eq!(u64::parse("18446744073709551615"), Ok(u64::MAX));
    assert_eq!(u64::parse("18446744073709551616"), Err(AtError::ParseIntError(IntErrorKind::PosOverflow)));
    for s in ["0", "1", "7", "42", "255", "12345", "+9", "-3", "x", "", "300", "26x", "2600x", "+", "-", "-x"] {
        assert_eq!(i32::parse(s).ok(), s.parse::<i32>().ok());
        assert_eq!(u8::parse(s).ok(), s.parse::<u8>().ok());
        assert_eq!(i8::parse(s).ok(), s.parse::<i8>().ok());
        assert_eq!(usize::parse(s).ok(), s.parse::<usize>().ok());
        assert_eq!(
            u8::parse(s).err(),
            s.parse::<u8>().err().map(|e| AtError::ParseIntError(match e.kind() {
                std::num::IntErrorKind::Empty => IntErrorKind::Empty,
                std::num::IntErrorKind::InvalidDigit => IntErrorKind::InvalidDigit,
                std::num::IntErrorKind::PosOverflow => IntErrorKind::PosOverflow,
                std::num::IntErrorKind::NegOverflow => IntErrorKind::NegOverflow,
                _ => IntErrorKind::Empty,
            }))
        );
    }
}

#[test]
fn string_parse_copies() {
    assert_eq!(String::parse(" any text "), Ok(" any text ".to_string()));
}

#[test]
fn mode_parse() {
    assert_eq!(Mode::parse("development"), Ok(Mode::Development));
    assert_eq!(Mode::parse("production"), Ok(Mode::Production));
    assert_eq!(Mode::parse("Production"), Err(AtError::InvalidValue {
        expected: "\"development\" or \"production\"".to_string(),
        got: "Production".to_string(),
    }));
}

#[test]
fn count_settings_parse() {
    assert_eq!(NumWorkers::parse("default"), Ok(NumWorkers::Default));
    assert_eq!(NumWorkers::parse("6"), Ok(NumWorkers::Manual(6)));
    assert_eq!(Backlog::parse("2048"), Ok(Backlog::Manual(2048)));
    assert_eq!(MaxConnections::parse("25000"), Ok(MaxConnections::Manual(25000)));
    assert_eq!(MaxConnectionRate::parse("256"), Ok(MaxConnectionRate::Manual(256)));
    assert!(matches!(NumWorkers::parse("0"), Err(AtError::InvalidValue { .. })));
    assert!(matches!(Backlog::parse("-1"), Err(AtError::InvalidValue { .. })));
    assert!(matches!(MaxConnections::parse("Default"), Err(AtError::InvalidValue { .. })));
    assert_eq!(MaxConnectionRate::parse("many"), Err(AtError::InvalidValue {
        expected: "\"default\" or a positive integer".to_string(),
        got: "many".to_string(),
    }));
}

#[test]
fn keep_alive_parse() {
    assert_eq!(KeepAlive::parse("default"), Ok(KeepAlive::Default));
    assert_eq!(KeepAlive::parse("disabled"), Ok(KeepAlive::Disabled));
    assert_eq!(KeepAlive::parse("os"), Ok(KeepAlive::Os));
    assert_eq!(KeepAlive::parse("6 seconds"), Ok(KeepAlive::Seconds(6)));
    assert!(matches!(KeepAlive::parse("0 seconds"), Err(AtError::InvalidValue { .. })));
    assert!(matches!(KeepAlive::parse("6  seconds"), Err(AtError::InvalidValue { .. })));
    assert!(matches!(KeepAlive::parse("+6 seconds"), Err(AtError::InvalidValue { .. })));
    assert!(matches!(KeepAlive::parse(" seconds"), Err(AtError::InvalidValue { .. })));
    assert!(matches!(KeepAlive::parse("6 milliseconds"), Err(AtError::InvalidValue { .. })));
}

#[test]
fn timeout_parse() {
    assert_eq!(Timeout::parse("default"), Ok(Timeout::Default));
    assert_eq!(Timeout::parse("5000 milliseconds"), Ok(Timeout::Milliseconds(5000)));
    assert!(matches!(Timeout::parse("0 milliseconds"), Err(AtError::InvalidValue { .. })));
    assert!(matches!(Timeout::parse("0 seconds"), Err(AtError::InvalidValue { .. })));
    assert_eq!(Timeout::parse("30 seconds"), Ok(Timeout::Seconds(30)));
    assert!(matches!(Timeout::parse("30"), Err(AtError::InvalidValue { .. })));
    assert!(matches!(Timeout::parse("30 minutes"), Err(AtError::InvalidValue { .. })));
    assert!(matches!(
        Timeout::parse("99999999999999999999999 seconds"),
        Err(AtError::InvalidValue { .. })
    ));
}

#[test]
fn address_list_parse() {
    assert_eq!(Vec::<Address>::parse("[]"), Ok(vec![]));
    assert_eq!(Vec::<Address>::parse(" [ [\"a\",1] , ] "), Ok(vec![Address { host: "a".into(), port: 1 }]));
    assert_eq!(
        Vec::<Address>::parse("[[\"a b\",1],[ \"c\" , 65535 ]]"),
        Ok(vec![Address { host: "a b".into(), port: 1 }, Address { host: "c".into(), port: 65535 }])
    );
    for bad in ["", "[", "[[\"a\",1]", "[[\"\",1]]", "[[\"a\",]]", "[[\"a\",65536]]", "[[a,1]]", "[[\"a\",1]] x", "[[\"a\",1],,]"] {
        assert_eq!(Vec::<Address>::parse(bad), Err(AtError::ParseAddressError(bad.to_string())));
    }
}

#[test]
fn single_address_parse() {
    assert_eq!(Address::parse(" [\"localhost\", 8080] "), Ok(Address { host: "localhost".into(), port: 8080 }));
    assert_eq!(Address::parse("[\"localhost\"]"), Err(AtError::ParseAddressError("[\"localhost\"]".to_string())));
}

#[test]
fn failed_override_leaves_field_unchanged() {
    let mut settings = Settings::from_default_template().unwrap();
    let before = settings.clone();
    assert!(Settings::override_field(&mut settings.actix.backlog, "lots").is_err());
    assert!(Settings::override_field(&mut settings.actix.hosts, "[\"0.0.0.0\", 1]").is_err());
    assert_eq!(settings, before);
}

#[test]
fn file_setting_and_override_agree() -> AtResult<()> {
    let text = DEFAULT_TOML_TEMPLATE.replace("backlog = \"default\"", "backlog = \"64\"");
    let from_file = Settings::from_template(&text)?;
    let mut overridden = Settings::from_default_template()?;
    Settings::override_field(&mut overridden.actix.backlog, "64")?;
    assert_eq!(from_file, overridden);
    Ok(())
}

#[test]
fn env_value_override() {
    let mut mode = Mode::Development;
    assert_eq!(Settings::override_field_with_env_value(&mut mode, &EnvVar::NotPresent), Ok(()));
    assert_eq!(mode, Mode::Development);
    assert_eq!(
        Settings::override_field_with_env_value(&mut mode, &EnvVar::NotUnicode("\u{fffd}".into())),
        Err(AtError::EnvVarError("\u{fffd}".into()))
    );
    assert_eq!(mode, Mode::Development);
    assert_eq!(Settings::override_field_with_env_value(&mut mode, &EnvVar::Present("production".into())), Ok(()));
    assert_eq!(mode, Mode::Production);
    assert!(Settings::override_field_with_env_value(&mut mode, &EnvVar::Present("staging".into())).is_err());
    assert_eq!(mode, Mode::Production);
}

#[test]
fn server_calls_of_defaults_are_the_binds() -> AtResult<()> {
    let settings = Settings::from_default_template()?;
    assert_eq!(settings.actix.server_calls(), vec![ServerCall::Bind("0.0.0.0:9000".to_string())]);
    Ok(())
}

#[test]
fn server_calls_come_in_order() -> AtResult<()> {
    let mut settings = Settings::from_default_template()?;
    Settings::override_field(&mut settings.actix.hosts, "[[\"localhost\", 0], [\"example.org\", 65535]]")?;
    Settings::override_field(&mut settings.actix.num_workers, "4")?;
    Settings::override_field(&mut settings.actix.backlog, "64")?;
    Settings::override_field(&mut settings.actix.max_connections, "100")?;
    Settings::override_field(&mut settings.actix.max_connection_rate, "10")?;
    Settings::override_field(&mut settings.actix.keep_alive, "os")?;
    Settings::override_field(&mut settings.actix.client_timeout, "3 seconds")?;
    Settings::override_field(&mut settings.actix.client_shutdown, "250 milliseconds")?;
    Settings::override_field(&mut settings.actix.shutdown_timeout, "250 milliseconds")?;
    assert_eq!(
        settings.actix.server_calls(),
        vec![
            ServerCall::Bind("localhost:0".to_string()),
            ServerCall::Bind("example.org:65535".to_string()),
            ServerCall::Workers(4),
            ServerCall::Backlog(64),
            ServerCall::MaxConnections(100),
            ServerCall::MaxConnectionRate(10),
            ServerCall::KeepAlive(KeepAliveChoice::Os),
            ServerCall::ClientTimeout(TimeoutChoice::Seconds(3)),
            ServerCall::ClientShutdown(TimeoutChoice::Milliseconds(250)),
            ServerCall::ShutdownTimeout(1),
        ]
    );
    assert_eq!(TimeoutChoice::Seconds(3).millis(), Some(3000));
    assert_eq!(TimeoutChoice::Milliseconds(250).millis(), Some(250));
    Settings::override_field(&mut settings.actix.shutdown_timeout, "7 seconds")?;
    Settings::override_field(&mut settings.actix.keep_alive, "9 seconds")?;
    Settings::override_field(&mut settings.actix.backlog, "default")?;
    Settings::override_field(&mut settings.actix.client_timeout, "default")?;
    assert_eq!(
        settings.actix.server_calls()[2..],
        [
            ServerCall::Workers(4),
            ServerCall::MaxConnections(100),
            ServerCall::MaxConnectionRate(10),
            ServerCall::KeepAlive(KeepAliveChoice::Seconds(9)),
            ServerCall::ClientShutdown(TimeoutChoice::Milliseconds(250)),
            ServerCall::ShutdownTimeout(7),
        ]
    );
    Ok(())
}

#[test]
fn timeout_millis_overflow() {
    assert_eq!(TimeoutChoice::Seconds(u64::MAX / 1000).millis(), Some(u64::MAX / 1000 * 1000));
    assert_eq!(TimeoutChoice::Seconds(u64::MAX / 1000 + 1).millis(), None);
    assert_eq!(TimeoutChoice::Milliseconds(u64::MAX).millis(), Some(u64::MAX));
}

#[test]
fn server_calls_ignore_mode_logging_and_ssl_paths() -> AtResult<()> {
    let a = Settings::from_default_template()?;
    let mut b = a.clone();
    Settings::override_field(&mut b.actix.mode, "production")?;
    Settings::override_field(&mut b.actix.enable_log, "false")?;
    Settings::override_field(&mut b.actix.enable_compression, "false")?;
    Settings::override_field(&mut b.actix.ssl.certificate, "other.pem")?;
    assert_eq!(a.actix.server_calls(), b.actix.server_calls());
    Ok(())
}

#[test]
fn default_file_contents_is_trimmed_template() {
    assert_eq!(default_file_contents(), DEFAULT_TOML_TEMPLATE.trim());
    assert!(default_file_contents().starts_with("[actix]"));
    assert!(default_file_contents().ends_with("[application]"));
}

#[test]
fn decimal_counts_read_back() {
    for n in [1usize, 9, 10, 99, 100, 65535, 1_000_000, usize::MAX] {
        let text = n.to_string();
        assert_eq!(NumWorkers::parse(&text), Ok(NumWorkers::Manual(n)));
        assert_eq!(Backlog::parse(&text), Ok(Backlog::Manual(n)));
        assert_eq!(MaxConnections::parse(&text), Ok(MaxConnections::Manual(n)));
        assert_eq!(MaxConnectionRate::parse(&text), Ok(MaxConnectionRate::Manual(n)));
        assert_eq!(KeepAlive::parse(&format!("{} seconds", n)), Ok(KeepAlive::Seconds(n)));
    }
}

#[test]
fn decimal_timeouts_read_back() {
    for n in [1usize, 42, 5000, usize::MAX] {
        assert_eq!(Timeout::parse(&format!("{} milliseconds", n)), Ok(Timeout::Milliseconds(n)));
        assert_eq!(Timeout::parse(&format!("{} seconds", n)), Ok(Timeout::Seconds(n)));
    }
}

#[test]
fn written_addresses_read_back() {
    for (host, port) in [("0.0.0.0", 9000u16), ("localhost", 0), ("a b,c]", 65535)] {
        let text = format!("[\"{}\",{}]", host, port);
        assert_eq!(Address::parse(&text), Ok(Address { host: host.to_string(), port }));
    }
    let list = "[[\"0.0.0.0\",1234],[\"localhost\",2345],[\"::1\",80]]";
    assert_eq!(Vec::<Address>::parse(list), Ok(vec![
        Address { host: "0.0.0.0".into(), port: 1234 },
        Address { host: "localhost".into(), port: 2345 },
        Address { host: "::1".into(), port: 80 },
    ]));
}
