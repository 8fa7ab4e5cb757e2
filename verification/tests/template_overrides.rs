#![allow(non_snake_case)]

use std::path::Path;

use actix_settings::{
    Address, AtResult, Backlog, KeepAlive, MaxConnectionRate, MaxConnections, Mode, NumWorkers,
    Settings, Timeout,
};

#[test]
fn override_field__hosts() -> AtResult<()> {
    let mut settings = Settings::from_default_template()?;
    assert_eq!(settings.actix.hosts, vec![
        Address { host: "0.0.0.0".into(),   port: 9000 },
    ]);
    Settings::override_field(&mut settings.actix.hosts, r#"[
            ["0.0.0.0",   1234],
            ["localhost", 2345]
        ]"#)?;
    assert_eq!(settings.actix.hosts, vec![
        Address { host: "0.0.0.0".into(),   port: 1234 },
        Address { host: "localhost".into(), port: 2345 },
    ]);
    Ok(())
}

#[test]
fn override_field__mode() -> AtResult<()> {
    let mut settings = Settings::from_default_template()?;
    assert_eq!(settings.actix.mode, Mode::Development);
    Settings::override_field(&mut settings.actix.mode, "production")?;
    assert_eq!(settings.actix.mode, Mode::Production);
    Ok(())
}

#[test]
fn override_field__enable_compression() -> AtResult<()> {
    let mut settings = Settings::from_default_template()?;
    assert!(settings.actix.enable_compression);
    Settings::override_field(&mut settings.actix.enable_compression, "false")?;
    assert!(!settings.actix.enable_compression);
    Ok(())
}

#[test]
fn override_field__enable_log() -> AtResult<()> {
    let mut settings = Settings::from_default_template()?;
    assert!(settings.actix.enable_log);
    Settings::override_field(&mut settings.actix.enable_log, "false")?;
    assert!(!settings.actix.enable_log);
    Ok(())
}

#[test]
fn override_field__num_workers() -> AtResult<()> {
    let mut settings = Settings::from_default_template()?;
    assert_eq!(settings.actix.num_workers, NumWorkers::Default);
    Settings::override_field(&mut settings.actix.num_workers, "42")?;
    assert_eq!(settings.actix.num_workers, NumWorkers::Manual(42));
    Ok(())
}

#[test]
fn override_field__backlog() -> AtResult<()> {
    let mut settings = Settings::from_default_template()?;
    assert_eq!(settings.actix.backlog, Backlog::Default);
    Settings::override_field(&mut settings.actix.backlog, "42")?;
    assert_eq!(settings.actix.backlog, Backlog::Manual(42));
    Ok(())
}

#[test]
fn override_field__max_connections() -> AtResult<()> {
    let mut settings = Settings::from_default_template()?;
    assert_eq!(settings.actix.max_connections, MaxConnections::Default);
    Settings::override_field(&mut settings.actix.max_connections, "42")?;
    assert_eq!(settings.actix.max_connections, MaxConnections::Manual(42));
    Ok(())
}

#[test]
fn override_field__max_connection_rate() -> AtResult<()> {
    let mut settings = Settings::from_default_template()?;
    assert_eq!(settings.actix.max_connection_rate, MaxConnectionRate::Default);
    Settings::override_field(&mut settings.actix.max_connection_rate, "42")?;
    assert_eq!(settings.actix.max_connection_rate, MaxConnectionRate::Manual(42));
    Ok(())
}

#[test]
fn override_field__keep_alive() -> AtResult<()> {
    let mut settings = Settings::from_default_template()?;
    assert_eq!(settings.actix.keep_alive, KeepAlive::Default);
    Settings::override_field(&mut settings.actix.keep_alive, "42 seconds")?;
    assert_eq!(settings.actix.keep_alive, KeepAlive::Seconds(42));
    Ok(())
}

#[test]
fn override_field__client_timeout() -> AtResult<()> {
    let mut settings = Settings::from_default_template()?;
    assert_eq!(settings.actix.client_timeout, Timeout::Default);
    Settings::override_field(&mut settings.actix.client_timeout, "42 seconds")?;
    assert_eq!(settings.actix.client_timeout, Timeout::Seconds(42));
    Ok(())
}

#[test]
fn override_field__client_shutdown() -> AtResult<()> {
    let mut settings = Settings::from_default_template()?;
    assert_eq!(settings.actix.client_shutdown, Timeout::Default);
    Settings::override_field(&mut settings.actix.client_shutdown, "42 seconds")?;
    assert_eq!(settings.actix.client_shutdown, Timeout::Seconds(42));
    Ok(())
}

#[test]
fn override_field__shutdown_timeout() -> AtResult<()> {
    let mut settings = Settings::from_default_template()?;
    assert_eq!(settings.actix.shutdown_timeout, Timeout::Default);
    Settings::override_field(&mut settings.actix.shutdown_timeout, "42 seconds")?;
    assert_eq!(settings.actix.shutdown_timeout, Timeout::Seconds(42));
    Ok(())
}

#[test]
fn override_field__ssl__enabled() -> AtResult<()> {
    let mut settings = Settings::from_default_template()?;
    assert!(!settings.actix.ssl.enabled);
    Settings::override_field(&mut settings.actix.ssl.enabled, "true")?;
    assert!(settings.actix.ssl.enabled);
    Ok(())
}

#[test]
fn override_field__ssl__certificate() -> AtResult<()> {
    let mut settings = Settings::from_default_template()?;
    assert_eq!(Path::new(&settings.actix.ssl.certificate), Path::new("path/to/cert/cert.pem"));
    Settings::override_field(
        &mut settings.actix.ssl.certificate, "/overridden/path/to/cert/cert.pem"
    )?;
    assert_eq!(
        Path::new(&settings.actix.ssl.certificate), Path::new("/overridden/path/to/cert/cert.pem")
    );
    Ok(())
}

#[test]
fn override_field__ssl__private_key() -> AtResult<()> {
    let mut settings = Settings::from_default_template()?;
    assert_eq!(Path::new(&settings.actix.ssl.private_key), Path::new("path/to/cert/key.pem"));
    Settings::override_field(
        &mut settings.actix.ssl.private_key, "/overridden/path/to/cert/key.pem"
    )?;
    assert_eq!(
        Path::new(&settings.actix.ssl.private_key), Path::new("/overridden/path/to/cert/key.pem")
    );
    Ok(())
}
