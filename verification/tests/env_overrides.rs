#![allow(non_snake_case)]

use std::path::Path;

use actix_settings::{
    Address, AtResult, Backlog, EnvVar, KeepAlive, MaxConnectionRate, MaxConnections, Mode,
    NumWorkers, Settings, Timeout,
};

#[test]
fn override_field_with_env_var__hosts() -> AtResult<()> {
    let mut settings = Settings::from_default_template()?;
    assert_eq!(settings.actix.hosts, vec![
        Address { host: "0.0.0.0".into(),   port: 9000 },
    ]);
    // The value that the environment variable `OVERRIDE__HOSTS` holds.
    let var = EnvVar::Present(r#"[
            ["0.0.0.0",   1234],
            ["localhost", 2345]
        ]"#.to_string());
    Settings::override_field_with_env_value(&mut settings.actix.hosts, &var)?;
    assert_eq!(settings.actix.hosts, vec![
        Address { host: "0.0.0.0".into(),   port: 1234 },
        Address { host: "localhost".into(), port: 2345 },
    ]);
    Ok(())
}

#[test]
fn override_field_with_env_var__mode() -> AtResult<()> {
    let mut settings = Settings::from_default_template()?;
    assert_eq!(settings.actix.mode, Mode::Development);
    // The value that the environment variable `OVERRIDE__MODE` holds.
    let var = EnvVar::Present("production".to_string());
    Settings::override_field_with_env_value(&mut settings.actix.mode, &var)?;
    assert_eq!(settings.actix.mode, Mode::Production);
    Ok(())
}

#[test]
fn override_field_with_env_var__enable_compression() -> AtResult<()> {
    let mut settings = Settings::from_default_template()?;
    assert!(settings.actix.enable_compression);
    // The value that the environment variable `OVERRIDE__ENABLE_COMPRESSION` holds.
    let var = EnvVar::Present("false".to_string());
    Settings::override_field_with_env_value(&mut settings.actix.enable_compression, &var)?;
    assert!(!settings.actix.enable_compression);
    Ok(())
}

#[test]
fn override_field_with_env_var__enable_log() -> AtResult<()> {
    let mut settings = Settings::from_default_template()?;
    assert!(settings.actix.enable_log);
    // The value that the environment variable `OVERRIDE__ENABLE_LOG` holds.
    let var = EnvVar::Present("false".to_string());
    Settings::override_field_with_env_value(&mut settings.actix.enable_log, &var)?;
    assert!(!settings.actix.enable_log);
    Ok(())
}

#[test]
fn override_field_with_env_var__num_workers() -> AtResult<()> {
    let mut settings = Settings::from_default_template()?;
    assert_eq!(settings.actix.num_workers, NumWorkers::Default);
    // The value that the environment variable `OVERRIDE__NUM_WORKERS` holds.
    let var = EnvVar::Present("42".to_string());
    Settings::override_field_with_env_value(&mut settings.actix.num_workers, &var)?;
    assert_eq!(settings.actix.num_workers, NumWorkers::Manual(42));
    Ok(())
}

#[test]
fn override_field_with_env_var__backlog() -> AtResult<()> {
    let mut settings = Settings::from_default_template()?;
    assert_eq!(settings.actix.backlog, Backlog::Default);
    // The value that the environment variable `OVERRIDE__BACKLOG` holds.
    let var = EnvVar::Present("42".to_string());
    Settings::override_field_with_env_value(&mut settings.actix.backlog, &var)?;
    assert_eq!(settings.actix.backlog, Backlog::Manual(42));
    Ok(())
}

#[test]
fn override_field_with_env_var__max_connections() -> AtResult<()> {
    let mut settings = Settings::from_default_template()?;
    assert_eq!(settings.actix.max_connections, MaxConnections::Default);
    // The value that the environment variable `OVERRIDE__MAX_CONNECTIONS` holds.
    let var = EnvVar::Present("42".to_string());
    Settings::override_field_with_env_value(&mut settings.actix.max_connections, &var)?;
    assert_eq!(settings.actix.max_connections, MaxConnections::Manual(42));
    Ok(())
}

#[test]
fn override_field_with_env_var__max_connection_rate() -> AtResult<()> {
    let mut settings = Settings::from_default_template()?;
    assert_eq!(settings.actix.max_connection_rate, MaxConnectionRate::Default);
    // The value that the environment variable `OVERRIDE__MAX_CONNECTION_RATE` holds.
    let var = EnvVar::Present("42".to_string());
    Settings::override_field_with_env_value(&mut settings.actix.max_connection_rate, &var)?;
    assert_eq!(settings.actix.max_connection_rate, MaxConnectionRate::Manual(42));
    Ok(())
}

#[test]
fn override_field_with_env_var__keep_alive() -> AtResult<()> {
    let mut settings = Settings::from_default_template()?;
    assert_eq!(settings.actix.keep_alive, KeepAlive::Default);
    // The value that the environment variable `OVERRIDE__KEEP_ALIVE` holds.
    let var = EnvVar::Present("42 seconds".to_string());
    Settings::override_field_with_env_value(&mut settings.actix.keep_alive, &var)?;
    assert_eq!(settings.actix.keep_alive, KeepAlive::Seconds(42));
    Ok(())
}

#[test]
fn override_field_with_env_var__client_timeout() -> AtResult<()> {
    let mut settings = Settings::from_default_template()?;
    assert_eq!(settings.actix.client_timeout, Timeout::Default);
    // The value that the environment variable `OVERRIDE__CLIENT_TIMEOUT` holds.
    let var = EnvVar::Present("42 seconds".to_string());
    Settings::override_field_with_env_value(&mut settings.actix.client_timeout, &var)?;
    assert_eq!(settings.actix.client_timeout, Timeout::Seconds(42));
    Ok(())
}

#[test]
fn override_field_with_env_var__client_shutdown() -> AtResult<()> {
    let mut settings = Settings::from_default_template()?;
    assert_eq!(settings.actix.client_shutdown, Timeout::Default);
    // The value that the environment variable `OVERRIDE__CLIENT_SHUTDOWN` holds.
    let var = EnvVar::Present("42 seconds".to_string());
    Settings::override_field_with_env_value(&mut settings.actix.client_shutdown, &var)?;
    assert_eq!(settings.actix.client_shutdown, Timeout::Seconds(42));
    Ok(())
}

#[test]
fn override_field_with_env_var__shutdown_timeout() -> AtResult<()> {
    let mut settings = Settings::from_default_template()?;
    assert_eq!(settings.actix.shutdown_timeout, Timeout::Default);
    // The value that the environment variable `OVERRIDE__SHUTDOWN_TIMEOUT` holds.
    let var = EnvVar::Present("42 seconds".to_string());
    Settings::override_field_with_env_value(&mut settings.actix.shutdown_timeout, &var)?;
    assert_eq!(settings.actix.shutdown_timeout, Timeout::Seconds(42));
    Ok(())
}

#[test]
fn override_field_with_env_var__ssl__enabled() -> AtResult<()> {
    let mut settings = Settings::from_default_template()?;
    assert!(!settings.actix.ssl.enabled);
    // The value that the environment variable `OVERRIDE__SSL_ENABLED` holds.
    let var = EnvVar::Present("true".to_string());
    Settings::override_field_with_env_value(&mut settings.actix.ssl.enabled, &var)?;
    assert!(settings.actix.ssl.enabled);
    Ok(())
}

#[test]
fn override_field_with_env_var__ssl__certificate() -> AtResult<()> {
    let mut settings = Settings::from_default_template()?;
    assert_eq!(Path::new(&settings.actix.ssl.certificate), Path::new("path/to/cert/cert.pem"));
    // The value that the environment variable `OVERRIDE__SSL_CERTIFICATE` holds.
    let var = EnvVar::Present("/overridden/path/to/cert/cert.pem".to_string());
    Settings::override_field_with_env_value(&mut settings.actix.ssl.certificate, &var)?;
    assert_eq!(
        Path::new(&settings.actix.ssl.certificate),
        Path::new("/overridden/path/to/cert/cert.pem")
    );
    Ok(())
}

#[test]
fn override_field_with_env_var__ssl__private_key() -> AtResult<()> {
    let mut settings = Settings::from_default_template()?;
    assert_eq!(Path::new(&settings.actix.ssl.private_key), Path::new("path/to/cert/key.pem"));
    // The value that the environment variable `OVERRIDE__SSL_PRIVATE_KEY` holds.
    let var = EnvVar::Present("/overridden/path/to/cert/key.pem".to_string());
    Settings::override_field_with_env_value(&mut settings.actix.ssl.private_key, &var)?;
    assert_eq!(
        Path::new(&settings.actix.ssl.private_key),
        Path::new("/overridden/path/to/cert/key.pem")
    );
    Ok(())
}
