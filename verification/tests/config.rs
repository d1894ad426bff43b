use plnk::config::{needs_config_file, resolve_config_path, resolve_credentials_from, ConfigFile, CredentialSource};

#[test]
fn resolve_uses_planka_config_when_set() {
    let path = resolve_config_path(Some("/opt/custom/plnk.toml"), Some("/xdg"), Some("/home/u"));
    assert_eq!(path, "/opt/custom/plnk.toml");
}

#[test]
fn resolve_ignores_empty_planka_config() {
    let path = resolve_config_path(Some(""), None, Some("/home/u"));
    assert_eq!(path, "/home/u/.config/plnk/config.toml");
}

#[test]
fn resolve_uses_xdg_config_home_when_set() {
    let path = resolve_config_path(None, Some("/xdg"), Some("/home/u"));
    assert_eq!(path, "/xdg/plnk/config.toml");
}

#[test]
fn resolve_ignores_empty_xdg_config_home() {
    let path = resolve_config_path(None, Some(""), Some("/home/u"));
    assert_eq!(path, "/home/u/.config/plnk/config.toml");
}

#[test]
fn resolve_defaults_to_home_dot_config() {
    let path = resolve_config_path(None, None, Some("/home/alice"));
    assert_eq!(path, "/home/alice/.config/plnk/config.toml");
}

#[test]
fn resolve_without_home_falls_back_to_cwd() {
    let path = resolve_config_path(None, None, None);
    assert_eq!(path, "./.config/plnk/config.toml");
}

#[test]
fn resolve_joins_without_doubling_separator() {
    let path = resolve_config_path(None, Some("/xdg/"), None);
    assert_eq!(path, "/xdg/plnk/config.toml");
}

#[test]
fn credential_source_display() {
    assert_eq!(CredentialSource::Flags.label(), "CLI flags");
    assert_eq!(CredentialSource::Environment.label(), "environment variables");
    assert_eq!(CredentialSource::ConfigFile.label(), "config file");
}

#[test]
fn resolve_from_flags() {
    let result =
        resolve_credentials_from(Some("http://localhost:3000"), Some("test-token"), None, None, None).unwrap();
    assert_eq!(result.source, CredentialSource::Flags);
    assert_eq!(result.token, "test-token");
    assert_eq!(result.server.as_str(), "http://localhost:3000/");
}

#[test]
fn partial_flags_error() {
    let result = resolve_credentials_from(Some("http://localhost:3000"), None, None, None, None);
    assert!(result.is_err());
    let err = result.unwrap_err();
    assert_eq!(err.exit_code(), 3);
}

#[test]
fn invalid_server_url_error() {
    let result = resolve_credentials_from(Some("not a url"), Some("token"), None, None, None);
    assert!(result.is_err());
    let err = result.unwrap_err();
    assert_eq!(err.error_type(), "InvalidOptionValue");
    assert!(err.message().starts_with("Invalid option value for --server: Invalid URL: "));
}

#[test]
fn environment_used_when_both_set() {
    let c = resolve_credentials_from(None, None, Some("https://p.example"), Some("tok"), None).unwrap();
    assert_eq!(c.source, CredentialSource::Environment);
    assert_eq!(c.token, "tok");
}

#[test]
fn empty_environment_falls_through_to_config() {
    let cfg = ConfigFile { server: "http://cfg.example".to_string(), token: "cfg-token".to_string(), http: None };
    assert!(needs_config_file(None, None, Some(""), Some("tok")));
    let c = resolve_credentials_from(None, None, Some(""), Some("tok"), Some(&cfg)).unwrap();
    assert_eq!(c.source, CredentialSource::ConfigFile);
    assert_eq!(c.token, "cfg-token");
}

#[test]
fn invalid_config_url_names_config_field() {
    let cfg = ConfigFile { server: "::bad".to_string(), token: "t".to_string(), http: None };
    let err = resolve_credentials_from(None, None, None, None, Some(&cfg)).unwrap_err();
    assert!(err.message().starts_with("Invalid option value for config.server: Invalid URL in config file: "));
}

#[test]
fn no_credentials_is_authentication_failure() {
    let err = resolve_credentials_from(None, None, None, None, None).unwrap_err();
    assert_eq!(err.exit_code(), 3);
    assert_eq!(
        err.message(),
        "Authentication failed: No credentials found. Run 'plnk auth login', set PLANKA_SERVER/PLANKA_TOKEN, or pass --server and --token."
    );
}
