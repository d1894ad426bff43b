//! Configuration file contents, where the file lives, and the precedence
//! chain that decides which credentials the client uses.

use vstd::prelude::*;

use crate::error::{display_url_error, PlankaError};
use crate::text::push_str;

verus! {

/// Optional transport tuning in the config file.
#[derive(Debug, Clone, PartialEq, Eq, Default)]
pub struct HttpConfig {
    pub max_in_flight: Option<usize>,
    pub rate_limit: Option<u32>,
    pub burst: Option<u32>,
    pub retry_attempts: Option<u32>,
    pub retry_base_delay_ms: Option<u64>,
    pub retry_max_delay_ms: Option<u64>,
}

/// Config file contents: server, token and optional transport tuning.
#[derive(Debug, Clone, PartialEq, Eq)]
pub struct ConfigFile {
    pub server: String,
    pub token: String,
    pub http: Option<HttpConfig>,
}

/// `base` joined with a relative component, as `PathBuf::push` joins a
/// relative path without a prefix: a `/` is inserted unless `base` is empty
/// or already ends with one.
pub open spec fn spec_join(base: Seq<char>, component: Seq<char>) -> Seq<char> {
    if base.len() == 0 || base.last() == '/' {
        base + component
    } else {
        base + "/"@ + component
    }
}

/// Appends a relative component to a path held as text.
fn join_component(base: String, component: &str) -> (r: String)
    ensures
        r@ == spec_join(base@, component@),
{
    let mut out = base;
    let ends_with_separator = if out.as_str().is_empty() {
        true
    } else {
        let cs = crate::text::chars_of(out.as_str());
        cs[cs.len() - 1] == '/'
    };
    if !ends_with_separator {
        push_str(&mut out, "/");
    }
    push_str(&mut out, component);
    out
}

/// A non-empty value of an optional setting.
pub open spec fn non_empty(v: Option<Seq<char>>) -> bool {
    v matches Some(s) && s.len() > 0
}

/// The config file path: `$PLANKA_CONFIG` when set and non-empty; else
/// `plnk/config.toml` under `$XDG_CONFIG_HOME` when set and non-empty; else
/// under `.config` in the home directory, or in `.` without a home.
pub open spec fn spec_config_path(
    planka_config: Option<Seq<char>>,
    xdg_config_home: Option<Seq<char>>,
    home: Option<Seq<char>>,
) -> Seq<char> {
    if non_empty(planka_config) {
        planka_config->0
    } else {
        let base = if non_empty(xdg_config_home) {
            xdg_config_home->0
        } else {
            spec_join(
                match home {
                    Some(h) => h,
                    None => "."@,
                },
                ".config"@,
            )
        };
        spec_join(spec_join(base, "plnk"@), "config.toml"@)
    }
}

/// Optional text, as characters.
pub open spec fn opt_view(v: Option<&str>) -> Option<Seq<char>> {
    match v {
        Some(s) => Some(s@),
        None => None,
    }
}

/// Resolves the config file path from the `PLANKA_CONFIG` and
/// `XDG_CONFIG_HOME` settings and the home directory.
pub fn resolve_config_path(planka_config: Option<&str>, xdg_config_home: Option<&str>, home: Option<&str>) -> (r:
    String)
    ensures
        r@ == spec_config_path(opt_view(planka_config), opt_view(xdg_config_home), opt_view(home)),
{
    if let Some(path) = planka_config {
        if !path.is_empty() {
            return path.to_owned();
        }
    }
    let base = match xdg_config_home {
        Some(x) if !x.is_empty() => x.to_owned(),
        _ => {
            let h = match home {
                Some(h) => h.to_owned(),
                None => ".".to_owned(),
            };
            join_component(h, ".config")
        },
    };
    join_component(join_component(base, "plnk"), "config.toml")
}

/// Where resolved credentials came from.
#[derive(Debug, Clone, Copy, PartialEq, Eq)]
pub enum CredentialSource {
    Flags,
    Environment,
    ConfigFile,
}

impl CredentialSource {
    /// The human-readable name of the source.
    pub open spec fn spec_label(self) -> Seq<char> {
        match self {
            CredentialSource::Flags => "CLI flags"@,
            CredentialSource::Environment => "environment variables"@,
            CredentialSource::ConfigFile => "config file"@,
        }
    }

    /// The human-readable name of the source ("CLI flags",
    /// "environment variables", "config file").
    pub fn label(&self) -> (r: String)
        ensures
            r@ == self.spec_label(),
    {
        match self {
            CredentialSource::Flags => "CLI flags".to_owned(),
            CredentialSource::Environment => "environment variables".to_owned(),
            CredentialSource::ConfigFile => "config file".to_owned(),
        }
    }
}

/// What `url::Url::parse` makes of a text: the serialised absolute URL
/// (`Url::as_str`, e.g. with the root path `/` added), or `None` when the
/// text is not an absolute URL.
pub uninterp spec fn spec_url_text(s: Seq<char>) -> Option<Seq<char>>;

/// Calls `url::Url::parse` and keeps the serialisation of the parsed URL;
/// both success and the text depend on the input alone.
#[verifier::external_body]
fn parse_url_text(s: &str) -> (r: Result<String, url::ParseError>)
    ensures
        r is Ok <==> spec_url_text(s@) is Some,
        r matches Ok(t) ==> Some(t@) == spec_url_text(s@),
{
    url::Url::parse(s).map(String::from)
}

/// Resolved credentials ready for API use; the server is the serialised
/// absolute URL.
#[derive(Debug)]
pub struct ResolvedCredentials {
    pub server: String,
    pub token: String,
    pub source: CredentialSource,
}

/// The outcome of the precedence chain before the server URL is parsed.
pub enum CredentialChoice {
    /// Credentials from one source: server text, token, and the source.
    Chosen(Seq<char>, Seq<char>, CredentialSource),
    /// Only one of `--server` and `--token` was given.
    PartialFlags,
    /// No source supplied credentials.
    Missing,
}

/// The precedence chain: both CLI flags; else, when only one flag is given,
/// an error; else both environment variables when both are non-empty; else
/// the config file.
pub open spec fn spec_credential_choice(
    flag_server: Option<Seq<char>>,
    flag_token: Option<Seq<char>>,
    env_server: Option<Seq<char>>,
    env_token: Option<Seq<char>>,
    config: Option<ConfigFile>,
) -> CredentialChoice {
    if flag_server is Some && flag_token is Some {
        CredentialChoice::Chosen(flag_server->0, flag_token->0, CredentialSource::Flags)
    } else if flag_server is Some || flag_token is Some {
        CredentialChoice::PartialFlags
    } else if non_empty(env_server) && non_empty(env_token) {
        CredentialChoice::Chosen(env_server->0, env_token->0, CredentialSource::Environment)
    } else if config is Some {
        CredentialChoice::Chosen(config->0.server@, config->0.token@, CredentialSource::ConfigFile)
    } else {
        CredentialChoice::Missing
    }
}

/// The field named when a source's server URL does not parse.
pub open spec fn spec_server_field(source: CredentialSource) -> Seq<char> {
    match source {
        CredentialSource::Flags => "--server"@,
        CredentialSource::Environment => "PLANKA_SERVER"@,
        CredentialSource::ConfigFile => "config.server"@,
    }
}

/// The opening of the message when a source's server URL does not parse.
pub open spec fn spec_server_error_prefix(source: CredentialSource) -> Seq<char> {
    match source {
        CredentialSource::ConfigFile => "Invalid URL in config file: "@,
        _ => "Invalid URL: "@,
    }
}

/// Whether the config file must be read: neither the flags nor the
/// environment settle the credentials on their own.
pub fn needs_config_file(
    flag_server: Option<&str>,
    flag_token: Option<&str>,
    env_server: Option<&str>,
    env_token: Option<&str>,
) -> (r: bool)
    ensures
        r == (flag_server is None && flag_token is None && !(non_empty(opt_view(env_server)) && non_empty(
            opt_view(env_token),
        ))),
{
    if flag_server.is_some() || flag_token.is_some() {
        return false;
    }
    match (env_server, env_token) {
        (Some(s), Some(t)) => s.is_empty() || t.is_empty(),
        _ => true,
    }
}

fn parse_server(server: &str, source: CredentialSource) -> (r: Result<String, PlankaError>)
    ensures
        r is Ok <==> spec_url_text(server@) is Some,
        r matches Ok(t) ==> Some(t@) == spec_url_text(server@),
        r matches Err(e) ==> (e matches PlankaError::InvalidOptionValue { field, message } && field@
            == spec_server_field(source) && spec_server_error_prefix(source).len() <= message@.len()
            && message@.subrange(0, spec_server_error_prefix(source).len() as int) == spec_server_error_prefix(
            source,
        )),
{
    match parse_url_text(server) {
        Ok(u) => Ok(u),
        Err(e) => {
            let field = match source {
                CredentialSource::Flags => "--server".to_owned(),
                CredentialSource::Environment => "PLANKA_SERVER".to_owned(),
                CredentialSource::ConfigFile => "config.server".to_owned(),
            };
            let mut message = String::new();
            match source {
                CredentialSource::ConfigFile => push_str(&mut message, "Invalid URL in config file: "),
                _ => push_str(&mut message, "Invalid URL: "),
            }
            let ghost prefix = message@;
            let text = display_url_error(&e);
            push_str(&mut message, text.as_str());
            assert(message@.subrange(0, prefix.len() as int) =~= prefix);
            Err(PlankaError::InvalidOptionValue { field, message })
        },
    }
}

/// Resolves credentials by the precedence chain from the CLI flags, the
/// `PLANKA_SERVER`/`PLANKA_TOKEN` settings and the config file contents
/// (`None` when there is no config file), parsing the chosen server URL.
pub fn resolve_credentials_from(
    flag_server: Option<&str>,
    flag_token: Option<&str>,
    env_server: Option<&str>,
    env_token: Option<&str>,
    config: Option<&ConfigFile>,
) -> (r: Result<ResolvedCredentials, PlankaError>)
    ensures
        ({
            let config_view = match config {
                Some(c) => Some(*c),
                None => None,
            };
            match spec_credential_choice(
                opt_view(flag_server),
                opt_view(flag_token),
                opt_view(env_server),
                opt_view(env_token),
                config_view,
            ) {
                CredentialChoice::Chosen(server, token, source) => {
                    &&& r is Ok <==> spec_url_text(server) is Some
                    &&& r matches Ok(c) ==> Some(c.server@) == spec_url_text(server) && c.token@ == token && c.source
                        == source
                    &&& r matches Err(e) ==> e matches PlankaError::InvalidOptionValue { field, .. } && field@
                        == spec_server_field(source)
                },
                CredentialChoice::PartialFlags => r matches Err(PlankaError::AuthenticationFailed { message })
                    && message@ == "Both --server and --token must be provided together."@,
                CredentialChoice::Missing => r matches Err(PlankaError::AuthenticationFailed { message })
                    && message@
                    == "No credentials found. Run 'plnk auth login', set PLANKA_SERVER/PLANKA_TOKEN, or pass --server and --token."@,
            }
        }),
{
    if let (Some(server), Some(token)) = (flag_server, flag_token) {
        let url = parse_server(server, CredentialSource::Flags)?;
        return Ok(ResolvedCredentials { server: url, token: token.to_owned(), source: CredentialSource::Flags });
    }
    if flag_server.is_some() || flag_token.is_some() {
        return Err(
            PlankaError::AuthenticationFailed {
                message: "Both --server and --token must be provided together.".to_owned(),
            },
        );
    }
    if let (Some(server), Some(token)) = (env_server, env_token) {
        if !server.is_empty() && !token.is_empty() {
            let url = parse_server(server, CredentialSource::Environment)?;
            return Ok(
                ResolvedCredentials {
                    server: url,
                    token: token.to_owned(),
                    source: CredentialSource::Environment,
                },
            );
        }
    }
    if let Some(c) = config {
        let url = parse_server(c.server.as_str(), CredentialSource::ConfigFile)?;
        return Ok(
            ResolvedCredentials { server: url, token: c.token.clone(), source: CredentialSource::ConfigFile },
        );
    }
    Err(
        PlankaError::AuthenticationFailed {
            message: "No credentials found. Run 'plnk auth login', set PLANKA_SERVER/PLANKA_TOKEN, or pass --server and --token.".to_owned(),
        },
    )
}

} // verus!
