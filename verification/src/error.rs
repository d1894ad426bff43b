//! The library's error type, its classification into exit codes and error
//! type names, its rendered message and its structured envelope.

use vstd::prelude::*;

use crate::models::{ErrorDetail, ErrorEnvelope};
use crate::text::{ascii_upper_seq, decimal, push_decimal, push_str, str_eq, to_ascii_uppercase};

verus! {

#[verifier::external_type_specification]
#[verifier::external_body]
pub struct ExReqwestError(reqwest::Error);

#[verifier::external_type_specification]
#[verifier::external_body]
pub struct ExUrlParseError(url::ParseError);

#[verifier::external_type_specification]
#[verifier::external_body]
pub struct ExIoError(std::io::Error);

#[verifier::external_type_specification]
#[verifier::external_body]
pub struct ExJsonError(serde_json::Error);

#[verifier::external_type_specification]
#[verifier::external_body]
pub struct ExTomlDeError(toml::de::Error);

#[verifier::external_type_specification]
#[verifier::external_body]
pub struct ExTomlSerError(toml::ser::Error);

/// Unified error type of the library, mapped onto the CLI's error types and
/// exit codes.
#[derive(Debug)]
pub enum PlankaError {
    AuthenticationFailed { message: String },
    NotFound { resource_type: String, id: String },
    /// HTTP 404 from the server; Planka also answers 404 to permission
    /// denials, so the resource may exist.
    Remote404 { method: String, path: String, server_message: String },
    MissingRequiredOption { field: String },
    InvalidOptionValue { field: String, message: String },
    MutuallyExclusiveOptions { fields: Vec<String> },
    ApiError { status: u16, message: String },
    FileReadError { path: String, source: std::io::Error },
    Http(reqwest::Error),
    Url(url::ParseError),
    Io(std::io::Error),
    Json(serde_json::Error),
    TomlDeserialize(toml::de::Error),
    TomlSerialize(toml::ser::Error),
}

/// Methods for which a 404 may stand for a permission denial.
pub open spec fn spec_is_write_method(method: Seq<char>) -> bool {
    let m = ascii_upper_seq(method);
    m == "POST"@ || m == "PATCH"@ || m == "PUT"@ || m == "DELETE"@
}

/// Whether `method` (in any ASCII case) is POST, PATCH, PUT or DELETE.
pub fn is_write_method(method: &str) -> (r: bool)
    ensures
        r == spec_is_write_method(method@),
{
    let upper = to_ascii_uppercase(method);
    let u = upper.as_str();
    str_eq(u, "POST") || str_eq(u, "PATCH") || str_eq(u, "PUT") || str_eq(u, "DELETE")
}

/// The message shown for an HTTP 404: method and path, the server's own
/// message when it sent one, and a permission hint for write methods.
pub open spec fn spec_remote_404_text(method: Seq<char>, path: Seq<char>, server_message: Seq<char>) -> Seq<char> {
    let head = "HTTP 404 on "@ + method + " "@ + path;
    let with_message = if server_message.len() == 0 {
        head
    } else {
        head + "\n  Server message: "@ + server_message
    };
    if spec_is_write_method(method) {
        with_message + "\n  Note: Planka returns 404 for permission denials on writes. Verify your account has access to this resource."@
    } else {
        with_message
    }
}

/// Renders the message of a `Remote404` error.
pub fn format_remote_404(method: &str, path: &str, server_message: &str) -> (r: String)
    ensures
        r@ == spec_remote_404_text(method@, path@, server_message@),
{
    let mut out = String::new();
    push_str(&mut out, "HTTP 404 on ");
    push_str(&mut out, method);
    push_str(&mut out, " ");
    push_str(&mut out, path);
    if !server_message.is_empty() {
        push_str(&mut out, "\n  Server message: ");
        push_str(&mut out, server_message);
    }
    if is_write_method(method) {
        push_str(
            &mut out,
            "\n  Note: Planka returns 404 for permission denials on writes. Verify your account has access to this resource.",
        );
    }
    out
}

/// What `{:?}` renders for a list of strings: the Debug form of `Vec<String>`.
pub uninterp spec fn spec_debug_string_list(items: Seq<Seq<char>>) -> Seq<char>;

/// Calls the `Debug` formatting of `Vec<String>`; the text depends on the
/// strings alone.
#[verifier::external_body]
fn debug_string_list(items: &Vec<String>) -> (r: String)
    ensures
        r@ == spec_debug_string_list(items.deep_view()),
{
    format!("{items:?}")
}

/// Calls the `Display` formatting of `reqwest::Error`; nothing is stated of the text.
#[verifier::external_body]
fn display_reqwest_error(e: &reqwest::Error) -> String {
    format!("{e}")
}

/// Calls the `Display` formatting of `url::ParseError`; nothing is stated of the text.
#[verifier::external_body]
pub(crate) fn display_url_error(e: &url::ParseError) -> String {
    format!("{e}")
}

/// Calls the `Display` formatting of `std::io::Error`; the text can come
/// from the operating system, so nothing is stated of it.
#[verifier::external_body]
fn display_io_error(e: &std::io::Error) -> String {
    format!("{e}")
}

/// Calls the `Display` formatting of `serde_json::Error`; nothing is stated of the text.
#[verifier::external_body]
fn display_json_error(e: &serde_json::Error) -> String {
    format!("{e}")
}

/// Calls the `Display` formatting of `toml::de::Error`; nothing is stated of the text.
#[verifier::external_body]
fn display_toml_de_error(e: &toml::de::Error) -> String {
    format!("{e}")
}

/// Calls the `Display` formatting of `toml::ser::Error`; nothing is stated of the text.
#[verifier::external_body]
fn display_toml_ser_error(e: &toml::ser::Error) -> String {
    format!("{e}")
}

/// The fixed text that every message of this error begins with.
pub open spec fn spec_message_prefix(e: &PlankaError) -> Seq<char> {
    match e {
        PlankaError::AuthenticationFailed { .. } => "Authentication failed: "@,
        PlankaError::NotFound { .. } => "Resource not found: "@,
        PlankaError::Remote404 { .. } => "HTTP 404 on "@,
        PlankaError::MissingRequiredOption { .. } => "Missing required option: "@,
        PlankaError::InvalidOptionValue { .. } => "Invalid option value for "@,
        PlankaError::MutuallyExclusiveOptions { .. } => "Mutually exclusive options: "@,
        PlankaError::ApiError { .. } => "API error ("@,
        PlankaError::FileReadError { path, .. } => "File read error: "@ + path@ + ": "@,
        PlankaError::Http(_) => "HTTP error: "@,
        PlankaError::Url(_) => "Invalid URL: "@,
        PlankaError::Io(_) => "IO error: "@,
        PlankaError::Json(_) => "JSON error: "@,
        PlankaError::TomlDeserialize(_) => "TOML deserialization error: "@,
        PlankaError::TomlSerialize(_) => "TOML serialization error: "@,
    }
}

/// The whole message, for the variants whose fields are all the library's own.
pub open spec fn spec_message(e: &PlankaError) -> Option<Seq<char>> {
    match e {
        PlankaError::AuthenticationFailed { message } => Some("Authentication failed: "@ + message@),
        PlankaError::NotFound { resource_type, id } => Some(
            "Resource not found: "@ + resource_type@ + " "@ + id@,
        ),
        PlankaError::Remote404 { method, path, server_message } => Some(
            spec_remote_404_text(method@, path@, server_message@),
        ),
        PlankaError::MissingRequiredOption { field } => Some("Missing required option: "@ + field@),
        PlankaError::InvalidOptionValue { field, message } => Some(
            "Invalid option value for "@ + field@ + ": "@ + message@,
        ),
        PlankaError::MutuallyExclusiveOptions { fields } => Some(
            "Mutually exclusive options: "@ + spec_debug_string_list(fields.deep_view()),
        ),
        PlankaError::ApiError { status, message } => Some(
            "API error ("@ + decimal(*status as nat) + "): "@ + message@,
        ),
        _ => None,
    }
}

impl PlankaError {
    /// The CLI exit code of this error.
    pub open spec fn spec_exit_code(&self) -> i32 {
        match self {
            PlankaError::MissingRequiredOption { .. } | PlankaError::InvalidOptionValue { .. }
            | PlankaError::MutuallyExclusiveOptions { .. } | PlankaError::Url(_) => 2,
            PlankaError::AuthenticationFailed { .. } => 3,
            PlankaError::NotFound { .. } | PlankaError::Remote404 { .. } => 4,
            PlankaError::ApiError { .. } | PlankaError::Http(_) => 5,
            PlankaError::FileReadError { .. } | PlankaError::Io(_) | PlankaError::Json(_)
            | PlankaError::TomlDeserialize(_) | PlankaError::TomlSerialize(_) => 1,
        }
    }

    /// The spec error type name of this error.
    pub open spec fn spec_error_type(&self) -> &'static str {
        match self {
            PlankaError::MissingRequiredOption { .. } => "MissingRequiredOption",
            PlankaError::InvalidOptionValue { .. } | PlankaError::Url(_) => "InvalidOptionValue",
            PlankaError::MutuallyExclusiveOptions { .. } => "MutuallyExclusiveOptions",
            PlankaError::NotFound { .. } | PlankaError::Remote404 { .. } => "ResourceNotFound",
            PlankaError::AuthenticationFailed { .. } => "AuthenticationFailed",
            PlankaError::ApiError { .. } | PlankaError::Http(_) => "ApiError",
            PlankaError::FileReadError { .. } | PlankaError::Io(_) => "FileReadError",
            PlankaError::Json(_) | PlankaError::TomlDeserialize(_) | PlankaError::TomlSerialize(_) => "SerializationError",
        }
    }

    /// The field an error envelope names, for the variants that carry one.
    pub open spec fn spec_field(&self) -> Option<Seq<char>> {
        match self {
            PlankaError::MissingRequiredOption { field } => Some(field@),
            PlankaError::InvalidOptionValue { field, .. } => Some(field@),
            _ => None,
        }
    }

    /// Maps to the CLI exit code: 2 validation, 3 authentication,
    /// 4 not found, 5 server, 1 local I/O and serialization.
    pub fn exit_code(&self) -> (r: i32)
        ensures
            r == self.spec_exit_code(),
    {
        match self {
            PlankaError::MissingRequiredOption { .. } | PlankaError::InvalidOptionValue { .. }
            | PlankaError::MutuallyExclusiveOptions { .. } | PlankaError::Url(_) => 2,
            PlankaError::AuthenticationFailed { .. } => 3,
            PlankaError::NotFound { .. } | PlankaError::Remote404 { .. } => 4,
            PlankaError::ApiError { .. } | PlankaError::Http(_) => 5,
            PlankaError::FileReadError { .. } | PlankaError::Io(_) | PlankaError::Json(_)
            | PlankaError::TomlDeserialize(_) | PlankaError::TomlSerialize(_) => 1,
        }
    }

    /// Maps to the spec error type name.
    pub fn error_type(&self) -> (r: &'static str)
        ensures
            r == self.spec_error_type(),
    {
        match self {
            PlankaError::MissingRequiredOption { .. } => "MissingRequiredOption",
            PlankaError::InvalidOptionValue { .. } | PlankaError::Url(_) => "InvalidOptionValue",
            PlankaError::MutuallyExclusiveOptions { .. } => "MutuallyExclusiveOptions",
            PlankaError::NotFound { .. } | PlankaError::Remote404 { .. } => "ResourceNotFound",
            PlankaError::AuthenticationFailed { .. } => "AuthenticationFailed",
            PlankaError::ApiError { .. } | PlankaError::Http(_) => "ApiError",
            PlankaError::FileReadError { .. } | PlankaError::Io(_) => "FileReadError",
            PlankaError::Json(_) | PlankaError::TomlDeserialize(_) | PlankaError::TomlSerialize(_) => "SerializationError",
        }
    }

    /// The human-readable message of this error.
    pub fn message(&self) -> (r: String)
        ensures
            spec_message_prefix(self).len() <= r@.len(),
            r@.subrange(0, spec_message_prefix(self).len() as int) == spec_message_prefix(self),
            spec_message(self) is Some ==> r@ == spec_message(self)->0,
    {
        let mut out = String::new();
        match self {
            PlankaError::AuthenticationFailed { message } => {
                push_str(&mut out, "Authentication failed: ");
                push_str(&mut out, message.as_str());
            },
            PlankaError::NotFound { resource_type, id } => {
                push_str(&mut out, "Resource not found: ");
                push_str(&mut out, resource_type.as_str());
                push_str(&mut out, " ");
                push_str(&mut out, id.as_str());
            },
            PlankaError::Remote404 { method, path, server_message } => {
                out = format_remote_404(method.as_str(), path.as_str(), server_message.as_str());
            },
            PlankaError::MissingRequiredOption { field } => {
                push_str(&mut out, "Missing required option: ");
                push_str(&mut out, field.as_str());
            },
            PlankaError::InvalidOptionValue { field, message } => {
                push_str(&mut out, "Invalid option value for ");
                push_str(&mut out, field.as_str());
                push_str(&mut out, ": ");
                push_str(&mut out, message.as_str());
            },
            PlankaError::MutuallyExclusiveOptions { fields } => {
                push_str(&mut out, "Mutually exclusive options: ");
                let listed = debug_string_list(fields);
                push_str(&mut out, listed.as_str());
            },
            PlankaError::ApiError { status, message } => {
                push_str(&mut out, "API error (");
                push_decimal(&mut out, *status as u64);
                push_str(&mut out, "): ");
                push_str(&mut out, message.as_str());
            },
            PlankaError::FileReadError { path, source } => {
                push_str(&mut out, "File read error: ");
                push_str(&mut out, path.as_str());
                push_str(&mut out, ": ");
                let text = display_io_error(source);
                push_str(&mut out, text.as_str());
            },
            PlankaError::Http(e) => {
                push_str(&mut out, "HTTP error: ");
                let text = display_reqwest_error(e);
                push_str(&mut out, text.as_str());
            },
            PlankaError::Url(e) => {
                push_str(&mut out, "Invalid URL: ");
                let text = display_url_error(e);
                push_str(&mut out, text.as_str());
            },
            PlankaError::Io(e) => {
                push_str(&mut out, "IO error: ");
                let text = display_io_error(e);
                push_str(&mut out, text.as_str());
            },
            PlankaError::Json(e) => {
                push_str(&mut out, "JSON error: ");
                let text = display_json_error(e);
                push_str(&mut out, text.as_str());
            },
            PlankaError::TomlDeserialize(e) => {
                push_str(&mut out, "TOML deserialization error: ");
                let text = display_toml_de_error(e);
                push_str(&mut out, text.as_str());
            },
            PlankaError::TomlSerialize(e) => {
                push_str(&mut out, "TOML serialization error: ");
                let text = display_toml_ser_error(e);
                push_str(&mut out, text.as_str());
            },
        }
        out
    }

    /// Renders the structured JSON error envelope: never a success, with the
    /// error type name, the message, and the offending field when the error
    /// names one.
    pub fn to_error_envelope(&self) -> (r: ErrorEnvelope)
        ensures
            !r.success,
            r.error.error_type@ == self.spec_error_type()@,
            spec_message(self) is Some ==> r.error.message@ == spec_message(self)->0,
            r.error.message@.subrange(0, spec_message_prefix(self).len() as int) == spec_message_prefix(self),
            r.error.field.is_some() == self.spec_field().is_some(),
            self.spec_field() is Some ==> r.error.field.unwrap()@ == self.spec_field()->0,
            r.error.resource.is_none(),
            r.error.missing_ids.is_none(),
            r.error.requested_count.is_none(),
            r.error.found_count.is_none(),
            r.error.failures.is_none(),
    {
        let field = match self {
            PlankaError::MissingRequiredOption { field } => Some(field.clone()),
            PlankaError::InvalidOptionValue { field, .. } => Some(field.clone()),
            _ => None,
        };
        let kind_name = self.error_type();
        ErrorEnvelope {
            success: false,
            error: ErrorDetail {
                error_type: kind_name.to_owned(),
                message: self.message(),
                field,
                resource: None,
                missing_ids: None,
                requested_count: None,
                found_count: None,
                failures: None,
            },
        }
    }
}

} // verus!
