//! Error types of std and of outside crates that the library's errors carry,
//! and the calls that render them as text.

use vstd::prelude::*;

use crate::api::ClientSettings;

verus! {

/// `std::io::Error`, carried through unchanged.
#[verifier::external_type_specification]
#[verifier::external_body]
pub struct ExIoError(std::io::Error);

/// `serde_json::Error`, carried through unchanged.
#[verifier::external_type_specification]
#[verifier::external_body]
pub struct ExJsonError(serde_json::Error);

/// `std::string::FromUtf8Error`, carried through unchanged.
#[verifier::external_type_specification]
#[verifier::external_body]
pub struct ExFromUtf8Error(std::string::FromUtf8Error);

/// Renders an I/O error with its `Display` impl (`std::io::Error`'s
/// `to_string`). What the text says depends on the error's origin and the
/// platform, so nothing is stated of it.
#[verifier::external_body]
pub(crate) fn io_error_text(e: &std::io::Error) -> String {
    e.to_string()
}

/// Renders a JSON error with its `Display` impl (`serde_json::Error`'s
/// `to_string`); nothing is stated of the text.
#[verifier::external_body]
pub(crate) fn json_error_text(e: &serde_json::Error) -> String {
    e.to_string()
}

/// Renders a UTF-8 conversion error with its `Display` impl
/// (`FromUtf8Error`'s `to_string`); nothing is stated of the text.
#[verifier::external_body]
pub(crate) fn utf8_error_text(e: &std::string::FromUtf8Error) -> String {
    e.to_string()
}

/// `reqwest::Error`, carried through unchanged.
#[verifier::external_type_specification]
#[verifier::external_body]
pub struct ExReqwestError(reqwest::Error);

/// `reqwest::Client`, the HTTP client the metadata sources hold.
#[verifier::external_type_specification]
#[verifier::external_body]
pub struct ExReqwestClient(reqwest::Client);

/// Renders an HTTP client error with its `Display` impl
/// (`reqwest::Error`'s `to_string`); nothing is stated of the text.
#[verifier::external_body]
pub(crate) fn reqwest_error_text(e: &reqwest::Error) -> String {
    e.to_string()
}

/// Builds an HTTP client with `reqwest::Client::builder()`: the request,
/// connect and idle-pool timeouts of `settings`. Whether building succeeds
/// depends on the system (TLS backend, proxy settings in the environment),
/// so nothing is stated of the outcome; `settings` is handed back as given.
#[verifier::external_body]
pub(crate) fn build_http_client(settings: ClientSettings) -> (r: (
    Result<reqwest::Client, reqwest::Error>,
    ClientSettings,
))
    ensures
        r.1 == settings,
{
    let built = reqwest::Client::builder().timeout(std::time::Duration::from_secs(settings.timeout_secs))
        .connect_timeout(std::time::Duration::from_secs(settings.connect_secs)).pool_idle_timeout(
        std::time::Duration::from_secs(settings.idle_secs),
    ).build();
    (built, settings)
}

/// As `build_http_client`, with `user_agent` as the `User-Agent` header
/// (`ClientBuilder::user_agent`). Nothing is stated of the outcome;
/// `settings` and `user_agent` are handed back as given.
#[verifier::external_body]
pub(crate) fn build_http_client_with_agent(settings: ClientSettings, user_agent: String) -> (r: (
    Result<reqwest::Client, reqwest::Error>,
    ClientSettings,
    String,
))
    ensures
        r.1 == settings,
        r.2 == user_agent,
{
    let built = reqwest::Client::builder().timeout(std::time::Duration::from_secs(settings.timeout_secs))
        .connect_timeout(std::time::Duration::from_secs(settings.connect_secs)).pool_idle_timeout(
        std::time::Duration::from_secs(settings.idle_secs),
    ).user_agent(user_agent.as_str()).build();
    (built, settings, user_agent)
}

/// Builds an HTTP client with default settings
/// (`reqwest::Client::builder().build()`, what `Client::new` does without
/// panicking). Whether building succeeds depends on the system, so nothing
/// is stated of the outcome.
#[verifier::external_body]
pub(crate) fn build_default_http_client() -> Result<reqwest::Client, reqwest::Error> {
    reqwest::Client::builder().build()
}

} // verus!
