//! Metadata sources: audnexus (Audible) and AudiobookDB, and the choice
//! between them.

use vstd::prelude::*;

pub mod audible;
pub mod audiobookdb;

use audible::{AudibleClient, AudibleError, MetadataRegion, DEFAULT_API_URL};
use audiobookdb::{AudiobookdbClient, AudiobookdbError};

verus! {

/// Default request timeout in seconds.
pub const DEFAULT_TIMEOUT_SECS: u64 = 30;

/// Connection-establishment timeout in seconds.
pub const CONNECT_TIMEOUT_SECS: u64 = 10;

/// Connection-pool idle timeout in seconds.
pub const POOL_IDLE_TIMEOUT_SECS: u64 = 30;

/// The timeouts an HTTP client is built with, in seconds.
#[derive(Debug, Clone, Copy, PartialEq, Eq, Structural)]
pub struct ClientSettings {
    /// The whole-request timeout.
    pub timeout_secs: u64,
    /// The connection-establishment timeout.
    pub connect_secs: u64,
    /// How long an idle pooled connection is kept.
    pub idle_secs: u64,
}

/// The settings both metadata sources build their clients with.
pub open spec fn source_client_settings() -> ClientSettings {
    ClientSettings {
        timeout_secs: DEFAULT_TIMEOUT_SECS,
        connect_secs: CONNECT_TIMEOUT_SECS,
        idle_secs: POOL_IDLE_TIMEOUT_SECS,
    }
}

/// The settings both metadata sources build their clients with.
pub fn source_settings() -> (s: ClientSettings)
    ensures
        s == source_client_settings(),
{
    ClientSettings {
        timeout_secs: DEFAULT_TIMEOUT_SECS,
        connect_secs: CONNECT_TIMEOUT_SECS,
        idle_secs: POOL_IDLE_TIMEOUT_SECS,
    }
}

/// Retries after the first request; each source makes at most
/// `1 + MAX_RETRIES` requests.
pub const MAX_RETRIES: usize = 3;

/// Base delay for backoff in milliseconds.
pub const BACKOFF_BASE_MS: u64 = 1000;

/// An error of either metadata source.
#[derive(Debug)]
pub enum MetadataError {
    Audible(AudibleError),
    Audiobookdb(AudiobookdbError),
}

/// Whether `s` is the message of `e`: that of the source's error.
pub open spec fn metadata_message(e: MetadataError, s: Seq<char>) -> bool {
    match e {
        MetadataError::Audible(a) => crate::api::audible::audible_message(a, s),
        MetadataError::Audiobookdb(b) => crate::api::audiobookdb::audiobookdb_message(b, s),
    }
}

impl MetadataError {
    /// The message of the source's error.
    pub fn to_string(&self) -> (s: String)
        ensures
            metadata_message(*self, s@),
    {
        match self {
            MetadataError::Audible(e) => e.to_string(),
            MetadataError::Audiobookdb(e) => e.to_string(),
        }
    }
}

impl From<AudibleError> for MetadataError {
    fn from(e: AudibleError) -> (r: MetadataError) {
        MetadataError::Audible(e)
    }
}

impl vstd::std_specs::convert::FromSpecImpl<AudibleError> for MetadataError {
    open spec fn obeys_from_spec() -> bool {
        true
    }

    open spec fn from_spec(e: AudibleError) -> MetadataError {
        MetadataError::Audible(e)
    }
}

impl From<AudiobookdbError> for MetadataError {
    fn from(e: AudiobookdbError) -> (r: MetadataError) {
        MetadataError::Audiobookdb(e)
    }
}

impl vstd::std_specs::convert::FromSpecImpl<AudiobookdbError> for MetadataError {
    open spec fn obeys_from_spec() -> bool {
        true
    }

    open spec fn from_spec(e: AudiobookdbError) -> MetadataError {
        MetadataError::Audiobookdb(e)
    }
}

/// The metadata source a user selects.
#[derive(Debug, Clone, Copy, PartialEq, Eq, Structural)]
pub enum MetadataSourceKind {
    Audiobookdb,
    Audnexus,
}

impl MetadataSourceKind {
    /// The source's name in lower case.
    pub fn to_string(&self) -> (s: String)
        ensures
            s@ == match self {
                MetadataSourceKind::Audiobookdb => "audiobookdb"@,
                MetadataSourceKind::Audnexus => "audnexus"@,
            },
    {
        match self {
            MetadataSourceKind::Audiobookdb => "audiobookdb".to_owned(),
            MetadataSourceKind::Audnexus => "audnexus".to_owned(),
        }
    }
}

impl Default for MetadataSourceKind {
    fn default() -> (k: MetadataSourceKind)
        ensures
            k == MetadataSourceKind::Audiobookdb,
    {
        MetadataSourceKind::Audiobookdb
    }
}

/// The selected metadata source, with its client.
pub enum MetadataSource {
    Audible(AudibleClient),
    Audiobookdb(AudiobookdbClient),
}

impl MetadataSource {
    /// The selected source, with the US region for audnexus; `api_url`,
    /// when given, replaces the source's default URL.
    pub fn new(kind: MetadataSourceKind, api_url: Option<&str>) -> (r: Result<
        MetadataSource,
        MetadataError,
    >)
        ensures
            r matches Ok(src) ==> source_built(src, kind, api_url, MetadataRegion::Us),
            r matches Err(e) ==> match kind {
                MetadataSourceKind::Audnexus => e matches MetadataError::Audible(AudibleError::Network(_)),
                MetadataSourceKind::Audiobookdb => e matches MetadataError::Audiobookdb(
                    AudiobookdbError::Connection(_),
                ),
            },
    {
        MetadataSource::new_with_region(kind, api_url, MetadataRegion::Us)
    }

    /// The selected source; `region` applies to audnexus only, and
    /// `api_url`, when given, replaces the source's default URL.
    pub fn new_with_region(kind: MetadataSourceKind, api_url: Option<&str>, region: MetadataRegion) -> (r:
        Result<MetadataSource, MetadataError>)
        ensures
            r matches Ok(src) ==> source_built(src, kind, api_url, region),
            r matches Err(e) ==> match kind {
                MetadataSourceKind::Audnexus => e matches MetadataError::Audible(AudibleError::Network(_)),
                MetadataSourceKind::Audiobookdb => e matches MetadataError::Audiobookdb(
                    AudiobookdbError::Connection(_),
                ),
            },
    {
        match kind {
            MetadataSourceKind::Audnexus => {
                let url = match api_url {
                    Some(u) => u,
                    None => DEFAULT_API_URL,
                };
                match AudibleClient::with_base_url_region(url, region) {
                    Ok(c) => Ok(MetadataSource::Audible(c)),
                    Err(e) => Err(MetadataError::Audible(e)),
                }
            },
            MetadataSourceKind::Audiobookdb => {
                let built = match api_url {
                    Some(u) => AudiobookdbClient::with_base_url(u),
                    None => AudiobookdbClient::new(),
                };
                match built {
                    Ok(c) => Ok(MetadataSource::Audiobookdb(c)),
                    Err(e) => Err(MetadataError::Audiobookdb(e)),
                }
            },
        }
    }
}

/// Whether `src` is the client that `kind`, `api_url` and `region` select:
/// audnexus at the given URL (else its default) and region, or AudiobookDB
/// at the given URL (else its default).
pub open spec fn source_built(
    src: MetadataSource,
    kind: MetadataSourceKind,
    api_url: Option<&str>,
    region: MetadataRegion,
) -> bool {
    match kind {
        MetadataSourceKind::Audnexus => src matches MetadataSource::Audible(c) && c.base_url_text()
            == match api_url {
            Some(u) => u@,
            None => DEFAULT_API_URL@,
        } && c.region_of() == region && c.settings_of() == source_client_settings(),
        MetadataSourceKind::Audiobookdb => src matches MetadataSource::Audiobookdb(c)
            && c.base_url_text() == match api_url {
            Some(u) => u@,
            None => audiobookdb::DEFAULT_API_URL@,
        } && c.settings_of() == source_client_settings() && c.user_agent_of()
            == audiobookdb::USER_AGENT@,
    }
}

} // verus!
