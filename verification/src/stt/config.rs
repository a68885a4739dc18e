//! Speech-to-text configuration.

use vstd::prelude::*;

verus! {

/// Configuration of the speech-to-text (Murmure) integration.
#[derive(Debug, Clone)]
pub struct SttConfig {
    /// gRPC URL of the Murmure server (e.g. "http://localhost:50051")
    pub grpc_url: Option<String>,
    /// Whether STT is enabled
    pub enabled: bool,
    /// Maximum audio duration in seconds (safety limit)
    pub max_audio_duration_secs: u32,
    /// Whether to use Murmure's custom dictionary for corrections
    pub use_dictionary: bool,
}

/// STT is enabled unless configured otherwise.
pub fn default_enabled() -> (r: bool)
    ensures
        r,
{
    true
}

/// Audio is limited to two minutes unless configured otherwise.
pub fn default_max_duration() -> (r: u32)
    ensures
        r == 120,
{
    120
}

/// The custom dictionary is used unless configured otherwise.
pub fn default_use_dictionary() -> (r: bool)
    ensures
        r,
{
    true
}

impl SttConfig {
    /// The default configuration: no URL, enabled, 120 s, dictionary on.
    pub fn default() -> (c: SttConfig)
        ensures
            c.grpc_url is None,
            c.enabled,
            c.max_audio_duration_secs == 120,
            c.use_dictionary,
    {
        SttConfig {
            grpc_url: None,
            enabled: true,
            max_audio_duration_secs: default_max_duration(),
            use_dictionary: true,
        }
    }

    /// The gRPC URL to use: the configured one while STT is enabled, none
    /// when it is disabled.
    pub fn effective_url(&self) -> (r: Option<&str>)
        ensures
            match r {
                Some(u) => self.enabled && (self.grpc_url matches Some(g) && u@ == g@),
                None => !self.enabled || self.grpc_url is None,
            },
    {
        if self.enabled {
            match &self.grpc_url {
                Some(u) => Some(u.as_str()),
                None => None,
            }
        } else {
            None
        }
    }
}

} // verus!
