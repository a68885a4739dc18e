//! What the speech-to-text endpoints answer: the status, a one-shot
//! transcription's audio checks and reply, and the dictionary replies.
//! Serving the requests and calling the Murmure sidecar are left to the
//! caller.

use vstd::prelude::*;
use crate::stt::config::SttConfig;
use crate::stt::dictionary::{CorrectionMap, ProjectDictionary};
use crate::text::{extend_str, string_of};

verus! {

/// The largest audio accepted for a one-shot transcription: 25 MiB.
pub const MAX_AUDIO_BYTES: usize = 25 * 1024 * 1024;

/// Whether the sidecar answers, where it is, and the longest audio taken.
#[derive(Debug, Clone)]
pub struct SttStatusResponse {
    pub available: bool,
    pub grpc_url: Option<String>,
    pub max_audio_duration_secs: u32,
}

/// The status: where a sidecar client is configured, whether it answers
/// and the configured URL and limit; without one, unavailable, no URL and
/// a limit of 0.
pub fn stt_status_response(has_client: bool, available: bool, config: &SttConfig) -> (r:
    SttStatusResponse)
    ensures
        has_client ==> r.available == available && r.max_audio_duration_secs
            == config.max_audio_duration_secs && match (r.grpc_url, config.grpc_url) {
            (Some(a), Some(b)) => a@ == b@,
            (None, None) => true,
            _ => false,
        },
        !has_client ==> !r.available && r.grpc_url is None && r.max_audio_duration_secs == 0,
{
    if has_client {
        let url = match &config.grpc_url {
            Some(u) => Some(u.clone()),
            None => None,
        };
        SttStatusResponse {
            available,
            grpc_url: url,
            max_audio_duration_secs: config.max_audio_duration_secs,
        }
    } else {
        SttStatusResponse { available: false, grpc_url: None, max_audio_duration_secs: 0 }
    }
}

/// A one-shot transcription request.
#[derive(Debug, Clone)]
pub struct TranscribeRequest {
    /// Base64-encoded audio (WAV, 16 kHz, mono, 16-bit).
    pub audio_data: String,
    /// A language hint (e.g. `fr`, `en`).
    pub language: Option<String>,
    /// Whether the custom dictionary corrections apply.
    pub use_dictionary: bool,
}

/// Dictionary corrections apply unless the request says otherwise.
pub fn default_true() -> (r: bool)
    ensures
        r,
{
    true
}

/// The reply to a one-shot transcription.
#[derive(Debug, Clone)]
pub struct TranscribeResponse {
    pub text: String,
    pub success: bool,
    pub error: Option<String>,
}

/// What `base64`'s standard engine decodes a text to, where it is valid.
pub uninterp spec fn base64_decoded(s: Seq<char>) -> Option<Seq<u8>>;

/// The message of `base64::DecodeError` for a text that is not valid.
pub uninterp spec fn base64_error(s: Seq<char>) -> Seq<char>;

/// `base64::engine::general_purpose::STANDARD.decode`: the bytes are the
/// name `base64_decoded` of the text; where it is not valid, the error's
/// message is the name `base64_error` of it.
#[verifier::external_body]
fn base64_decode(s: &str) -> (r: Result<Vec<u8>, String>)
    ensures
        r matches Ok(b) ==> base64_decoded(s@) == Some(b@),
        r matches Err(m) ==> base64_decoded(s@) is None && m@ == base64_error(s@),
{
    match base64::Engine::decode(&base64::engine::general_purpose::STANDARD, s) {
        Ok(b) => Ok(b),
        Err(e) => Err(e.to_string()),
    }
}

/// Why the audio of a request is refused.
pub open spec fn audio_error(s: Seq<char>) -> Option<Seq<char>> {
    match base64_decoded(s) {
        None => Some("Invalid base64 audio data: "@ + base64_error(s)),
        Some(b) => if b.len() > MAX_AUDIO_BYTES {
            Some("Audio data too large (max 25MB)"@)
        } else {
            None
        },
    }
}

/// The audio bytes of a request: its base64 text decoded, at most 25 MiB;
/// otherwise the reason for refusing it.
pub fn decode_audio(req: &TranscribeRequest) -> (r: Result<Vec<u8>, String>)
    ensures
        match audio_error(req.audio_data@) {
            Some(m) => r matches Err(e) && e@ == m,
            None => r matches Ok(b) && base64_decoded(req.audio_data@) == Some(b@),
        },
{
    match base64_decode(req.audio_data.as_str()) {
        Ok(bytes) => {
            if bytes.len() > MAX_AUDIO_BYTES {
                Err("Audio data too large (max 25MB)".to_string())
            } else {
                Ok(bytes)
            }
        },
        Err(msg) => {
            let mut v: Vec<char> = Vec::new();
            extend_str(&mut v, "Invalid base64 audio data: ");
            extend_str(&mut v, msg.as_str());
            Err(string_of(v.as_slice()))
        },
    }
}

/// The reply for what the sidecar returned: the text on success, else an
/// empty text and the error.
pub fn transcribe_response(result: Result<String, String>) -> (r: TranscribeResponse)
    ensures
        match result {
            Ok(t) => r.text == t && r.success && r.error is None,
            Err(e) => r.text@.len() == 0 && !r.success && r.error == Some(e),
        },
{
    match result {
        Ok(text) => TranscribeResponse { text, success: true, error: None },
        Err(e) => TranscribeResponse { text: String::new(), success: false, error: Some(e) },
    }
}

/// What a file transcription reply from the sidecar gives: its text where
/// it succeeded, else the failure message (after which the caller drops its
/// connection).
pub fn file_transcription_result(success: bool, text: String, error: &str) -> (r: Result<
    String,
    String,
>)
    ensures
        success ==> r == Ok::<String, String>(text),
        !success ==> (r matches Err(e) && e@ == "Murmure transcription failed: "@ + error@),
{
    if success {
        Ok(text)
    } else {
        let mut v: Vec<char> = Vec::new();
        extend_str(&mut v, "Murmure transcription failed: ");
        extend_str(&mut v, error);
        Err(string_of(v.as_slice()))
    }
}

/// One correction rule of a reply.
#[derive(Debug, Clone)]
pub struct CorrectionEntry {
    pub pattern: String,
    pub replacement: String,
}

/// A dictionary as replied: its rules in pattern order and their number.
#[derive(Debug, Clone)]
pub struct DictionaryResponse {
    pub project_slug: String,
    pub corrections: Vec<CorrectionEntry>,
    pub total_rules: usize,
}

/// The rules of a reply as pairs.
pub open spec fn entries_of(v: Seq<CorrectionEntry>) -> Seq<(Seq<char>, Seq<char>)> {
    v.map_values(|e: CorrectionEntry| (e.pattern@, e.replacement@))
}

impl DictionaryResponse {
    /// The reply for a dictionary: its slug, its rules in pattern order, and
    /// their number.
    pub fn from(dict: ProjectDictionary) -> (r: DictionaryResponse)
        ensures
            r.project_slug == dict.project_slug,
            entries_of(r.corrections@) == dict.corrections.entries(),
            r.total_rules == dict.corrections.entries().len(),
    {
        let n = dict.corrections.len();
        let mut out: Vec<CorrectionEntry> = Vec::new();
        let mut i: usize = 0;
        while i < n
            invariant
                0 <= i <= n,
                n == dict.corrections.entries().len(),
                entries_of(out@) == dict.corrections.entries().take(i as int),
            decreases n - i,
        {
            let (p, rep) = dict.corrections.entry(i);
            let ghost before = out@;
            out.push(CorrectionEntry { pattern: p.clone(), replacement: rep.clone() });
            proof {
                assert(entries_of(out@) =~= entries_of(before).push((p@, rep@)));
                assert(dict.corrections.entries().take(i + 1) =~= dict.corrections.entries().take(
                    i as int,
                ).push(dict.corrections.entries()[i as int]));
            }
            i = i + 1;
        }
        proof {
            assert(dict.corrections.entries().take(n as int) =~= dict.corrections.entries());
        }
        DictionaryResponse { project_slug: dict.project_slug, corrections: out, total_rules: n }
    }
}

/// A request that replaces a dictionary.
#[derive(Debug, Clone)]
pub struct SaveDictionaryRequest {
    /// The corrections, pattern to replacement.
    pub corrections: CorrectionMap,
}

/// A request that adds or updates a rule.
#[derive(Debug, Clone)]
pub struct RuleRequest {
    pub pattern: String,
    pub replacement: String,
}

/// A request that removes a rule.
#[derive(Debug, Clone)]
pub struct RemoveRuleRequest {
    pub pattern: String,
}

} // verus!
