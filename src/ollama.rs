use vstd::prelude::*;

verus! {

/// A model that the local Ollama server offers.
#[derive(Clone, Debug)]
pub struct OllamaModel {
    pub name: String,
    pub modified_at: String,
    pub size: i64,
}

/// The body of the server's tags listing.
#[derive(Clone, Debug)]
pub struct OllamaTagsResponse {
    pub models: Vec<OllamaModel>,
}

/// Whether Ollama answered, the models it listed, and why it is not available.
#[derive(Clone, Debug)]
pub struct OllamaDetectionResult {
    pub available: bool,
    pub models: Vec<OllamaModel>,
    pub error: Option<String>,
}

/// How a request for the tags listing ended.
#[derive(Clone, Debug)]
pub enum OllamaProbe {
    /// No connection could be made; the transport's description.
    Unreachable(String),
    /// The server answered with a status other than success; the status as text.
    Status(String),
    /// The body was not a tags listing; the decoder's description.
    Unparsable(String),
    /// The listing.
    Tags(OllamaTagsResponse),
}

/// `r` says Ollama is not available, for this reason, with no models.
pub open spec fn unavailable(r: OllamaDetectionResult, reason: Seq<char>) -> bool {
    &&& !r.available
    &&& r.models@.len() == 0
    &&& r.error is Some
    &&& r.error->Some_0@ == reason
}

fn prefixed(prefix: &str, detail: &String) -> (r: String)
    ensures
        r@ == prefix@ + detail@,
{
    let mut r = String::from_str(prefix);
    r.append(detail.as_str());
    r
}

/// Whether an HTTP status code reports success: the 2xx range.
pub fn is_success_status(code: u16) -> (r: bool)
    ensures
        r == (200 <= code && code <= 299),
{
    200 <= code && code <= 299
}

/// Turns the outcome of the tags request into the detection result: available with the
/// listed models, or unavailable with a reason.
pub fn detect_ollama(probe: OllamaProbe) -> (r: OllamaDetectionResult)
    ensures
        match probe {
            OllamaProbe::Tags(t) => r.available && r.models@ == t.models@ && r.error is None,
            OllamaProbe::Unreachable(e) => unavailable(r, "Ollama not available: "@ + e@),
            OllamaProbe::Status(s) => unavailable(r, "Ollama returned status: "@ + s@),
            OllamaProbe::Unparsable(e) => unavailable(r, "Failed to parse Ollama response: "@ + e@),
        },
{
    match probe {
        OllamaProbe::Tags(t) => OllamaDetectionResult { available: true, models: t.models, error: None },
        OllamaProbe::Unreachable(e) => OllamaDetectionResult {
            available: false,
            models: Vec::new(),
            error: Some(prefixed("Ollama not available: ", &e)),
        },
        OllamaProbe::Status(s) => OllamaDetectionResult {
            available: false,
            models: Vec::new(),
            error: Some(prefixed("Ollama returned status: ", &s)),
        },
        OllamaProbe::Unparsable(e) => OllamaDetectionResult {
            available: false,
            models: Vec::new(),
            error: Some(prefixed("Failed to parse Ollama response: ", &e)),
        },
    }
}

} // verus!
