//! What the replies of chat services amount to, and the errors of talking to them.
use vstd::prelude::*;
use vstd::string::StringExecFns;
use crate::errors::Error;
use crate::text::{trim, trimmed};

verus! {

/// A chat service.
#[derive(Debug, Clone, Copy, PartialEq, Eq, Structural)]
pub enum Service {
    Llmapi,
    Gemini,
    Ollama,
}

/// How talking to a service failed.
#[derive(Debug, Clone, Copy, PartialEq, Eq, Structural)]
pub enum Failure {
    /// The request could not be sent or answered.
    Request,
    /// The service answered with an error status.
    Status,
    /// The answer could not be read as JSON.
    Parse,
    /// The answer held an error message.
    Reported,
}

/// The text before the detail of a failure.
pub open spec fn failure_head(service: Service, failure: Failure) -> Seq<char> {
    match service {
        Service::Llmapi => match failure {
            Failure::Request => "LLMAPI request failed: "@,
            Failure::Status => "LLMAPI HTTP "@,
            Failure::Parse => "LLMAPI parse error: "@,
            Failure::Reported => "LLMAPI error: "@,
        },
        Service::Gemini => match failure {
            Failure::Request => "Request failed: "@,
            Failure::Status => "HTTP "@,
            Failure::Parse => "Failed to parse response: "@,
            Failure::Reported => "Gemini error: "@,
        },
        Service::Ollama => match failure {
            Failure::Request => "Ollama request failed: "@,
            Failure::Status => "Ollama HTTP "@,
            Failure::Parse => "Ollama parse error: "@,
            Failure::Reported => "Ollama error: "@,
        },
    }
}

/// The error of a failure of `service` with text `detail` (for a status
/// failure: the status, `: ` and the answer's text).
pub open spec fn failure_error_text(service: Service, failure: Failure, detail: Seq<char>) -> Seq<char> {
    failure_head(service, failure) + detail
}

/// The error of a failure of `service` with text `detail`: a local-model
/// error for Ollama, a run error otherwise.
pub fn service_error(service: Service, failure: Failure, detail: &str) -> (e: Error)
    ensures
        service is Ollama ==> (e matches Error::LocalModelInferenceError(s) && s@ == failure_error_text(service, failure, detail@)),
        !(service is Ollama) ==> (e matches Error::RunError(s) && s@ == failure_error_text(service, failure, detail@)),
{
    let head = match service {
        Service::Llmapi => match failure {
            Failure::Request => "LLMAPI request failed: ",
            Failure::Status => "LLMAPI HTTP ",
            Failure::Parse => "LLMAPI parse error: ",
            Failure::Reported => "LLMAPI error: ",
        },
        Service::Gemini => match failure {
            Failure::Request => "Request failed: ",
            Failure::Status => "HTTP ",
            Failure::Parse => "Failed to parse response: ",
            Failure::Reported => "Gemini error: ",
        },
        Service::Ollama => match failure {
            Failure::Request => "Ollama request failed: ",
            Failure::Status => "Ollama HTTP ",
            Failure::Parse => "Ollama parse error: ",
            Failure::Reported => "Ollama error: ",
        },
    };
    let mut s = head.to_owned();
    s.append(detail);
    match service {
        Service::Ollama => Error::LocalModelInferenceError(s),
        _ => Error::RunError(s),
    }
}

/// The detail of a status failure: the status, `: ` and the answer's text.
pub fn status_detail(status: &str, body: &str) -> (s: String)
    ensures
        s@ == status@ + ": "@ + body@,
{
    let mut s = status.to_owned();
    s.append(": ");
    s.append(body);
    s
}

/// The parts of a service's answer the agent reads: an error message, if the
/// answer holds one, and the text of the first reply, if any.
#[derive(Debug, Clone, PartialEq, Eq)]
pub struct ServiceAnswer {
    pub error_message: Option<String>,
    pub content: Option<String>,
}

/// The reply text in `answer`: an error when the answer reports one (Ollama's
/// answers are not searched for errors), else the first reply's text, or
/// nothing when there is none.
pub fn reply_text(service: Service, answer: ServiceAnswer) -> (r: Result<String, Error>)
    ensures
        match answer.error_message {
            Some(m) if !(service is Ollama) => r matches Err(Error::RunError(s)) && s@
                == failure_error_text(service, Failure::Reported, m@),
            _ => r matches Ok(t) && t@ == match answer.content {
                Some(c) => c@,
                None => Seq::<char>::empty(),
            },
        },
{
    match answer.error_message {
        Some(m) => {
            match service {
                Service::Ollama => {},
                _ => {
                    return Err(service_error(service, Failure::Reported, m.as_str()));
                },
            }
        },
        None => {},
    }
    match answer.content {
        Some(c) => Ok(c),
        None => Ok(String::new()),
    }
}

/// The status is a success: 200 to 299, as `StatusCode::is_success` has it.
pub open spec fn success_status(code: u16) -> bool {
    200 <= code <= 299
}

/// Whether a reply with status `code` is read as an answer rather than
/// reported as a status failure.
pub fn is_success_status(code: u16) -> (b: bool)
    ensures
        b == success_status(code),
{
    200 <= code && code <= 299
}

/// Every byte of `bytes` may stand in an HTTP header value: a tab, or a byte
/// of at least 32 other than 127.
pub open spec fn header_bytes_valid(bytes: Seq<u8>) -> bool {
    forall|i: int| 0 <= i < bytes.len() ==> (#[trigger] bytes[i] >= 32 && bytes[i] != 127) || bytes[i] == 9
}

/// What `HeaderValue::from_str` (of the `http` crate, through reqwest) says
/// of `text`: it accepts the text exactly when every byte of its UTF-8
/// encoding may stand in a header value, and its error displays as
/// `failed to parse header value`.
#[verifier::external_body]
fn check_header_value(text: &str) -> (r: Result<(), String>)
    ensures
        r is Ok <==> header_bytes_valid(vstd::utf8::encode_utf8(text@)),
        r matches Err(e) ==> e@ == "failed to parse header value"@,
{
    match reqwest::header::HeaderValue::from_str(text) {
        Ok(_) => Ok(()),
        Err(e) => Err(e.to_string()),
    }
}

/// The Authorization value for `api_key`: `Bearer ` and the trimmed key.
pub open spec fn bearer_value(api_key: Seq<char>) -> Seq<char> {
    "Bearer "@ + trim(api_key)
}

/// The Authorization value for an LLMAPI request with `api_key`, or the
/// wrong-key error when that value cannot stand in a header.
pub fn authorization_value(api_key: &str) -> (r: Result<String, Error>)
    ensures
        header_bytes_valid(vstd::utf8::encode_utf8(bearer_value(api_key@))) ==> (r matches Ok(v) && v@
            == bearer_value(api_key@)),
        !header_bytes_valid(vstd::utf8::encode_utf8(bearer_value(api_key@))) ==> (r matches Err(
            Error::WrongApiKey(s),
        ) && s@ == "Invalid Authorization header: "@ + "failed to parse header value"@),
{
    let mut value = "Bearer ".to_owned();
    let key = trimmed(api_key);
    value.append(key.as_str());
    match check_header_value(value.as_str()) {
        Ok(()) => Ok(value),
        Err(e) => {
            let mut m = "Invalid Authorization header: ".to_owned();
            m.append(e.as_str());
            Err(Error::WrongApiKey(m))
        },
    }
}

} // verus!
